//! A declarative conditional class-name compiler.
//!
//! Given an ordered list of class tokens, each optionally guarded by a
//! condition expression, the compiler validates the tokens, folds conditions
//! that are statically known, coalesces runs of unconditional tokens, and
//! produces an immutable artifact that renders the live tokens joined by
//! single spaces: either a dynamic evaluator driven by a fixed-size boolean
//! record, or a fully precomputed combinatorial table.
#![verifier::loop_isolation(false)]

pub mod builder;
pub mod classes;
pub mod coalesce;
pub mod compile;
pub mod dynamic;
pub mod known;
pub mod laws;
pub mod render;
pub mod statics;
pub mod table;
pub mod token;

pub use builder::{build_class_specs, ClassRule, ClassSpec, CompileError};
pub use classes::{erase_classes, erase_static_classes, Classes, StaticClasses};
pub use compile::{classes_impl, static_classes_impl, CompiledClasses, CompiledStatic};
pub use dynamic::{DynamicClassSet, DynamicTemplate};
pub use known::{is_known, CondExpr, Known};
pub use statics::StaticClassSet;
pub use table::StaticTable;
pub use token::{ClassToken, ValidationError};
