//! The four-valued lattice that the condition analyzer assigns to a
//! condition expression, and the structural analysis itself.

use vstd::prelude::*;

verus! {

/// What is statically known about a condition expression.
///
/// `Never` behaves like `False` for filtering purposes, but is not
/// invertible to `True` under negation: it stands for a provably divergent
/// path, whose negation still never produces the branch.
#[derive(Debug, Clone, Copy, PartialEq, Eq, Structural)]
pub enum Known {
    True,
    False,
    Maybe,
    Never,
}

impl Known {
    /// Lattice negation: `True <-> False`, `Maybe <-> Maybe`, `Never <-> Never`.
    pub open spec fn spec_not(self) -> Known {
        match self {
            Known::True => Known::False,
            Known::False => Known::True,
            Known::Maybe => Known::Maybe,
            Known::Never => Known::Never,
        }
    }

    /// Whether the entry guarded by such a condition is statically dead.
    pub fn is_false(self) -> (r: bool)
        ensures
            r == (self == Known::False || self == Known::Never),
    {
        match self {
            Known::False => true,
            Known::Never => true,
            _ => false,
        }
    }

    /// Whether the condition is statically certain to hold.
    pub fn is_true(self) -> (r: bool)
        ensures
            r == (self == Known::True),
    {
        match self {
            Known::True => true,
            _ => false,
        }
    }

    /// Executable lattice negation.
    pub fn not(self) -> (r: Known)
        ensures
            r == self.spec_not(),
    {
        match self {
            Known::True => Known::False,
            Known::False => Known::True,
            Known::Maybe => Known::Maybe,
            Known::Never => Known::Never,
        }
    }
}

/// The syntactic shape of a condition expression, as far as the analyzer
/// can see it. The front end maps each host-language boolean expression to
/// one of these shapes; everything the analyzer cannot see through is
/// `Opaque`.
#[derive(Debug, PartialEq, Eq, Hash)]
pub enum CondExpr {
    /// A literal `true` or `false`.
    Lit(bool),
    /// An invisible grouping around an inner expression.
    Group(Box<CondExpr>),
    /// A parenthesized inner expression.
    Paren(Box<CondExpr>),
    /// A block: `Some` when its final statement is a bare trailing
    /// expression, `None` when the analyzer cannot see through it.
    Block(Option<Box<CondExpr>>),
    /// A divergent early exit that never produces a value for this branch.
    Divergent,
    /// A logical negation of an inner expression.
    Not(Box<CondExpr>),
    /// Anything else: a comparison, a call, an identifier, and so on.
    Opaque,
}

/// The analyzer's verdict on a condition expression. Structural, never
/// evaluative: it inspects the shape only, so a non-constant expression is
/// never misclassified as constant, while some constants may be left as
/// `Maybe`.
pub open spec fn spec_is_known(e: CondExpr) -> Known
    decreases e,
{
    match e {
        CondExpr::Lit(b) => if b {
            Known::True
        } else {
            Known::False
        },
        CondExpr::Group(inner) => spec_is_known(*inner),
        CondExpr::Paren(inner) => spec_is_known(*inner),
        CondExpr::Block(Some(inner)) => spec_is_known(*inner),
        CondExpr::Block(None) => Known::Maybe,
        CondExpr::Divergent => Known::Never,
        CondExpr::Not(inner) => spec_is_known(*inner).spec_not(),
        CondExpr::Opaque => Known::Maybe,
    }
}

/// Classify a condition expression into the `Known` lattice by inspecting
/// its syntactic shape.
pub fn is_known(expr: &CondExpr) -> (r: Known)
    ensures
        r == spec_is_known(*expr),
    decreases *expr,
{
    match expr {
        CondExpr::Lit(b) => if *b {
            Known::True
        } else {
            Known::False
        },
        CondExpr::Group(inner) => is_known(inner),
        CondExpr::Paren(inner) => is_known(inner),
        CondExpr::Block(Some(inner)) => is_known(inner),
        CondExpr::Block(None) => Known::Maybe,
        CondExpr::Divergent => Known::Never,
        CondExpr::Not(inner) => is_known(inner).not(),
        CondExpr::Opaque => Known::Maybe,
    }
}

} // verus!
