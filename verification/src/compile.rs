//! The compiler pipeline entry points: validate, fold, then hand the
//! surviving entries to the chosen generator. An input with no live
//! condition short-circuits to a single pre-computed class set in both
//! pipelines.

use vstd::prelude::*;

use crate::builder::{
    build_class_specs, cond_count, count_conditions, lemma_folded_distinct, lemma_folded_wf,
    spec_build_err, spec_build_ok, spec_folded, spec_tokens, ClassRule, ClassSpec, CompileError,
};
use crate::coalesce::{coalesce, group_cond_count, lemma_ungroup_cond_count, ungroup};
use crate::dynamic::DynamicTemplate;
use crate::render::spec_join;
use crate::statics::{fixed_set, StaticClassSet};
use crate::table::{build_static_table, StaticTable};
use crate::token::valid_token_views;

verus! {

/// The artifact of the dynamic pipeline: a single pre-computed set when no
/// condition survives folding, otherwise a reusable template awaiting one
/// boolean per live condition.
pub enum CompiledClasses {
    Fixed(StaticClassSet),
    Dynamic(DynamicTemplate),
}

/// The artifact of the static pipeline: a single pre-computed set when no
/// condition survives folding, otherwise the full combinatorial table.
pub enum CompiledStatic {
    Fixed(StaticClassSet),
    Table(StaticTable),
}

proof fn lemma_folded_tokens_valid(rules: Seq<ClassRule>)
    requires
        spec_build_ok(rules),
    ensures
        valid_token_views(spec_tokens(spec_folded(rules))),
        forall|i: int|
            0 <= i < spec_folded(rules).len() ==> (#[trigger] spec_folded(rules)[i]).wf(),
{
    lemma_folded_wf(rules);
    assert forall|i: int|
        0 <= i < spec_tokens(spec_folded(rules)).len() implies crate::token::valid_token(
        #[trigger] spec_tokens(spec_folded(rules))[i],
    ) by {
        assert(spec_folded(rules)[i].wf());
    }
}

/// Compile a class list for dynamic evaluation: validate and fold, then
/// either pre-compute the single all-unconditional rendering, or coalesce
/// the survivors into the reusable dynamic template.
pub fn classes_impl(rules: Vec<ClassRule>) -> (r: Result<CompiledClasses, CompileError>)
    ensures
        match r {
            Ok(CompiledClasses::Fixed(s)) => spec_build_ok(rules@) && cond_count(
                spec_folded(rules@),
            ) == 0 && s.wf() && s.spec_class_set() == spec_tokens(spec_folded(rules@))
                && s.spec_rendered() == spec_join(spec_tokens(spec_folded(rules@))),
            Ok(CompiledClasses::Dynamic(t)) => spec_build_ok(rules@) && cond_count(
                spec_folded(rules@),
            ) > 0 && t.wf() && ungroup(t.spec_groups()) == spec_folded(rules@)
                && group_cond_count(t.spec_groups()) == cond_count(spec_folded(rules@)),
            Err(e) => spec_build_err(rules@, e),
        },
{
    let ghost rv = rules@;
    let specs = match build_class_specs(rules) {
        Ok(s) => s,
        Err(e) => {
            return Err(e);
        },
    };
    proof {
        lemma_folded_tokens_valid(rv);
        lemma_folded_distinct(rv);
    }
    let k = count_conditions(&specs);
    if k == 0 {
        Ok(CompiledClasses::Fixed(fixed_set(specs)))
    } else {
        let groups = coalesce(specs);
        proof {
            lemma_ungroup_cond_count(groups@);
        }
        Ok(CompiledClasses::Dynamic(DynamicTemplate::new(groups)))
    }
}

/// Compile a class list for static evaluation: validate and fold, then
/// either pre-compute the single all-unconditional rendering, or enumerate
/// the full combinatorial table over the live conditions.
pub fn static_classes_impl(rules: Vec<ClassRule>) -> (r: Result<CompiledStatic, CompileError>)
    ensures
        match r {
            Ok(CompiledStatic::Fixed(s)) => spec_build_ok(rules@) && cond_count(
                spec_folded(rules@),
            ) == 0 && s.wf() && s.spec_class_set() == spec_tokens(spec_folded(rules@))
                && s.spec_rendered() == spec_join(spec_tokens(spec_folded(rules@))),
            Ok(CompiledStatic::Table(t)) => spec_build_ok(rules@) && cond_count(
                spec_folded(rules@),
            ) > 0 && t.wf() && t.spec_specs() == spec_folded(rules@),
            Err(e) => spec_build_err(rules@, e),
        },
{
    let ghost rv = rules@;
    let specs = match build_class_specs(rules) {
        Ok(s) => s,
        Err(e) => {
            return Err(e);
        },
    };
    proof {
        lemma_folded_tokens_valid(rv);
        lemma_folded_distinct(rv);
    }
    let k = count_conditions(&specs);
    if k == 0 {
        Ok(CompiledStatic::Fixed(fixed_set(specs)))
    } else {
        let table = build_static_table(&specs);
        Ok(CompiledStatic::Table(table))
    }
}

} // verus!
