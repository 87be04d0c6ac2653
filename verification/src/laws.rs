//! The pipeline's global laws, stated and proved once over the spec-level
//! model that every artifact's contract is written in.

use vstd::prelude::*;

use crate::builder::{
    cond_count, lemma_live_subsequence, live_tokens, spec_folded, spec_rule_state, spec_tokens,
    ClassRule, ClassSpec,
};
use crate::coalesce::{group_live, ungroup, NamedClassSpec};
use crate::dynamic::DynamicTemplate;
use crate::known::{spec_is_known, Known};
use crate::render::{is_subsequence, spec_join};
use crate::table::StaticTable;

verus! {

/// The live tokens of a raw rule list under one boolean outcome per
/// condition-bearing rule, before any folding.
pub open spec fn rules_live(rules: Seq<ClassRule>, flags: Seq<bool>) -> Seq<Seq<char>>
    decreases rules.len(),
{
    if rules.len() == 0 {
        Seq::empty()
    } else if rules[0].condition is Some {
        let rest = rules_live(rules.drop_first(), flags.drop_first());
        if flags.len() > 0 && flags[0] {
            seq![rules[0].token@] + rest
        } else {
            rest
        }
    } else {
        seq![rules[0].token@] + rules_live(rules.drop_first(), flags)
    }
}

/// A runtime outcome per condition-bearing rule that does not contradict
/// the analyzer: a condition statically `True` evaluates true, one
/// statically `False` or `Never` never selects its branch, and a `Maybe`
/// may go either way. Soundness of the analyzer means every actual run
/// satisfies this.
pub open spec fn consistent_outcomes(rules: Seq<ClassRule>, flags: Seq<bool>) -> bool
    decreases rules.len(),
{
    if rules.len() == 0 {
        flags.len() == 0
    } else if rules[0].condition is Some {
        flags.len() > 0 && (match spec_rule_state(rules[0]) {
            Known::True => flags[0],
            Known::False => !flags[0],
            Known::Never => !flags[0],
            Known::Maybe => true,
        }) && consistent_outcomes(rules.drop_first(), flags.drop_first())
    } else {
        consistent_outcomes(rules.drop_first(), flags)
    }
}

/// The outcomes of the conditions that survive folding: those the analyzer
/// classified `Maybe`.
pub open spec fn surviving_outcomes(rules: Seq<ClassRule>, flags: Seq<bool>) -> Seq<bool>
    decreases rules.len(),
{
    if rules.len() == 0 {
        Seq::empty()
    } else if rules[0].condition is Some {
        let rest = surviving_outcomes(rules.drop_first(), flags.drop_first());
        if spec_rule_state(rules[0]) == Known::Maybe {
            seq![flags.len() > 0 && flags[0]] + rest
        } else {
            rest
        }
    } else {
        surviving_outcomes(rules.drop_first(), flags)
    }
}

/// Fold soundness: under any runtime outcomes consistent with the
/// analyzer, the folded entry list renders exactly the tokens the raw rule
/// list would — a condition statically known `True` or `False` renders
/// identically to manually removing or fixing that entry.
pub proof fn lemma_fold_soundness(rules: Seq<ClassRule>, flags: Seq<bool>)
    requires
        consistent_outcomes(rules, flags),
    ensures
        live_tokens(spec_folded(rules), surviving_outcomes(rules, flags)) == rules_live(
            rules,
            flags,
        ),
    decreases rules.len(),
{
    if rules.len() == 0 {
        assert(live_tokens(spec_folded(rules), surviving_outcomes(rules, flags)) =~= rules_live(
            rules,
            flags,
        ));
    } else {
        let folded = spec_folded(rules);
        let sv = surviving_outcomes(rules, flags);
        let st = spec_rule_state(rules[0]);
        if rules[0].condition is Some {
            lemma_fold_soundness(rules.drop_first(), flags.drop_first());
            let rest_sv = surviving_outcomes(rules.drop_first(), flags.drop_first());
            if st == Known::False || st == Known::Never {
                assert(!flags[0]);
                assert(live_tokens(folded, sv) =~= rules_live(rules, flags));
            } else if st == Known::True {
                assert(flags[0]);
                assert(folded[0] == crate::builder::spec_fold_entry(rules[0]));
                assert(folded[0].condition is None);
                assert(folded.drop_first() =~= spec_folded(rules.drop_first()));
                assert(live_tokens(folded, sv) =~= rules_live(rules, flags));
            } else {
                assert(folded[0] == crate::builder::spec_fold_entry(rules[0]));
                assert(folded[0].condition is Some);
                assert(folded.drop_first() =~= spec_folded(rules.drop_first()));
                assert(sv == seq![flags.len() > 0 && flags[0]] + rest_sv);
                assert(sv[0] == flags[0]);
                assert(sv.drop_first() =~= rest_sv);
                assert(live_tokens(folded, sv) =~= rules_live(rules, flags));
            }
        } else {
            lemma_fold_soundness(rules.drop_first(), flags);
            assert(folded[0] == crate::builder::spec_fold_entry(rules[0]));
            assert(folded[0].condition is None);
            assert(folded.drop_first() =~= spec_folded(rules.drop_first()));
            assert(live_tokens(folded, sv) =~= rules_live(rules, flags));
        }
    }
}

proof fn lemma_live_unconditional_prefix(
    tokens: Seq<String>,
    rest: Seq<ClassSpec>,
    flags: Seq<bool>,
)
    ensures
        live_tokens(
            tokens.map_values(|t: String| ClassSpec { token: t, condition: None }) + rest,
            flags,
        ) == tokens.map_values(|t: String| t@) + live_tokens(rest, flags),
    decreases tokens.len(),
{
    let entries = tokens.map_values(|t: String| ClassSpec { token: t, condition: None });
    if tokens.len() == 0 {
        assert(entries + rest =~= rest);
        assert(tokens.map_values(|t: String| t@) + live_tokens(rest, flags) =~= live_tokens(
            rest,
            flags,
        ));
    } else {
        lemma_live_unconditional_prefix(tokens.drop_first(), rest, flags);
        let entries_rest = tokens.drop_first().map_values(
            |t: String| ClassSpec { token: t, condition: None },
        );
        assert((entries + rest)[0] == entries[0]);
        assert(entries[0].condition is None);
        assert((entries + rest).drop_first() =~= entries_rest + rest);
        assert(tokens.drop_first().map_values(|t: String| t@) =~= tokens.map_values(
            |t: String| t@,
        ).drop_first());
        assert(live_tokens(entries + rest, flags) =~= tokens.map_values(|t: String| t@)
            + live_tokens(rest, flags));
    }
}

/// Coalescing transparency, one direction: a group list renders exactly
/// what its flattened entry list renders, under every boolean record.
pub proof fn lemma_group_live_ungroup(gs: Seq<NamedClassSpec>, flags: Seq<bool>)
    ensures
        group_live(gs, flags) == live_tokens(ungroup(gs), flags),
    decreases gs.len(),
{
    if gs.len() == 0 {
        assert(group_live(gs, flags) =~= live_tokens(ungroup(gs), flags));
    } else {
        match gs[0] {
            NamedClassSpec::Conditional { token, condition } => {
                lemma_group_live_ungroup(gs.drop_first(), flags.drop_first());
                let entry = ClassSpec { token, condition: Some(condition) };
                assert(ungroup(gs)[0] == entry);
                assert(ungroup(gs).drop_first() =~= ungroup(gs.drop_first()));
                assert(group_live(gs, flags) =~= live_tokens(ungroup(gs), flags));
            },
            NamedClassSpec::Fixed { tokens, .. } => {
                lemma_group_live_ungroup(gs.drop_first(), flags);
                lemma_live_unconditional_prefix(tokens@, ungroup(gs.drop_first()), flags);
                assert(ungroup(gs) == tokens@.map_values(
                    |t: String| ClassSpec { token: t, condition: None },
                ) + ungroup(gs.drop_first()));
                assert(tokens.deep_view() =~= tokens@.map_values(|t: String| t@));
                assert(group_live(gs, flags) =~= live_tokens(ungroup(gs), flags));
            },
        }
    }
}

/// Coalescing transparency: two group lists that flatten to the same entry
/// list render identically under every boolean record — whether and how
/// consecutive unconditional entries were merged is observably invisible.
pub proof fn lemma_coalesce_transparent(
    g1: Seq<NamedClassSpec>,
    g2: Seq<NamedClassSpec>,
    flags: Seq<bool>,
)
    requires
        ungroup(g1) == ungroup(g2),
    ensures
        group_live(g1, flags) == group_live(g2, flags),
        spec_join(group_live(g1, flags)) == spec_join(group_live(g2, flags)),
{
    lemma_group_live_ungroup(g1, flags);
    lemma_group_live_ungroup(g2, flags);
}

/// Order preservation for the evaluated artifact: under every boolean
/// record, the live tokens of a group list are a subsequence of its
/// declared token list — they appear in exactly the declared relative
/// order.
pub proof fn lemma_order_preservation(gs: Seq<NamedClassSpec>, flags: Seq<bool>)
    ensures
        is_subsequence(group_live(gs, flags), spec_tokens(ungroup(gs))),
{
    lemma_group_live_ungroup(gs, flags);
    lemma_live_subsequence(ungroup(gs), flags);
}

/// Static/dynamic equivalence: built from the same folded entries and
/// evaluated under the same live-condition outcomes, the dynamic template
/// and the static table yield the same live tokens and the same rendering.
pub proof fn lemma_static_dynamic_equivalence(
    t: DynamicTemplate,
    tbl: StaticTable,
    flags: Seq<bool>,
)
    requires
        ungroup(t.spec_groups()) == tbl.spec_specs(),
    ensures
        group_live(t.spec_groups(), flags) == live_tokens(tbl.spec_specs(), flags),
        spec_join(group_live(t.spec_groups(), flags)) == spec_join(
            live_tokens(tbl.spec_specs(), flags),
        ),
{
    lemma_group_live_ungroup(t.spec_groups(), flags);
}

} // verus!
