//! The partition/coalesce transform: the folded entry list becomes an
//! ordered list of groups, each either a maximal run of consecutive
//! unconditional tokens pre-joined into one string, or a single live
//! conditional entry. Merging is purely an optimization: rendering is
//! identical whether or not consecutive unconditional entries are merged.

use vstd::prelude::*;

use crate::builder::{cond_count, lemma_cond_count_concat, lemma_cond_count_unconditional, ClassSpec};
use crate::known::{spec_is_known, CondExpr, Known};
use crate::render::{lemma_join_push, spec_join};
use crate::token::{valid_token, valid_token_views};

verus! {

/// One group of the coalesced form.
#[derive(Debug, PartialEq, Eq, Hash)]
pub enum NamedClassSpec {
    /// A single entry whose guard's runtime outcome is unknown.
    Conditional { token: String, condition: CondExpr },
    /// One or more consecutive unconditional entries, pre-joined with
    /// single spaces.
    Fixed { tokens: Vec<String>, rendered: String },
}

/// The folded entries that a single group stands for.
pub open spec fn group_entries(g: NamedClassSpec) -> Seq<ClassSpec> {
    match g {
        NamedClassSpec::Conditional { token, condition } => seq![
            ClassSpec { token, condition: Some(condition) },
        ],
        NamedClassSpec::Fixed { tokens, rendered } => tokens@.map_values(
            |t: String| ClassSpec { token: t, condition: None },
        ),
    }
}

/// The folded entry list that a group list stands for: coalescing is
/// invisible once the groups are flattened back out.
pub open spec fn ungroup(gs: Seq<NamedClassSpec>) -> Seq<ClassSpec>
    decreases gs.len(),
{
    if gs.len() == 0 {
        Seq::empty()
    } else {
        group_entries(gs[0]) + ungroup(gs.drop_first())
    }
}

/// Well-formedness of a single group: valid tokens; a conditional guard
/// still classifies as `Maybe`; a fixed group is non-empty and carries the
/// join of its own tokens.
pub open spec fn group_wf(g: NamedClassSpec) -> bool {
    match g {
        NamedClassSpec::Conditional { token, condition } => valid_token(token@) && spec_is_known(
            condition,
        ) == Known::Maybe,
        NamedClassSpec::Fixed { tokens, rendered } => tokens@.len() > 0 && rendered@ == spec_join(
            tokens.deep_view(),
        ) && valid_token_views(tokens.deep_view()),
    }
}

/// Well-formedness of a group list: every group well-formed, and no two
/// adjacent fixed groups (the coalescing is maximal).
pub open spec fn groups_wf(gs: Seq<NamedClassSpec>) -> bool {
    (forall|i: int| 0 <= i < gs.len() ==> group_wf(#[trigger] gs[i])) && (forall|i: int|
        0 <= i < gs.len() - 1 ==> !((#[trigger] gs[i]) is Fixed && gs[i + 1] is Fixed))
}

/// The number of conditional groups, in order: one boolean of the record
/// belongs to each.
pub open spec fn group_cond_count(gs: Seq<NamedClassSpec>) -> nat
    decreases gs.len(),
{
    if gs.len() == 0 {
        0
    } else {
        (if gs[0] is Conditional {
            1nat
        } else {
            0nat
        }) + group_cond_count(gs.drop_first())
    }
}

/// The live tokens of a group list under a boolean record: a fixed group
/// always contributes all its tokens; a conditional group consumes the next
/// boolean and contributes its token only when that boolean is true.
pub open spec fn group_live(gs: Seq<NamedClassSpec>, flags: Seq<bool>) -> Seq<Seq<char>>
    decreases gs.len(),
{
    if gs.len() == 0 {
        Seq::empty()
    } else {
        match gs[0] {
            NamedClassSpec::Conditional { token, .. } => {
                let rest = group_live(gs.drop_first(), flags.drop_first());
                if flags.len() > 0 && flags[0] {
                    seq![token@] + rest
                } else {
                    rest
                }
            },
            NamedClassSpec::Fixed { tokens, .. } => tokens.deep_view() + group_live(
                gs.drop_first(),
                flags,
            ),
        }
    }
}

/// The number of groups that emit a fragment under a boolean record: every
/// fixed group does, a conditional group only when its boolean is true.
pub open spec fn emit_count(gs: Seq<NamedClassSpec>, flags: Seq<bool>) -> nat
    decreases gs.len(),
{
    if gs.len() == 0 {
        0
    } else {
        match gs[0] {
            NamedClassSpec::Conditional { .. } => (if flags.len() > 0 && flags[0] {
                1nat
            } else {
                0nat
            }) + emit_count(gs.drop_first(), flags.drop_first()),
            NamedClassSpec::Fixed { .. } => 1 + emit_count(gs.drop_first(), flags),
        }
    }
}

/// A conditional group flattens to one conditional entry, a fixed group to
/// unconditional entries only, so the boolean records of the grouped and
/// the flattened forms have the same size.
pub proof fn lemma_ungroup_cond_count(gs: Seq<NamedClassSpec>)
    ensures
        group_cond_count(gs) == cond_count(ungroup(gs)),
    decreases gs.len(),
{
    if gs.len() == 0 {
        assert(cond_count(ungroup(gs)) == 0);
    } else {
        lemma_ungroup_cond_count(gs.drop_first());
        lemma_cond_count_concat(group_entries(gs[0]), ungroup(gs.drop_first()));
        match gs[0] {
            NamedClassSpec::Conditional { .. } => {
                assert(group_entries(gs[0])[0].condition is Some);
                assert(group_entries(gs[0]).drop_first() =~= Seq::<ClassSpec>::empty());
                assert(cond_count(Seq::<ClassSpec>::empty()) == 0);
                assert(cond_count(group_entries(gs[0])) == 1);
            },
            NamedClassSpec::Fixed { .. } => {
                assert(forall|i: int|
                    0 <= i < group_entries(gs[0]).len() ==> (#[trigger] group_entries(
                        gs[0],
                    )[i]).condition is None);
                lemma_cond_count_unconditional(group_entries(gs[0]));
            },
        }
    }
}

fn is_fixed(g: &NamedClassSpec) -> (r: bool)
    ensures
        r == (*g is Fixed),
{
    match g {
        NamedClassSpec::Fixed { .. } => true,
        NamedClassSpec::Conditional { .. } => false,
    }
}

/// Appending a group on the right flattens to appending its entries.
pub proof fn lemma_ungroup_push(gs: Seq<NamedClassSpec>, g: NamedClassSpec)
    ensures
        ungroup(gs.push(g)) == ungroup(gs) + group_entries(g),
    decreases gs.len(),
{
    if gs.len() == 0 {
        assert(gs.push(g)[0] == g);
        assert(gs.push(g).drop_first() =~= Seq::<NamedClassSpec>::empty());
        assert(ungroup(Seq::<NamedClassSpec>::empty()) == Seq::<ClassSpec>::empty());
        assert(ungroup(gs.push(g)) =~= group_entries(g));
        assert(ungroup(gs) + group_entries(g) =~= group_entries(g));
    } else {
        lemma_ungroup_push(gs.drop_first(), g);
        assert(gs.push(g)[0] == gs[0]);
        assert(gs.push(g).drop_first() =~= gs.drop_first().push(g));
        assert(ungroup(gs) + group_entries(g) =~= group_entries(gs[0]) + (ungroup(gs.drop_first())
            + group_entries(g)));
    }
}

/// Coalesce the folded entry list into groups: each unconditional entry is
/// merged into a preceding fixed group when one is adjacent, otherwise it
/// opens a new fixed group; each conditional entry becomes its own group.
pub fn coalesce(specs: Vec<ClassSpec>) -> (r: Vec<NamedClassSpec>)
    requires
        forall|i: int| 0 <= i < specs@.len() ==> (#[trigger] specs@[i]).wf(),
    ensures
        ungroup(r@) == specs@,
        groups_wf(r@),
{
    let ghost orig = specs@;
    let mut rest = specs;
    let mut groups: Vec<NamedClassSpec> = Vec::new();
    proof {
        assert(ungroup(groups@) + rest@ =~= orig);
    }
    while rest.len() > 0
        invariant
            ungroup(groups@) + rest@ == orig,
            groups_wf(groups@),
            forall|i: int| 0 <= i < rest@.len() ==> (#[trigger] rest@[i]).wf(),
        decreases rest@.len(),
    {
        let ghost before = rest@;
        let ghost groups_before = groups@;
        let s = rest.remove(0);
        assert(before[0] == s);
        assert(rest@ =~= before.drop_first());
        match s.condition {
            Some(c) => {
                let g = NamedClassSpec::Conditional { token: s.token, condition: c };
                proof {
                    lemma_ungroup_push(groups@, g);
                    assert(group_entries(g) =~= seq![before[0]]);
                }
                groups.push(g);
            },
            None => {
                let merge = groups.len() > 0 && is_fixed(&groups[groups.len() - 1]);
                if merge {
                    let last = groups.pop().unwrap();
                    let ghost last_g = last;
                    let ghost prefix = groups@;
                    match last {
                        NamedClassSpec::Fixed { mut tokens, mut rendered } => {
                            let ghost old_deep = tokens.deep_view();
                            proof {
                                reveal_strlit(" ");
                                assert(" "@ =~= seq![' ']);
                                assert(prefix.push(last_g) =~= groups_before);
                                lemma_join_push(old_deep, s.token@);
                                lemma_ungroup_push(prefix, last_g);
                            }
                            rendered.append(" ");
                            rendered.append(s.token.as_str());
                            tokens.push(s.token);
                            let g = NamedClassSpec::Fixed { tokens, rendered };
                            proof {
                                lemma_ungroup_push(prefix, g);
                                assert(group_entries(g) =~= group_entries(last_g).push(
                                    before[0]));
                                assert(g->Fixed_tokens.deep_view() =~= old_deep.push(
                                    before[0].token@));
                            }
                            groups.push(g);
                        },
                        NamedClassSpec::Conditional { token, condition } => {
                            // unreachable: the merge test saw a fixed group
                            proof {
                                assert(false);
                            }
                            groups.push(NamedClassSpec::Conditional { token, condition });
                        },
                    }
                } else {
                    let rendered = s.token.as_str().to_owned();
                    let mut tokens: Vec<String> = Vec::new();
                    tokens.push(s.token);
                    let g = NamedClassSpec::Fixed { tokens, rendered };
                    proof {
                        assert(tokens.deep_view() =~= seq![before[0].token@]);
                        lemma_ungroup_push(groups@, g);
                        assert(group_entries(g) =~= seq![before[0]]);
                    }
                    groups.push(g);
                }
            },
        }
        proof {
            assert(ungroup(groups@) + rest@ =~= orig);
        }
    }
    proof {
        assert(ungroup(groups@) =~= ungroup(groups@) + rest@);
    }
    groups
}

} // verus!
