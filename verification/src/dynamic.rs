//! The dynamic artifact: the coalesced groups of one compiled class list,
//! and the evaluated class set that pairs those groups with a fixed-size
//! boolean record, one boolean per live conditional group.

use vstd::prelude::*;

use crate::classes::Classes;
use crate::coalesce::{emit_count, group_cond_count, group_live, groups_wf, NamedClassSpec};
use crate::render::{join_spaces, spec_join};

verus! {

/// The compiled groups of a class list with at least one live condition.
/// Reusable: each evaluation pairs it with a fresh boolean record.
#[derive(Debug, PartialEq, Eq, Hash)]
pub struct DynamicTemplate {
    groups: Vec<NamedClassSpec>,
}

impl DynamicTemplate {
    /// The ordered groups of the compiled class list.
    pub closed spec fn spec_groups(&self) -> Seq<NamedClassSpec> {
        self.groups@
    }

    /// The compiler's guarantee on the groups.
    pub open spec fn wf(&self) -> bool {
        groups_wf(self.spec_groups())
    }

    pub(crate) fn new(groups: Vec<NamedClassSpec>) -> (r: DynamicTemplate)
        ensures
            r.spec_groups() == groups@,
    {
        DynamicTemplate { groups }
    }

    /// The number of live conditions: the size of the boolean record that
    /// each evaluation must supply, one boolean per conditional group, in
    /// declaration order.
    pub fn condition_count(&self) -> (r: usize)
        ensures
            r == group_cond_count(self.spec_groups()),
    {
        let ghost gs = self.groups@;
        let n = self.groups.len();
        let mut c: usize = 0;
        let mut i: usize = 0;
        proof {
            assert(gs.skip(0) =~= gs);
        }
        while i < n
            invariant
                i <= n,
                c <= i,
                c + group_cond_count(gs.skip(i as int)) == group_cond_count(gs),
            decreases n - i,
        {
            proof {
                assert(gs.skip(i as int)[0] == gs[i as int]);
                assert(gs.skip(i as int).drop_first() =~= gs.skip(i + 1));
            }
            match &self.groups[i] {
                NamedClassSpec::Conditional { .. } => {
                    c += 1;
                },
                NamedClassSpec::Fixed { .. } => {},
            }
            i += 1;
        }
        proof {
            assert(gs.skip(n as int) =~= Seq::<NamedClassSpec>::empty());
        }
        c
    }

    /// Evaluate the class list: fix the boolean record, producing an
    /// immutable set that renders the live tokens on demand.
    pub fn instantiate<'a>(&'a self, flags: Vec<bool>) -> (r: DynamicClassSet<'a>)
        requires
            self.wf(),
            flags@.len() == group_cond_count(self.spec_groups()),
        ensures
            r.wf(),
            r.spec_groups() == self.spec_groups(),
            r.spec_flags() == flags@,
    {
        DynamicClassSet { groups: &self.groups, flags }
    }
}

/// An evaluated dynamic class set: the compiled groups plus a boolean
/// record of exactly one boolean per live conditional group, set once at
/// construction and read thereafter.
#[derive(Debug, PartialEq, Eq, Hash)]
pub struct DynamicClassSet<'a> {
    groups: &'a Vec<NamedClassSpec>,
    flags: Vec<bool>,
}

impl<'a> DynamicClassSet<'a> {
    /// The ordered groups of the compiled class list.
    pub closed spec fn spec_groups(&self) -> Seq<NamedClassSpec> {
        self.groups@
    }

    /// The boolean record, one boolean per conditional group, in order.
    pub closed spec fn spec_flags(&self) -> Seq<bool> {
        self.flags@
    }

    /// Well-formed groups, and a record of exactly the right size.
    pub open spec fn wf(&self) -> bool {
        groups_wf(self.spec_groups()) && self.spec_flags().len() == group_cond_count(
            self.spec_groups(),
        )
    }

    /// The live tokens under this record, in declaration order.
    pub open spec fn spec_live(&self) -> Seq<Seq<char>> {
        group_live(self.spec_groups(), self.spec_flags())
    }

    /// Collect the live tokens, in declaration order.
    fn live_vec(&self) -> (r: Vec<String>)
        requires
            self.wf(),
        ensures
            r.deep_view() == self.spec_live(),
    {
        let ghost gs = self.groups@;
        let ghost fl = self.flags@;
        let n = self.groups.len();
        let flen = self.flags.len();
        let mut r: Vec<String> = Vec::new();
        let mut i: usize = 0;
        let mut fi: usize = 0;
        proof {
            assert(gs.skip(0) =~= gs);
            assert(fl.skip(0) =~= fl);
            assert(r.deep_view() + group_live(gs, fl) =~= group_live(gs, fl));
        }
        while i < n
            invariant
                i <= n,
                fi <= flen,
                flen == fl.len(),
                group_cond_count(gs.skip(i as int)) == fl.len() - fi,
                r.deep_view() + group_live(gs.skip(i as int), fl.skip(fi as int)) == group_live(
                    gs,
                    fl,
                ),
            decreases n - i,
        {
            proof {
                assert(gs.skip(i as int)[0] == gs[i as int]);
                assert(gs.skip(i as int).drop_first() =~= gs.skip(i + 1));
            }
            match &self.groups[i] {
                NamedClassSpec::Fixed { tokens, .. } => {
                    let ghost mid = r.deep_view();
                    let m = tokens.len();
                    let mut k: usize = 0;
                    while k < m
                        invariant
                            k <= m,
                            r.deep_view() == mid + tokens.deep_view().take(k as int),
                        decreases m - k,
                    {
                        let ghost pre = r.deep_view();
                        r.push(tokens[k].clone());
                        proof {
                            assert(r.deep_view() =~= pre.push(tokens.deep_view()[k as int]));
                            assert(tokens.deep_view().take(k + 1) =~= tokens.deep_view().take(
                                k as int).push(tokens.deep_view()[k as int]));
                            assert(r.deep_view() =~= mid + tokens.deep_view().take(k + 1));
                        }
                        k += 1;
                    }
                    proof {
                        assert(tokens.deep_view().take(m as int) =~= tokens.deep_view());
                        assert(r.deep_view() + group_live(gs.skip(i + 1), fl.skip(fi as int)) =~= group_live(
                            gs,
                            fl,
                        ));
                    }
                },
                NamedClassSpec::Conditional { token, .. } => {
                    proof {
                        assert(gs.skip(i as int)[0] is Conditional);
                        assert(group_cond_count(gs.skip(i as int)) == 1 + group_cond_count(
                            gs.skip(i + 1)));
                        assert(fl.skip(fi as int)[0] == fl[fi as int]);
                        assert(fl.skip(fi as int).drop_first() =~= fl.skip(fi + 1));
                    }
                    if self.flags[fi] {
                        let ghost rbefore = r.deep_view();
                        r.push(token.clone());
                        proof {
                            assert(r.deep_view() =~= rbefore.push(token@));
                        }
                    }
                    fi += 1;
                    proof {
                        assert(r.deep_view() + group_live(gs.skip(i + 1), fl.skip(fi as int)) =~= group_live(
                            gs,
                            fl,
                        ));
                    }
                },
            }
            i += 1;
        }
        proof {
            assert(gs.skip(n as int) =~= Seq::<NamedClassSpec>::empty());
            assert(r.deep_view() =~= group_live(gs, fl));
        }
        r
    }
}

impl<'a> Classes for DynamicClassSet<'a> {
    open spec fn inv(&self) -> bool {
        self.wf()
    }

    open spec fn live_seq(&self) -> Seq<Seq<char>> {
        self.spec_live()
    }

    open spec fn fast_path(&self) -> bool {
        emit_count(self.spec_groups(), self.spec_flags()) <= 1
    }

    fn render(&self) -> (r: String) {
        let live = self.live_vec();
        join_spaces(&live)
    }

    #[verifier::rlimit(50)]
    fn try_as_str(&self) -> (r: Option<&str>) {
        let ghost gs = self.groups@;
        let ghost fl = self.flags@;
        let n = self.groups.len();
        let flen = self.flags.len();
        let mut acc: &str = "";
        let mut emitted = false;
        let ghost mut lp: Seq<Seq<char>> = Seq::empty();
        let mut i: usize = 0;
        let mut fi: usize = 0;
        proof {
            reveal_strlit("");
            assert(acc@ =~= Seq::<char>::empty());
            assert(gs.skip(0) =~= gs);
            assert(fl.skip(0) =~= fl);
            assert(lp + group_live(gs, fl) =~= group_live(gs, fl));
        }
        while i < n
            invariant
                i <= n,
                fi <= flen,
                flen == fl.len(),
                group_cond_count(gs.skip(i as int)) == fl.len() - fi,
                lp + group_live(gs.skip(i as int), fl.skip(fi as int)) == group_live(gs, fl),
                emit_count(gs, fl) == (if emitted {
                    1nat
                } else {
                    0nat
                }) + emit_count(gs.skip(i as int), fl.skip(fi as int)),
                emitted ==> acc@ == spec_join(lp),
                !emitted ==> lp == Seq::<Seq<char>>::empty() && acc@ == Seq::<char>::empty(),
            decreases n - i,
        {
            proof {
                assert(gs.skip(i as int)[0] == gs[i as int]);
                assert(gs.skip(i as int).drop_first() =~= gs.skip(i + 1));
            }
            match &self.groups[i] {
                NamedClassSpec::Fixed { tokens, rendered } => {
                    if emitted {
                        return None;
                    }
                    acc = rendered.as_str();
                    emitted = true;
                    proof {
                        lp = lp + tokens.deep_view();
                        assert(lp =~= tokens.deep_view());
                        assert(lp + group_live(gs.skip(i + 1), fl.skip(fi as int)) =~= group_live(
                            gs,
                            fl,
                        ));
                    }
                },
                NamedClassSpec::Conditional { token, .. } => {
                    proof {
                        assert(gs.skip(i as int)[0] is Conditional);
                        assert(group_cond_count(gs.skip(i as int)) == 1 + group_cond_count(
                            gs.skip(i + 1)));
                        assert(fl.skip(fi as int)[0] == fl[fi as int]);
                        assert(fl.skip(fi as int).drop_first() =~= fl.skip(fi + 1));
                    }
                    if self.flags[fi] {
                        if emitted {
                            return None;
                        }
                        acc = token.as_str();
                        emitted = true;
                        proof {
                            lp = lp + seq![token@];
                            assert(lp =~= seq![token@]);
                            assert(spec_join(lp) == token@);
                        }
                    }
                    fi += 1;
                    proof {
                        assert(lp + group_live(gs.skip(i + 1), fl.skip(fi as int)) =~= group_live(
                            gs,
                            fl,
                        ));
                    }
                },
            }
            i += 1;
        }
        proof {
            assert(gs.skip(n as int) =~= Seq::<NamedClassSpec>::empty());
            assert(lp =~= group_live(gs, fl));
        }
        Some(acc)
    }

    fn iter(&self) -> (r: Vec<String>) {
        self.live_vec()
    }

    fn len(&self) -> (r: usize) {
        let live = self.live_vec();
        live.len()
    }
}

} // verus!
