//! The pre-computed class set artifact: an immutable pair of a token list
//! and its space-joined rendering, fixed once at construction.

use vstd::prelude::*;

use crate::builder::{spec_tokens, ClassSpec};
use crate::classes::StaticClasses;
use crate::render::{join_spaces, spec_join};
use crate::token::{distinct_views, valid_token_views};

verus! {

/// An immutable pre-computed class set: a list of valid, pairwise distinct
/// tokens and the string that joins them with single spaces.
#[derive(Debug, PartialEq, Eq, Hash)]
pub struct StaticClassSet {
    class_set: Vec<String>,
    rendered: String,
}

impl StaticClassSet {
    /// The ordered token views of the set.
    pub closed spec fn spec_class_set(&self) -> Seq<Seq<char>> {
        self.class_set.deep_view()
    }

    /// The view of the pre-rendered string.
    pub closed spec fn spec_rendered(&self) -> Seq<char> {
        self.rendered@
    }

    /// The constructor's guarantee: the rendered string joins the token
    /// list with single spaces, and the tokens are valid and distinct.
    pub open spec fn wf(&self) -> bool {
        self.spec_rendered() == spec_join(self.spec_class_set()) && valid_token_views(
            self.spec_class_set(),
        ) && distinct_views(self.spec_class_set())
    }

    /// Pair a token list with its rendering. The caller must have
    /// established the set's invariants: valid distinct tokens, and a
    /// rendering equivalent to joining them with single spaces.
    pub fn new(class_set: Vec<String>, rendered: String) -> (r: StaticClassSet)
        requires
            rendered@ == spec_join(class_set.deep_view()),
            valid_token_views(class_set.deep_view()),
            distinct_views(class_set.deep_view()),
        ensures
            r.wf(),
            r.spec_class_set() == class_set.deep_view(),
            r.spec_rendered() == rendered@,
    {
        StaticClassSet { class_set, rendered }
    }
}

impl StaticClasses for StaticClassSet {
    open spec fn static_inv(&self) -> bool {
        self.wf()
    }

    open spec fn spec_class_set(&self) -> Seq<Seq<char>> {
        StaticClassSet::spec_class_set(self)
    }

    fn as_str(&self) -> (r: &str) {
        self.rendered.as_str()
    }

    fn class_set(&self) -> (r: &Vec<String>) {
        &self.class_set
    }
}

/// Build the degenerate artifact for an all-unconditional entry list: a
/// single pre-computed set, with none of the combinatorial machinery.
pub fn fixed_set(specs: Vec<ClassSpec>) -> (r: StaticClassSet)
    requires
        valid_token_views(spec_tokens(specs@)),
        distinct_views(spec_tokens(specs@)),
    ensures
        r.wf(),
        r.spec_class_set() == spec_tokens(specs@),
        r.spec_rendered() == spec_join(spec_tokens(specs@)),
{
    let ghost orig = specs@;
    let mut rest = specs;
    let mut names: Vec<String> = Vec::new();
    proof {
        assert(names.deep_view() + spec_tokens(rest@) =~= spec_tokens(orig));
    }
    while rest.len() > 0
        invariant
            names.deep_view() + spec_tokens(rest@) == spec_tokens(orig),
        decreases rest@.len(),
    {
        let ghost before = rest@;
        let s = rest.remove(0);
        assert(before[0] == s);
        names.push(s.token);
        proof {
            assert(rest@ =~= before.drop_first());
            assert(names.deep_view() + spec_tokens(rest@) =~= spec_tokens(orig));
        }
    }
    proof {
        assert(names.deep_view() =~= spec_tokens(orig));
    }
    let rendered = join_spaces(&names);
    StaticClassSet::new(names, rendered)
}

} // verus!
