//! The spec builder: validate every token, reject duplicates, then fold
//! statically known conditions, dropping dead entries and stripping
//! conditions proven always true.

use vstd::prelude::*;

use crate::known::{is_known, spec_is_known, CondExpr, Known};
use crate::render::{is_subsequence, lemma_subsequence_distinct, lemma_subsequence_weaken_head};
use crate::token::{
    check_token, distinct_views, token_error, valid_token, valid_token_views, ValidationError,
};

verus! {

/// One entry of the input list: a candidate token and its optional guard.
#[derive(Debug, PartialEq, Eq)]
pub struct ClassRule {
    pub token: String,
    pub condition: Option<CondExpr>,
}

/// What is statically known about a rule's guard; an absent guard counts as
/// always true.
pub open spec fn spec_rule_state(r: ClassRule) -> Known {
    match r.condition {
        None => Known::True,
        Some(c) => spec_is_known(c),
    }
}

impl ClassRule {
    /// Classify this rule's guard.
    pub fn state(&self) -> (r: Known)
        ensures
            r == spec_rule_state(*self),
    {
        match &self.condition {
            None => Known::True,
            Some(c) => is_known(c),
        }
    }
}

/// One surviving entry after folding: the token, and its guard only when
/// the guard's runtime outcome is still unknown.
#[derive(Debug, PartialEq, Eq)]
pub struct ClassSpec {
    pub token: String,
    pub condition: Option<CondExpr>,
}

impl ClassSpec {
    /// The builder's guarantee on each surviving entry: a valid token, and
    /// a guard retained only when it classified as `Maybe`.
    pub open spec fn wf(self) -> bool {
        valid_token(self.token@) && match self.condition {
            None => true,
            Some(c) => spec_is_known(c) == Known::Maybe,
        }
    }
}

/// A construction-time diagnostic. Evaluation functions never fail.
#[derive(Debug, Clone, Copy, PartialEq, Eq, Structural)]
pub enum CompileError {
    /// The token at `index` failed validation.
    InvalidToken { index: usize, error: ValidationError },
    /// The token at `second` repeats the token at `first`. Duplicates are
    /// checked before folding, so this fires even when an occurrence is
    /// provably dead.
    DuplicateToken { first: usize, second: usize },
}

/// The folded form of one surviving rule: a guard statically `True` is
/// stripped, any other surviving guard is kept unevaluated.
pub open spec fn spec_fold_entry(r: ClassRule) -> ClassSpec {
    ClassSpec {
        token: r.token,
        condition: if spec_rule_state(r) == Known::True {
            None
        } else {
            r.condition
        },
    }
}

/// Constant fold and filter: drop entries whose guard is statically
/// `False` or `Never`, strip guards statically `True`, keep the rest in
/// their original relative order.
pub open spec fn spec_folded(rules: Seq<ClassRule>) -> Seq<ClassSpec>
    decreases rules.len(),
{
    if rules.len() == 0 {
        Seq::empty()
    } else {
        let rest = spec_folded(rules.drop_first());
        let st = spec_rule_state(rules[0]);
        if st == Known::False || st == Known::Never {
            rest
        } else {
            seq![spec_fold_entry(rules[0])] + rest
        }
    }
}

/// The number of live conditions among the folded entries: each consumes
/// one boolean of an assignment, in declaration order.
pub open spec fn cond_count(specs: Seq<ClassSpec>) -> nat
    decreases specs.len(),
{
    if specs.len() == 0 {
        0
    } else {
        (if specs[0].condition is Some {
            1nat
        } else {
            0nat
        }) + cond_count(specs.drop_first())
    }
}

/// The live tokens of a folded entry list under a boolean assignment: an
/// unconditional entry always contributes its token; a conditional entry
/// consumes the next boolean and contributes its token only when that
/// boolean is true. Order is declaration order.
pub open spec fn live_tokens(specs: Seq<ClassSpec>, flags: Seq<bool>) -> Seq<Seq<char>>
    decreases specs.len(),
{
    if specs.len() == 0 {
        Seq::empty()
    } else if specs[0].condition is Some {
        let rest = live_tokens(specs.drop_first(), flags.drop_first());
        if flags.len() > 0 && flags[0] {
            seq![specs[0].token@] + rest
        } else {
            rest
        }
    } else {
        seq![specs[0].token@] + live_tokens(specs.drop_first(), flags)
    }
}

/// The ordered token views of a folded entry list.
pub open spec fn spec_tokens(specs: Seq<ClassSpec>) -> Seq<Seq<char>> {
    specs.map_values(|s: ClassSpec| s.token@)
}

/// Order preservation: under every boolean assignment, the live tokens are
/// a subsequence of the declared token list — they appear in exactly the
/// declared relative order.
pub proof fn lemma_live_subsequence(specs: Seq<ClassSpec>, flags: Seq<bool>)
    ensures
        is_subsequence(live_tokens(specs, flags), spec_tokens(specs)),
    decreases specs.len(),
{
    if specs.len() == 0 {
    } else {
        assert(spec_tokens(specs)[0] == specs[0].token@);
        assert(spec_tokens(specs).drop_first() =~= spec_tokens(specs.drop_first()));
        if specs[0].condition is Some {
            lemma_live_subsequence(specs.drop_first(), flags.drop_first());
            if flags.len() > 0 && flags[0] {
                assert(live_tokens(specs, flags)[0] == specs[0].token@);
                assert(live_tokens(specs, flags).drop_first() =~= live_tokens(
                    specs.drop_first(),
                    flags.drop_first(),
                ));
            } else {
                lemma_subsequence_weaken_head(
                    live_tokens(specs.drop_first(), flags.drop_first()),
                    spec_tokens(specs),
                );
            }
        } else {
            lemma_live_subsequence(specs.drop_first(), flags);
            assert(live_tokens(specs, flags)[0] == specs[0].token@);
            assert(live_tokens(specs, flags).drop_first() =~= live_tokens(
                specs.drop_first(),
                flags,
            ));
        }
    }
}

/// Every live token is a valid class token when every folded entry is
/// well-formed.
pub proof fn lemma_live_valid(specs: Seq<ClassSpec>, flags: Seq<bool>)
    requires
        forall|i: int| 0 <= i < specs.len() ==> (#[trigger] specs[i]).wf(),
    ensures
        valid_token_views(live_tokens(specs, flags)),
    decreases specs.len(),
{
    if specs.len() == 0 {
    } else {
        assert(specs[0].wf());
        if specs[0].condition is Some {
            lemma_live_valid(specs.drop_first(), flags.drop_first());
        } else {
            lemma_live_valid(specs.drop_first(), flags);
        }
    }
}

/// Appending an entry on the right adds one consumed boolean when it is
/// conditional.
pub proof fn lemma_cond_count_push(specs: Seq<ClassSpec>, s: ClassSpec)
    ensures
        cond_count(specs.push(s)) == cond_count(specs) + (if s.condition is Some {
            1nat
        } else {
            0nat
        }),
    decreases specs.len(),
{
    if specs.len() == 0 {
        assert(specs.push(s)[0] == s);
        assert(specs.push(s).drop_first() =~= Seq::<ClassSpec>::empty());
        assert(cond_count(Seq::<ClassSpec>::empty()) == 0);
    } else {
        lemma_cond_count_push(specs.drop_first(), s);
        assert(specs.push(s)[0] == specs[0]);
        assert(specs.push(s).drop_first() =~= specs.drop_first().push(s));
    }
}

/// Appending an entry on the right, with the matching boolean appended to
/// an exact-length assignment, appends its token to the live list exactly
/// when the entry is unconditional or its boolean is true.
pub proof fn lemma_live_push(specs: Seq<ClassSpec>, flags: Seq<bool>, s: ClassSpec)
    requires
        cond_count(specs) == flags.len(),
    ensures
        s.condition is None ==> live_tokens(specs.push(s), flags) == live_tokens(
            specs,
            flags,
        ).push(s.token@),
        s.condition is Some ==> live_tokens(specs.push(s), flags.push(true)) == live_tokens(
            specs,
            flags,
        ).push(s.token@),
        s.condition is Some ==> live_tokens(specs.push(s), flags.push(false)) == live_tokens(
            specs,
            flags,
        ),
    decreases specs.len(),
{
    if specs.len() == 0 {
        assert(flags.len() == 0);
        assert(specs.push(s)[0] == s);
        assert(specs.push(s).drop_first() =~= Seq::<ClassSpec>::empty());
        assert(live_tokens(Seq::<ClassSpec>::empty(), flags) == Seq::<Seq<char>>::empty());
        if s.condition is None {
            assert(live_tokens(specs.push(s), flags) =~= live_tokens(specs, flags).push(s.token@));
        } else {
            assert(flags.push(true)[0] == true);
            assert(flags.push(false)[0] == false);
            assert(live_tokens(Seq::<ClassSpec>::empty(), flags.push(true).drop_first())
                == Seq::<Seq<char>>::empty());
            assert(live_tokens(Seq::<ClassSpec>::empty(), flags.push(false).drop_first())
                == Seq::<Seq<char>>::empty());
            assert(live_tokens(specs.push(s), flags.push(true)) =~= live_tokens(
                specs,
                flags,
            ).push(s.token@));
            assert(live_tokens(specs.push(s), flags.push(false)) =~= live_tokens(specs, flags));
        }
    } else {
        assert(specs.push(s)[0] == specs[0]);
        assert(specs.push(s).drop_first() =~= specs.drop_first().push(s));
        if specs[0].condition is Some {
            assert(cond_count(specs) == 1 + cond_count(specs.drop_first()));
            assert(flags.len() > 0);
            lemma_live_push(specs.drop_first(), flags.drop_first(), s);
            if s.condition is Some {
                assert(flags.push(true).drop_first() =~= flags.drop_first().push(true));
                assert(flags.push(false).drop_first() =~= flags.drop_first().push(false));
                assert(flags.push(true)[0] == flags[0]);
                assert(flags.push(false)[0] == flags[0]);
                assert(live_tokens(specs.push(s), flags.push(true)) =~= live_tokens(
                    specs,
                    flags,
                ).push(s.token@));
                assert(live_tokens(specs.push(s), flags.push(false)) =~= live_tokens(
                    specs,
                    flags,
                ));
            } else {
                assert(live_tokens(specs.push(s), flags) =~= live_tokens(specs, flags).push(
                    s.token@,
                ));
            }
        } else {
            lemma_live_push(specs.drop_first(), flags, s);
            if s.condition is Some {
                assert(live_tokens(specs.push(s), flags.push(true)) =~= live_tokens(
                    specs,
                    flags,
                ).push(s.token@));
                assert(live_tokens(specs.push(s), flags.push(false)) =~= live_tokens(
                    specs,
                    flags,
                ));
            } else {
                assert(live_tokens(specs.push(s), flags) =~= live_tokens(specs, flags).push(
                    s.token@,
                ));
            }
        }
    }
}

/// The ordered token views of the raw rule list.
pub open spec fn rule_tokens(rules: Seq<ClassRule>) -> Seq<Seq<char>> {
    rules.map_values(|r: ClassRule| r.token@)
}

/// Live conditions add up over concatenation.
pub proof fn lemma_cond_count_concat(a: Seq<ClassSpec>, b: Seq<ClassSpec>)
    ensures
        cond_count(a + b) == cond_count(a) + cond_count(b),
    decreases a.len(),
{
    if a.len() == 0 {
        assert(a + b =~= b);
    } else {
        lemma_cond_count_concat(a.drop_first(), b);
        assert((a + b)[0] == a[0]);
        assert((a + b).drop_first() =~= a.drop_first() + b);
    }
}

/// A list of unconditional entries has no live condition.
pub proof fn lemma_cond_count_unconditional(specs: Seq<ClassSpec>)
    requires
        forall|i: int| 0 <= i < specs.len() ==> (#[trigger] specs[i]).condition is None,
    ensures
        cond_count(specs) == 0,
    decreases specs.len(),
{
    if specs.len() > 0 {
        lemma_cond_count_unconditional(specs.drop_first());
    }
}

/// There are never more live conditions than entries.
pub proof fn lemma_cond_count_le_len(specs: Seq<ClassSpec>)
    ensures
        cond_count(specs) <= specs.len(),
    decreases specs.len(),
{
    if specs.len() > 0 {
        lemma_cond_count_le_len(specs.drop_first());
    }
}

/// With no live condition, every token is live under every assignment.
pub proof fn lemma_live_unconditional(specs: Seq<ClassSpec>, flags: Seq<bool>)
    requires
        cond_count(specs) == 0,
    ensures
        live_tokens(specs, flags) == spec_tokens(specs),
    decreases specs.len(),
{
    if specs.len() == 0 {
        assert(live_tokens(specs, flags) =~= spec_tokens(specs));
    } else {
        assert(specs[0].condition is None);
        lemma_live_unconditional(specs.drop_first(), flags);
        assert(spec_tokens(specs).drop_first() =~= spec_tokens(specs.drop_first()));
        assert(live_tokens(specs, flags) =~= spec_tokens(specs));
    }
}

/// Every folded entry is well-formed once every token passed validation.
pub proof fn lemma_folded_wf(rules: Seq<ClassRule>)
    requires
        forall|i: int| 0 <= i < rules.len() ==> token_error(#[trigger] rules[i].token@) is None,
    ensures
        forall|i: int|
            0 <= i < spec_folded(rules).len() ==> (#[trigger] spec_folded(rules)[i]).wf(),
    decreases rules.len(),
{
    if rules.len() == 0 {
        assert(spec_folded(rules) == Seq::<ClassSpec>::empty());
    } else {
        lemma_folded_wf(rules.drop_first());
        let st = spec_rule_state(rules[0]);
        if st == Known::False || st == Known::Never {
            assert(spec_folded(rules) == spec_folded(rules.drop_first()));
            assert forall|i: int| 0 <= i < spec_folded(rules).len() implies (
            #[trigger] spec_folded(rules)[i]).wf() by {
                assert(spec_folded(rules)[i] == spec_folded(rules.drop_first())[i]);
            }
        } else {
            let e = spec_fold_entry(rules[0]);
            assert(token_error(rules[0].token@) is None);
            assert(valid_token(e.token@));
            assert(e.wf());
            assert forall|i: int| 0 <= i < spec_folded(rules).len() implies (
            #[trigger] spec_folded(rules)[i]).wf() by {
                if i == 0 {
                    assert(spec_folded(rules)[0] == e);
                } else {
                    assert(spec_folded(rules)[i] == spec_folded(rules.drop_first())[i - 1]);
                }
            }
        }
    }
}

/// The folded token list is a subsequence of the declared token list.
pub proof fn lemma_folded_subsequence(rules: Seq<ClassRule>)
    ensures
        is_subsequence(spec_tokens(spec_folded(rules)), rule_tokens(rules)),
    decreases rules.len(),
{
    if rules.len() == 0 {
    } else {
        lemma_folded_subsequence(rules.drop_first());
        assert(rule_tokens(rules)[0] == rules[0].token@);
        assert(rule_tokens(rules).drop_first() =~= rule_tokens(rules.drop_first()));
        let st = spec_rule_state(rules[0]);
        if st == Known::False || st == Known::Never {
            lemma_subsequence_weaken_head(
                spec_tokens(spec_folded(rules.drop_first())),
                rule_tokens(rules),
            );
            assert(spec_tokens(spec_folded(rules)) =~= spec_tokens(
                spec_folded(rules.drop_first()),
            ));
        } else {
            assert(spec_tokens(spec_folded(rules))[0] == rules[0].token@);
            assert(spec_tokens(spec_folded(rules)).drop_first() =~= spec_tokens(
                spec_folded(rules.drop_first()),
            ));
        }
    }
}

/// The folded token list is pairwise distinct once the declared token list
/// is duplicate-free.
pub proof fn lemma_folded_distinct(rules: Seq<ClassRule>)
    requires
        !has_dup(rules),
    ensures
        distinct_views(spec_tokens(spec_folded(rules))),
{
    assert forall|i: int, j: int| 0 <= i < j < rule_tokens(rules).len() implies rule_tokens(
        rules,
    )[i] != rule_tokens(rules)[j] by {
        if rule_tokens(rules)[i] == rule_tokens(rules)[j] {
            assert(dup_at(rules, i, j));
        }
    }
    lemma_folded_subsequence(rules);
    lemma_subsequence_distinct(spec_tokens(spec_folded(rules)), rule_tokens(rules));
}

/// Count the live conditions of a folded entry list.
pub fn count_conditions(specs: &Vec<ClassSpec>) -> (r: usize)
    ensures
        r == cond_count(specs@),
{
    let ghost gs = specs@;
    let n = specs.len();
    let mut c: usize = 0;
    let mut i: usize = 0;
    proof {
        assert(gs.skip(0) =~= gs);
    }
    while i < n
        invariant
            i <= n,
            c <= i,
            c + cond_count(gs.skip(i as int)) == cond_count(gs),
        decreases n - i,
    {
        proof {
            assert(gs.skip(i as int)[0] == gs[i as int]);
            assert(gs.skip(i as int).drop_first() =~= gs.skip(i + 1));
        }
        match &specs[i].condition {
            Some(_) => {
                c += 1;
            },
            None => {},
        }
        i += 1;
    }
    proof {
        assert(gs.skip(n as int) =~= Seq::<ClassSpec>::empty());
    }
    c
}

/// Two rule positions carrying the same token text.
pub open spec fn dup_at(rules: Seq<ClassRule>, i: int, j: int) -> bool {
    0 <= i < j < rules.len() && rules[i].token@ == rules[j].token@
}

/// Some token text appears at two positions of the input list.
pub open spec fn has_dup(rules: Seq<ClassRule>) -> bool {
    exists|i: int, j: int| dup_at(rules, i, j)
}

/// The whole input list passed validation and the duplicate check.
pub open spec fn spec_build_ok(rules: Seq<ClassRule>) -> bool {
    (forall|i: int| 0 <= i < rules.len() ==> token_error(#[trigger] rules[i].token@) is None)
        && !has_dup(rules)
}

/// The diagnostic the builder reports: the lowest invalid token, else the
/// earliest duplicate pair, the earlier occurrence first.
pub open spec fn spec_build_err(rules: Seq<ClassRule>, e: CompileError) -> bool {
    match e {
        CompileError::InvalidToken { index, error } => 0 <= index < rules.len() && token_error(
            rules[index as int].token@,
        ) == Some(error) && (forall|i: int|
            0 <= i < index ==> token_error(#[trigger] rules[i].token@) is None),
        CompileError::DuplicateToken { first, second } => (forall|i: int|
            0 <= i < rules.len() ==> token_error(#[trigger] rules[i].token@) is None) && dup_at(
            rules,
            first as int,
            second as int,
        ) && (forall|i: int, j: int| 0 <= i < j < second ==> rules[i].token@ != rules[j].token@),
    }
}

/// Consume the ordered rule list and produce the folded `ClassSpec` list,
/// or the first diagnostic: the lowest invalid token, else the earliest
/// duplicate pair. Duplicates are detected before folding.
pub fn build_class_specs(rules: Vec<ClassRule>) -> (r: Result<Vec<ClassSpec>, CompileError>)
    ensures
        match r {
            Ok(specs) => spec_build_ok(rules@) && specs@ == spec_folded(rules@),
            Err(e) => spec_build_err(rules@, e),
        },
{
    let ghost orig = rules@;
    let n = rules.len();
    let mut i: usize = 0;
    while i < n
        invariant
            i <= n,
            forall|k: int| 0 <= k < i ==> token_error(#[trigger] rules@[k].token@) is None,
        decreases n - i,
    {
        match check_token(rules[i].token.as_str()) {
            Ok(()) => {},
            Err(e) => {
                return Err(CompileError::InvalidToken { index: i, error: e });
            },
        }
        i += 1;
    }
    let mut j: usize = 1;
    while j < n
        invariant
            j <= n || j == 1,
            forall|i2: int, j2: int| 0 <= i2 < j2 < j ==> rules@[i2].token@ != rules@[j2].token@,
        decreases n - j,
    {
        let mut k: usize = 0;
        while k < j
            invariant
                k <= j < n,
                forall|i2: int| 0 <= i2 < k ==> rules@[i2].token@ != rules@[j as int].token@,
            decreases j - k,
        {
            if rules[k].token == rules[j].token {
                return Err(CompileError::DuplicateToken { first: k, second: j });
            }
            k += 1;
        }
        j += 1;
    }
    assert(!has_dup(rules@));
    let mut rest = rules;
    let mut specs: Vec<ClassSpec> = Vec::new();
    proof {
        assert(specs@ + spec_folded(rest@) =~= spec_folded(orig));
    }
    while rest.len() > 0
        invariant
            specs@ + spec_folded(rest@) == spec_folded(orig),
        decreases rest@.len(),
    {
        let ghost before = rest@;
        let rule = rest.remove(0);
        assert(before[0] == rule);
        assert(rest@ =~= before.drop_first());
        let st = rule.state();
        if !st.is_false() {
            let kept = if st.is_true() {
                ClassSpec { token: rule.token, condition: None }
            } else {
                ClassSpec { token: rule.token, condition: rule.condition }
            };
            assert(kept == spec_fold_entry(before[0]));
            specs.push(kept);
        }
        proof {
            assert(specs@ + spec_folded(rest@) =~= spec_folded(orig));
        }
    }
    proof {
        assert(specs@ =~= specs@ + spec_folded(rest@));
    }
    Ok(specs)
}

} // verus!
