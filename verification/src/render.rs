//! The single join-by-space contract: rendering an ordered sequence of
//! tokens means writing them out in order, separated by single spaces.

use vstd::prelude::*;

verus! {

/// The rendered form of an ordered token sequence: the tokens in order,
/// joined by single spaces.
pub open spec fn spec_join(ts: Seq<Seq<char>>) -> Seq<char>
    decreases ts.len(),
{
    if ts.len() == 0 {
        Seq::empty()
    } else if ts.len() == 1 {
        ts[0]
    } else {
        ts[0] + seq![' '] + spec_join(ts.drop_first())
    }
}

/// Joining one more token on the right appends a space and the token,
/// except into an empty sequence.
pub proof fn lemma_join_push(ts: Seq<Seq<char>>, t: Seq<char>)
    ensures
        spec_join(ts.push(t)) == if ts.len() == 0 {
            t
        } else {
            spec_join(ts) + seq![' '] + t
        },
    decreases ts.len(),
{
    if ts.len() == 0 {
        assert(ts.push(t)[0] == t);
        assert(spec_join(ts.push(t)) == t);
    } else if ts.len() == 1 {
        assert(ts.push(t).drop_first() =~= seq![t]);
        assert(spec_join(seq![t]) == t);
        assert(ts.push(t)[0] == ts[0]);
        assert(spec_join(ts.push(t)) == ts[0] + seq![' '] + t);
        assert(spec_join(ts) + seq![' '] + t == ts[0] + seq![' '] + t);
    } else {
        lemma_join_push(ts.drop_first(), t);
        assert(ts.push(t).drop_first() =~= ts.drop_first().push(t));
        assert(spec_join(ts) + seq![' '] + t =~= ts[0] + seq![' '] + (spec_join(ts.drop_first())
            + seq![' '] + t));
    }
}

/// Join an ordered list of tokens with single spaces.
pub fn join_spaces(parts: &Vec<String>) -> (r: String)
    ensures
        r@ == spec_join(parts.deep_view()),
{
    let mut r = String::new();
    let mut i: usize = 0;
    while i < parts.len()
        invariant
            i <= parts.len(),
            r@ == spec_join(parts.deep_view().take(i as int)),
        decreases parts.len() - i,
    {
        if i > 0 {
            r.append(" ");
            proof {
                reveal_strlit(" ");
            }
        }
        r.append(parts[i].as_str());
        proof {
            lemma_join_push(parts.deep_view().take(i as int), parts@[i as int]@);
            assert(parts.deep_view().take(i + 1) =~= parts.deep_view().take(i as int).push(
                parts@[i as int]@));
        }
        i += 1;
    }
    proof {
        assert(parts.deep_view().take(parts@.len() as int) =~= parts.deep_view());
    }
    r
}

/// `a` appears inside `b` as a subsequence: every element of `a` occurs in
/// `b`, in the same relative order.
pub open spec fn is_subsequence<T>(a: Seq<T>, b: Seq<T>) -> bool
    decreases a.len(), b.len(),
{
    if a.len() == 0 {
        true
    } else if b.len() == 0 {
        false
    } else if a[0] == b[0] {
        is_subsequence(a.drop_first(), b.drop_first())
    } else {
        is_subsequence(a, b.drop_first())
    }
}

/// Dropping the head of the smaller sequence preserves subsequence-hood.
pub proof fn lemma_subsequence_drop<T>(a: Seq<T>, b: Seq<T>)
    requires
        a.len() > 0,
        is_subsequence(a, b),
    ensures
        is_subsequence(a.drop_first(), b),
    decreases a.len(), b.len(),
{
    if a[0] == b[0] {
        lemma_subsequence_weaken_head(a.drop_first(), b);
    } else {
        lemma_subsequence_drop(a, b.drop_first());
        lemma_subsequence_weaken_head(a.drop_first(), b);
    }
}

/// Every element of a subsequence occurs in the larger sequence.
pub proof fn lemma_subsequence_contains<T>(a: Seq<T>, b: Seq<T>)
    requires
        is_subsequence(a, b),
    ensures
        forall|x: T| a.contains(x) ==> b.contains(x),
    decreases a.len(), b.len(),
{
    if a.len() == 0 {
    } else if a[0] == b[0] {
        lemma_subsequence_contains(a.drop_first(), b.drop_first());
        assert forall|x: T| a.contains(x) implies b.contains(x) by {
            let i = choose|i: int| 0 <= i < a.len() && a[i] == x;
            if i == 0 {
                assert(b[0] == x);
            } else {
                assert(a.drop_first()[i - 1] == x);
                assert(a.drop_first().contains(x));
                let j = choose|j: int| 0 <= j < b.drop_first().len() && b.drop_first()[j] == x;
                assert(b[j + 1] == x);
            }
        }
    } else {
        lemma_subsequence_contains(a, b.drop_first());
        assert forall|x: T| a.contains(x) implies b.contains(x) by {
            if a.contains(x) {
                let j = choose|j: int| 0 <= j < b.drop_first().len() && b.drop_first()[j] == x;
                assert(b[j + 1] == x);
            }
        }
    }
}

/// A subsequence of a sequence of pairwise distinct elements is itself
/// pairwise distinct.
pub proof fn lemma_subsequence_distinct<T>(a: Seq<T>, b: Seq<T>)
    requires
        is_subsequence(a, b),
        forall|i: int, j: int| 0 <= i < j < b.len() ==> b[i] != b[j],
    ensures
        forall|i: int, j: int| 0 <= i < j < a.len() ==> a[i] != a[j],
    decreases a.len(), b.len(),
{
    if a.len() == 0 {
    } else if b.len() == 0 {
    } else if a[0] == b[0] {
        assert(forall|i: int, j: int|
            0 <= i < j < b.drop_first().len() ==> b.drop_first()[i] != b.drop_first()[j]);
        lemma_subsequence_distinct(a.drop_first(), b.drop_first());
        lemma_subsequence_contains(a.drop_first(), b.drop_first());
        assert forall|i: int, j: int| 0 <= i < j < a.len() implies a[i] != a[j] by {
            if i == 0 {
                if a[j] == a[0] {
                    assert(a.drop_first()[j - 1] == a[0]);
                    assert(a.drop_first().contains(a[0]));
                    assert(b.drop_first().contains(a[0]));
                    let m = choose|m: int|
                        0 <= m < b.drop_first().len() && b.drop_first()[m] == a[0];
                    assert(b[m + 1] == b[0]);
                    assert(false);
                }
            } else {
                assert(a.drop_first()[i - 1] != a.drop_first()[j - 1]);
            }
        }
    } else {
        lemma_subsequence_distinct(a, b.drop_first());
    }
}

/// A subsequence of the tail is a subsequence of the whole.
pub proof fn lemma_subsequence_weaken_head<T>(a: Seq<T>, b: Seq<T>)
    requires
        b.len() > 0,
        is_subsequence(a, b.drop_first()),
    ensures
        is_subsequence(a, b),
    decreases a.len(), b.len(),
{
    if a.len() == 0 {
    } else if a[0] == b[0] {
        lemma_subsequence_drop(a, b.drop_first());
    } else {
    }
}

} // verus!
