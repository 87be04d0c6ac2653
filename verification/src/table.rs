//! The static generator: enumerate, by breadth-first expansion of a work
//! queue, every assignment of the live conditions, pre-computing one
//! rendered class set per assignment. The finished table holds exactly one
//! row per boolean tuple, in binary counting order with the first declared
//! condition most significant, and evaluation is a single indexed lookup.

use vstd::prelude::*;

use crate::builder::{
    cond_count, count_conditions, lemma_live_push, lemma_live_subsequence, lemma_live_valid,
    live_tokens, spec_tokens, ClassSpec,
};
use crate::render::{join_spaces, lemma_subsequence_distinct, spec_join};
use crate::statics::StaticClassSet;
use crate::token::distinct_views;

verus! {

/// Two to the power `k`: the number of rows a table over `k` live
/// conditions must hold.
pub open spec fn pow2(k: nat) -> nat
    decreases k,
{
    if k == 0 {
        1
    } else {
        2 * pow2((k - 1) as nat)
    }
}

/// The index of a boolean tuple in binary counting order: the first
/// element is the most significant bit, `false` counts as zero.
pub open spec fn binval(f: Seq<bool>) -> nat
    decreases f.len(),
{
    if f.len() == 0 {
        0
    } else {
        2 * binval(f.drop_last()) + (if f.last() {
            1nat
        } else {
            0nat
        })
    }
}

pub proof fn lemma_pow2_mono(a: nat, b: nat)
    requires
        a <= b,
    ensures
        pow2(a) <= pow2(b),
    decreases b,
{
    if a < b && b > 0 {
        lemma_pow2_mono(a, (b - 1) as nat);
    }
}

pub proof fn lemma_binval_bound(f: Seq<bool>)
    ensures
        binval(f) < pow2(f.len()),
    decreases f.len(),
{
    if f.len() > 0 {
        lemma_binval_bound(f.drop_last());
    }
}

/// Two boolean tuples of equal length and equal index are equal.
pub proof fn lemma_binval_injective(f: Seq<bool>, g: Seq<bool>)
    requires
        f.len() == g.len(),
        binval(f) == binval(g),
    ensures
        f == g,
    decreases f.len(),
{
    if f.len() == 0 {
        assert(f =~= g);
    } else {
        assert(f.last() == g.last());
        lemma_binval_injective(f.drop_last(), g.drop_last());
        assert(f =~= f.drop_last().push(f.last()));
        assert(g =~= g.drop_last().push(g.last()));
    }
}

pub proof fn lemma_binval_push(f: Seq<bool>, b: bool)
    ensures
        binval(f.push(b)) == 2 * binval(f) + (if b {
            1nat
        } else {
            0nat
        }),
{
    assert(f.push(b).drop_last() =~= f);
    assert(f.push(b).last() == b);
}

/// One enumeration step on one work item: an unconditional entry appends
/// its token; a conditional entry forks the item into a `false` variant and
/// a `true` variant, in that order.
pub open spec fn expand_row(row: (Seq<bool>, Seq<Seq<char>>), s: ClassSpec) -> Seq<
    (Seq<bool>, Seq<Seq<char>>),
> {
    if s.condition is Some {
        seq![(row.0.push(false), row.1), (row.0.push(true), row.1.push(s.token@))]
    } else {
        seq![(row.0, row.1.push(s.token@))]
    }
}

/// One enumeration step on a whole generation of work items, preserving
/// their order.
pub open spec fn expand_level(
    level: Seq<(Seq<bool>, Seq<Seq<char>>)>,
    s: ClassSpec,
) -> Seq<(Seq<bool>, Seq<Seq<char>>)>
    decreases level.len(),
{
    if level.len() == 0 {
        Seq::empty()
    } else {
        expand_row(level[0], s) + expand_level(level.drop_first(), s)
    }
}

/// The work-queue population after the first `n` entries have been
/// expanded, starting from the single empty item.
pub open spec fn levels(specs: Seq<ClassSpec>, n: int) -> Seq<(Seq<bool>, Seq<Seq<char>>)>
    decreases n,
{
    if n <= 0 {
        seq![(Seq::<bool>::empty(), Seq::<Seq<char>>::empty())]
    } else {
        expand_level(levels(specs, n - 1), specs[n - 1])
    }
}

/// Index arithmetic of one expansion step: an unconditional entry maps each
/// item to one item; a conditional entry maps the item at `i` to the items
/// at `2i` and `2i + 1`.
pub proof fn lemma_expand_level_index(level: Seq<(Seq<bool>, Seq<Seq<char>>)>, s: ClassSpec)
    ensures
        s.condition is None ==> expand_level(level, s).len() == level.len(),
        s.condition is None ==> forall|i: int|
            0 <= i < level.len() ==> #[trigger] expand_level(level, s)[i] == (
            level[i].0,
            level[i].1.push(s.token@),
            ),
        s.condition is Some ==> expand_level(level, s).len() == 2 * level.len(),
        s.condition is Some ==> forall|i: int|
            0 <= i < 2 * level.len() ==> #[trigger] expand_level(level, s)[i] == (if i % 2 == 0 {
                (level[i / 2].0.push(false), level[i / 2].1)
            } else {
                (level[i / 2].0.push(true), level[i / 2].1.push(s.token@))
            }),
    decreases level.len(),
{
    if level.len() == 0 {
    } else {
        lemma_expand_level_index(level.drop_first(), s);
        let e = expand_level(level, s);
        let rest = expand_level(level.drop_first(), s);
        assert(e == expand_row(level[0], s) + rest);
        if s.condition is None {
            assert forall|i: int| 0 <= i < level.len() implies #[trigger] e[i] == (
                level[i].0,
                level[i].1.push(s.token@),
            ) by {
                if i == 0 {
                    assert(e[0] == expand_row(level[0], s)[0]);
                } else {
                    assert(e[i] == rest[i - 1]);
                    assert(level.drop_first()[i - 1] == level[i]);
                }
            }
        } else {
            assert forall|i: int| 0 <= i < 2 * level.len() implies #[trigger] e[i] == (if i % 2
                == 0 {
                (level[i / 2].0.push(false), level[i / 2].1)
            } else {
                (level[i / 2].0.push(true), level[i / 2].1.push(s.token@))
            }) by {
                if i == 0 {
                    assert(e[0] == expand_row(level[0], s)[0]);
                } else if i == 1 {
                    assert(e[1] == expand_row(level[0], s)[1]);
                } else {
                    assert(e[i] == rest[i - 2]);
                    assert((i - 2) / 2 == i / 2 - 1);
                    assert((i - 2) % 2 == i % 2);
                    assert(level.drop_first()[i / 2 - 1] == level[i / 2]);
                }
            }
        }
    }
}

/// The shape of the work-queue population after `n` expansion steps: one
/// item per boolean tuple over the conditions seen so far, in binary
/// counting order, each carrying exactly the live tokens of the prefix
/// under its own tuple.
pub proof fn lemma_levels_characterization(specs: Seq<ClassSpec>, n: int)
    requires
        0 <= n <= specs.len(),
    ensures
        levels(specs, n).len() == pow2(cond_count(specs.take(n))),
        forall|idx: int|
            0 <= idx < levels(specs, n).len() ==> {
                let row = #[trigger] levels(specs, n)[idx];
                row.0.len() == cond_count(specs.take(n)) && binval(row.0) == idx && row.1
                    == live_tokens(specs.take(n), row.0)
            },
    decreases n,
{
    if n == 0 {
        assert(specs.take(0) =~= Seq::<ClassSpec>::empty());
        assert(cond_count(Seq::<ClassSpec>::empty()) == 0);
        assert(live_tokens(Seq::<ClassSpec>::empty(), Seq::<bool>::empty())
            == Seq::<Seq<char>>::empty());
    } else {
        lemma_levels_characterization(specs, n - 1);
        let prev = levels(specs, n - 1);
        let s = specs[n - 1];
        let cur = levels(specs, n);
        let c = cond_count(specs.take(n - 1));
        assert(specs.take(n) =~= specs.take(n - 1).push(s));
        crate::builder::lemma_cond_count_push(specs.take(n - 1), s);
        lemma_expand_level_index(prev, s);
        if s.condition is None {
            assert(cond_count(specs.take(n)) == c);
            assert forall|idx: int| 0 <= idx < cur.len() implies {
                let row = #[trigger] cur[idx];
                row.0.len() == cond_count(specs.take(n)) && binval(row.0) == idx && row.1
                    == live_tokens(specs.take(n), row.0)
            } by {
                let prow = prev[idx];
                assert(cur[idx] == (prow.0, prow.1.push(s.token@)));
                lemma_live_push(specs.take(n - 1), prow.0, s);
            }
        } else {
            assert(cond_count(specs.take(n)) == c + 1);
            assert(pow2(c + 1) == 2 * pow2(c));
            assert forall|idx: int| 0 <= idx < cur.len() implies {
                let row = #[trigger] cur[idx];
                row.0.len() == cond_count(specs.take(n)) && binval(row.0) == idx && row.1
                    == live_tokens(specs.take(n), row.0)
            } by {
                let prow = prev[idx / 2];
                lemma_live_push(specs.take(n - 1), prow.0, s);
                if idx % 2 == 0 {
                    assert(cur[idx] == (prow.0.push(false), prow.1));
                    lemma_binval_push(prow.0, false);
                } else {
                    assert(cur[idx] == (prow.0.push(true), prow.1.push(s.token@)));
                    lemma_binval_push(prow.0, true);
                }
            }
        }
    }
}

/// Transient enumeration state: the boolean assignment chosen so far and
/// the tokens chosen so far. The entries still to expand are the suffix of
/// the folded list shared by the whole generation.
#[derive(Debug)]
struct WorkItem {
    class_set: Vec<String>,
    condition_set: Vec<bool>,
}

/// The assignment/token views of a generation of work items.
spec fn items_view(items: Seq<WorkItem>) -> Seq<(Seq<bool>, Seq<Seq<char>>)> {
    items.map_values(|w: WorkItem| (w.condition_set@, w.class_set.deep_view()))
}

fn clone_strings(v: &Vec<String>) -> (r: Vec<String>)
    ensures
        r@ == v@,
{
    let mut r: Vec<String> = Vec::new();
    let mut i: usize = 0;
    while i < v.len()
        invariant
            i <= v.len(),
            r@ == v@.take(i as int),
        decreases v.len() - i,
    {
        r.push(v[i].clone());
        proof {
            assert(r@ =~= v@.take(i + 1));
        }
        i += 1;
    }
    proof {
        assert(v@.take(v@.len() as int) =~= v@);
    }
    r
}

fn clone_bools(v: &Vec<bool>) -> (r: Vec<bool>)
    ensures
        r@ == v@,
{
    let mut r: Vec<bool> = Vec::new();
    let mut i: usize = 0;
    while i < v.len()
        invariant
            i <= v.len(),
            r@ == v@.take(i as int),
        decreases v.len() - i,
    {
        r.push(v[i]);
        proof {
            assert(r@ =~= v@.take(i + 1));
        }
        i += 1;
    }
    proof {
        assert(v@.take(v@.len() as int) =~= v@);
    }
    r
}

/// Run the breadth-first enumeration: expand the work queue through every
/// folded entry, one generation per entry.
fn build_rows(specs: &Vec<ClassSpec>) -> (r: Vec<WorkItem>)
    ensures
        items_view(r@) == levels(specs@, specs@.len() as int),
{
    let mut queue: Vec<WorkItem> = Vec::new();
    queue.push(WorkItem { class_set: Vec::new(), condition_set: Vec::new() });
    proof {
        assert(items_view(queue@) =~~= levels(specs@, 0));
    }
    let n = specs.len();
    let mut i: usize = 0;
    while i < n
        invariant
            i <= n,
            items_view(queue@) == levels(specs@, i as int),
        decreases n - i,
    {
        let ghost level = items_view(queue@);
        let mut next: Vec<WorkItem> = Vec::new();
        let mut rest = queue;
        proof {
            assert(items_view(next@) + expand_level(level, specs@[i as int]) =~~= expand_level(
                level,
                specs@[i as int],
            ));
        }
        while rest.len() > 0
            invariant
                0 <= i < n,
                items_view(next@) + expand_level(items_view(rest@), specs@[i as int])
                    == expand_level(level, specs@[i as int]),
            decreases rest@.len(),
        {
            let ghost before = items_view(rest@);
            let mut item = rest.remove(0);
            proof {
                assert(before[0] == (item.condition_set@, item.class_set.deep_view()));
                assert(items_view(rest@) =~~= before.drop_first());
            }
            let is_cond = match &specs[i].condition {
                Some(_) => true,
                None => false,
            };
            if is_cond {
                let mut class_f = clone_strings(&item.class_set);
                let mut cond_f = clone_bools(&item.condition_set);
                cond_f.push(false);
                let f_item = WorkItem { class_set: class_f, condition_set: cond_f };
                let ghost fview = (f_item.condition_set@, f_item.class_set.deep_view());
                next.push(f_item);
                let ghost mid = items_view(next@);
                item.condition_set.push(true);
                item.class_set.push(specs[i].token.clone());
                let ghost tview = (item.condition_set@, item.class_set.deep_view());
                next.push(item);
                proof {
                    assert(fview == (before[0].0.push(false), before[0].1));
                    assert(tview.0 =~= before[0].0.push(true));
                    assert(tview.1 =~= before[0].1.push(specs@[i as int].token@));
                    assert(expand_row(before[0], specs@[i as int]) =~~= seq![fview, tview]);
                    assert(items_view(next@) =~~= mid.push(tview));
                    assert(items_view(next@) + expand_level(items_view(rest@), specs@[i as int])
                        =~~= expand_level(level, specs@[i as int]));
                }
            } else {
                item.class_set.push(specs[i].token.clone());
                let ghost tview = (item.condition_set@, item.class_set.deep_view());
                next.push(item);
                proof {
                    assert(tview.1 =~= before[0].1.push(specs@[i as int].token@));
                    assert(expand_row(before[0], specs@[i as int]) =~~= seq![tview]);
                    assert(items_view(next@) =~~= items_view(next@.drop_last()).push(tview));
                    assert(items_view(next@) + expand_level(items_view(rest@), specs@[i as int])
                        =~~= expand_level(level, specs@[i as int]));
                }
            }
        }
        proof {
            assert(items_view(rest@) =~~= Seq::<(Seq<bool>, Seq<Seq<char>>)>::empty());
            assert(expand_level(items_view(rest@), specs@[i as int])
                == Seq::<(Seq<bool>, Seq<Seq<char>>)>::empty());
            assert(items_view(next@) =~~= expand_level(level, specs@[i as int]));
        }
        queue = next;
        i += 1;
    }
    queue
}

/// One finished row: a boolean assignment and its pre-computed class set.
#[derive(Debug)]
struct TableRow {
    condition_set: Vec<bool>,
    set: StaticClassSet,
}

/// The combinatorial lookup table: exactly one pre-computed class set per
/// assignment of the live conditions, keyed by the assignment read as a
/// binary number with the first declared condition most significant.
pub struct StaticTable {
    rows: Vec<TableRow>,
    conds: usize,
    specs: Ghost<Seq<ClassSpec>>,
}

impl StaticTable {
    /// The folded entry list the table was built from.
    pub closed spec fn spec_specs(&self) -> Seq<ClassSpec> {
        self.specs@
    }

    /// The number of rows.
    pub closed spec fn spec_row_count(&self) -> nat {
        self.rows@.len()
    }

    /// The boolean assignment of the row at `idx`.
    pub closed spec fn spec_row_assignment(&self, idx: int) -> Seq<bool> {
        self.rows@[idx].condition_set@
    }

    /// The builder's guarantee: one well-formed row per boolean tuple, in
    /// binary counting order, each carrying exactly the live tokens of the
    /// folded entries under its own tuple and their space-joined rendering.
    pub closed spec fn wf(&self) -> bool {
        self.conds == cond_count(self.specs@) && self.rows@.len() == pow2(cond_count(self.specs@))
            && forall|idx: int|
            0 <= idx < self.rows@.len() ==> {
                let row = #[trigger] self.rows@[idx];
                row.condition_set@.len() == cond_count(self.specs@) && binval(row.condition_set@)
                    == idx && row.set.wf() && row.set.spec_class_set() == live_tokens(
                    self.specs@,
                    row.condition_set@,
                )
            }
    }

    /// Table completeness: the table holds exactly one row for every
    /// boolean tuple over the live conditions — `2^k` rows in all, the row
    /// at `idx` carrying the tuple whose binary value is `idx`, and every
    /// tuple reachable at exactly one index.
    pub proof fn lemma_complete(&self)
        requires
            self.wf(),
        ensures
            self.spec_row_count() == pow2(cond_count(self.spec_specs())),
            forall|idx: int|
                0 <= idx < self.spec_row_count() ==> (#[trigger] self.spec_row_assignment(
                    idx,
                )).len() == cond_count(self.spec_specs()) && binval(self.spec_row_assignment(idx))
                    == idx,
            forall|f: Seq<bool>|
                #![trigger binval(f)]
                f.len() == cond_count(self.spec_specs()) ==> binval(f) < self.spec_row_count()
                    && self.spec_row_assignment(binval(f) as int) == f,
    {
        assert forall|f: Seq<bool>|
            #![trigger binval(f)]
            f.len() == cond_count(self.spec_specs()) implies binval(f) < self.spec_row_count()
            && self.spec_row_assignment(binval(f) as int) == f by {
            lemma_binval_bound(f);
            assert(binval(f) < self.spec_row_count());
            lemma_binval_injective(self.spec_row_assignment(binval(f) as int), f);
        }
    }

    /// The number of live conditions the table is keyed by.
    pub fn condition_count(&self) -> (r: usize)
        requires
            self.wf(),
        ensures
            r == cond_count(self.spec_specs()),
    {
        self.conds
    }

    /// The number of rows.
    pub fn row_count(&self) -> (r: usize)
        requires
            self.wf(),
        ensures
            r == self.spec_row_count(),
            r == pow2(cond_count(self.spec_specs())),
    {
        self.rows.len()
    }

    /// Select the row whose assignment equals the given condition outcomes,
    /// in declaration order: a single indexed lookup, with no further
    /// computation. Evaluation is total: every assignment has its row.
    pub fn select(&self, flags: &Vec<bool>) -> (r: &StaticClassSet)
        requires
            self.wf(),
            flags@.len() == cond_count(self.spec_specs()),
        ensures
            r.wf(),
            r.spec_class_set() == live_tokens(self.spec_specs(), flags@),
            r.spec_rendered() == spec_join(live_tokens(self.spec_specs(), flags@)),
    {
        let n = flags.len();
        let rc = self.rows.len();
        let mut idx: usize = 0;
        let mut i: usize = 0;
        proof {
            assert(flags@.take(0) =~= Seq::<bool>::empty());
        }
        while i < n
            invariant
                i <= n,
                idx == binval(flags@.take(i as int)),
                rc == pow2(flags@.len()),
            decreases n - i,
        {
            proof {
                lemma_binval_bound(flags@.take(i as int));
                lemma_pow2_mono((i + 1) as nat, flags@.len() as nat);
                assert(flags@.take(i + 1).drop_last() =~= flags@.take(i as int));
                assert(flags@.take(i + 1).last() == flags@[i as int]);
            }
            if flags[i] {
                idx = 2 * idx + 1;
            } else {
                idx = 2 * idx;
            }
            i += 1;
        }
        proof {
            assert(flags@.take(n as int) =~= flags@);
            lemma_binval_bound(flags@);
            lemma_binval_injective(self.rows@[idx as int].condition_set@, flags@);
        }
        &self.rows[idx].set
    }
}

/// Build the combinatorial table for a folded entry list: enumerate every
/// assignment of the live conditions breadth-first, and pre-compute each
/// row's class set and rendering.
pub fn build_static_table(specs: &Vec<ClassSpec>) -> (r: StaticTable)
    requires
        forall|i: int| 0 <= i < specs@.len() ==> (#[trigger] specs@[i]).wf(),
        distinct_views(spec_tokens(specs@)),
    ensures
        r.wf(),
        r.spec_specs() == specs@,
{
    let items = build_rows(specs);
    proof {
        assert(specs@.take(specs@.len() as int) =~= specs@);
        lemma_levels_characterization(specs@, specs@.len() as int);
    }
    let ghost lvl = levels(specs@, specs@.len() as int);
    let mut rest = items;
    let mut rows: Vec<TableRow> = Vec::new();
    let ghost k = cond_count(specs@);
    while rest.len() > 0
        invariant
            forall|i: int| 0 <= i < specs@.len() ==> (#[trigger] specs@[i]).wf(),
            distinct_views(spec_tokens(specs@)),
            k == cond_count(specs@),
            rows@.len() + rest@.len() == lvl.len(),
            items_view(rest@) == lvl.skip(rows@.len() as int),
            forall|idx: int|
                0 <= idx < rows@.len() ==> {
                    let row = #[trigger] rows@[idx];
                    row.condition_set@.len() == k && binval(row.condition_set@) == idx
                        && row.set.wf() && row.set.spec_class_set() == live_tokens(
                        specs@,
                        row.condition_set@,
                    )
                },
        decreases rest@.len(),
    {
        let ghost before = items_view(rest@);
        let ghost done = rows@.len() as int;
        let item = rest.remove(0);
        proof {
            assert(before[0] == (item.condition_set@, item.class_set.deep_view()));
            assert(items_view(rest@) =~~= before.drop_first());
            assert(before.drop_first() =~~= lvl.skip(done + 1));
            assert(lvl.skip(done)[0] == lvl[done]);
            lemma_live_valid(specs@, item.condition_set@);
            lemma_live_subsequence(specs@, item.condition_set@);
            lemma_subsequence_distinct(
                live_tokens(specs@, item.condition_set@),
                spec_tokens(specs@),
            );
        }
        let rendered = join_spaces(&item.class_set);
        let set = StaticClassSet::new(item.class_set, rendered);
        rows.push(TableRow { condition_set: item.condition_set, set });
    }
    proof {
        assert(rows@.len() == lvl.len());
    }
    let conds = count_conditions(specs);
    StaticTable { rows, conds, specs: Ghost(specs@) }
}

} // verus!
