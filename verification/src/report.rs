//! Read-only audit/report steps over the design database. The database is read outside this
//! crate; these functions compute the reports from what was read.

use vstd::prelude::*;
use crate::text::{
    is_text, lemma_lex_lt_irreflexive, lemma_lex_lt_total, lemma_lex_lt_transitive, lex_less, lex_lt,
    texts,
};

verus! {

/// One row of a cell-frequency table: a library master and how many instances use it.
#[derive(Debug, Clone, PartialEq, Eq)]
pub struct CellFreq {
    pub master: String,
    pub count: usize,
}

/// A [`CellFreq`] as contracts see it.
pub struct CellFreqView {
    pub master: Seq<char>,
    pub count: nat,
}

impl View for CellFreq {
    type V = CellFreqView;

    open spec fn view(&self) -> CellFreqView {
        CellFreqView { master: self.master@, count: self.count as nat }
    }
}

/// How many times `m` occurs in `s`.
pub open spec fn occurrences(s: Seq<Seq<char>>, m: Seq<char>) -> nat
    decreases s.len(),
{
    if s.len() == 0 {
        0
    } else {
        occurrences(s.drop_last(), m) + if s.last() == m {
            1nat
        } else {
            0nat
        }
    }
}

/// Row `a` is listed before row `b`: it is used more, or as much and its name comes first.
pub open spec fn ranks_before(a: CellFreqView, b: CellFreqView) -> bool {
    a.count > b.count || (a.count == b.count && lex_lt(a.master, b.master))
}

/// A row that counts the instances of a (named) master among `masters`, which uses it at least
/// once.
pub open spec fn row_counts(masters: Seq<Seq<char>>, r: CellFreqView) -> bool {
    &&& r.master.len() > 0
    &&& r.count == occurrences(masters, r.master)
    &&& r.count > 0
}

/// Every named master of `masters` has a row in `rows`.
pub open spec fn covers(masters: Seq<Seq<char>>, rows: Seq<CellFreqView>) -> bool {
    forall|k: int|
        0 <= k < masters.len() && masters[k].len() > 0 ==> exists|i: int|
            0 <= i < rows.len() && (#[trigger] rows[i]).master == #[trigger] masters[k]
}

/// `rows` is the cell-frequency table of the instances whose masters are `masters` (one entry
/// per instance, empty for an instance without a master): one row per named master with its
/// instance count, most-used first, ties by name.
pub open spec fn is_frequency_table(masters: Seq<Seq<char>>, rows: Seq<CellFreqView>) -> bool {
    &&& forall|i: int| 0 <= i < rows.len() ==> row_counts(masters, #[trigger] rows[i])
    &&& covers(masters, rows)
    &&& forall|i: int, j: int| 0 <= i < j < rows.len() ==> ranks_before(#[trigger] rows[i], #[trigger] rows[j])
}

/// The views of a sequence of rows.
pub open spec fn row_views(rows: Seq<CellFreq>) -> Seq<CellFreqView> {
    rows.map_values(|r: CellFreq| r@)
}

proof fn lemma_occurrences_bound(s: Seq<Seq<char>>, m: Seq<char>)
    ensures
        occurrences(s, m) <= s.len(),
    decreases s.len(),
{
    if s.len() > 0 {
        lemma_occurrences_bound(s.drop_last(), m);
    }
}

proof fn lemma_ranks_before_transitive(a: CellFreqView, b: CellFreqView, c: CellFreqView)
    requires
        ranks_before(a, b),
        ranks_before(b, c),
    ensures
        ranks_before(a, c),
{
    if a.count == b.count && b.count == c.count {
        lemma_lex_lt_transitive(a.master, b.master, c.master);
    }
}

proof fn lemma_ranks_before_total(a: CellFreqView, b: CellFreqView)
    requires
        a.master != b.master,
    ensures
        ranks_before(a, b) || ranks_before(b, a),
{
    lemma_lex_lt_total(a.master, b.master);
}

proof fn lemma_ranks_before_distinct(masters: Seq<Seq<char>>, a: CellFreqView, b: CellFreqView)
    requires
        row_counts(masters, a),
        row_counts(masters, b),
        ranks_before(a, b),
    ensures
        a.master != b.master,
{
    lemma_lex_lt_irreflexive(a.master);
}

/// The sum of the counts of `rows`.
pub open spec fn total_count(rows: Seq<CellFreqView>) -> nat
    decreases rows.len(),
{
    if rows.len() == 0 {
        0
    } else {
        total_count(rows.drop_last()) + rows.last().count
    }
}

/// The number of named (non-empty) entries of `masters`.
pub open spec fn named_count(masters: Seq<Seq<char>>) -> nat
    decreases masters.len(),
{
    if masters.len() == 0 {
        0
    } else {
        named_count(masters.drop_last()) + if masters.last().len() > 0 {
            1nat
        } else {
            0nat
        }
    }
}

spec fn occurrence_sum(masters: Seq<Seq<char>>, rows: Seq<CellFreqView>) -> nat
    decreases rows.len(),
{
    if rows.len() == 0 {
        0
    } else {
        occurrence_sum(masters, rows.drop_last()) + occurrences(masters, rows.last().master)
    }
}

spec fn hits(rows: Seq<CellFreqView>, m: Seq<char>) -> nat
    decreases rows.len(),
{
    if rows.len() == 0 {
        0
    } else {
        hits(rows.drop_last(), m) + if rows.last().master == m {
            1nat
        } else {
            0nat
        }
    }
}

proof fn lemma_hits(rows: Seq<CellFreqView>, m: Seq<char>)
    requires
        forall|a: int, b: int| 0 <= a < b < rows.len() ==> (#[trigger] rows[a]).master != (#[trigger] rows[b]).master,
    ensures
        (exists|i: int| 0 <= i < rows.len() && (#[trigger] rows[i]).master == m) ==> hits(rows, m) == 1,
        (forall|i: int| 0 <= i < rows.len() ==> (#[trigger] rows[i]).master != m) ==> hits(rows, m) == 0,
    decreases rows.len(),
{
    if rows.len() > 0 {
        let t = rows.drop_last();
        assert forall|a: int, b: int| 0 <= a < b < t.len() implies (#[trigger] t[a]).master != (#[trigger] t[b]).master by {
            assert(t[a] == rows[a] && t[b] == rows[b]);
        }
        lemma_hits(t, m);
        if rows.last().master == m {
            assert forall|i: int| 0 <= i < t.len() implies (#[trigger] t[i]).master != m by {
                assert(t[i] == rows[i]);
                assert(rows[i].master != rows[rows.len() - 1].master);
            }
        } else {
            if exists|i: int| 0 <= i < rows.len() && (#[trigger] rows[i]).master == m {
                let i = choose|i: int| 0 <= i < rows.len() && (#[trigger] rows[i]).master == m;
                assert(t[i] == rows[i]);
            }
            assert forall|i: int| 0 <= i < rows.len() && (forall|j: int| 0 <= j < rows.len() ==> (#[trigger] rows[j]).master != m) && 0 <= i < t.len() implies (#[trigger] t[i]).master != m by {
                assert(t[i] == rows[i]);
            }
        }
    }
}

proof fn lemma_occurrence_sum_step(masters: Seq<Seq<char>>, rows: Seq<CellFreqView>)
    requires
        masters.len() > 0,
    ensures
        occurrence_sum(masters, rows) == occurrence_sum(masters.drop_last(), rows) + hits(
            rows,
            masters.last(),
        ),
    decreases rows.len(),
{
    if rows.len() > 0 {
        lemma_occurrence_sum_step(masters, rows.drop_last());
    }
}

proof fn lemma_occurrence_sum_empty(masters: Seq<Seq<char>>, rows: Seq<CellFreqView>)
    requires
        masters.len() == 0,
    ensures
        occurrence_sum(masters, rows) == 0,
    decreases rows.len(),
{
    if rows.len() > 0 {
        lemma_occurrence_sum_empty(masters, rows.drop_last());
    }
}

proof fn lemma_occurrence_sum_named(masters: Seq<Seq<char>>, rows: Seq<CellFreqView>)
    requires
        forall|i: int| 0 <= i < rows.len() ==> (#[trigger] rows[i]).master.len() > 0,
        forall|a: int, b: int| 0 <= a < b < rows.len() ==> (#[trigger] rows[a]).master != (#[trigger] rows[b]).master,
        covers(masters, rows),
    ensures
        occurrence_sum(masters, rows) == named_count(masters),
    decreases masters.len(),
{
    if masters.len() == 0 {
        lemma_occurrence_sum_empty(masters, rows);
    } else {
        let t = masters.drop_last();
        let last = masters.last();
        assert forall|k: int| 0 <= k < t.len() && t[k].len() > 0 implies exists|i: int|
            0 <= i < rows.len() && (#[trigger] rows[i]).master == #[trigger] t[k] by {
            assert(t[k] == masters[k]);
        }
        lemma_occurrence_sum_named(t, rows);
        lemma_occurrence_sum_step(masters, rows);
        lemma_hits(rows, last);
        if last.len() > 0 {
            assert(masters[masters.len() - 1] == last);
        } else {
            assert forall|i: int| 0 <= i < rows.len() implies (#[trigger] rows[i]).master != last by {
                assert(rows[i].master.len() > 0);
            }
        }
    }
}

proof fn lemma_total_is_occurrence_sum(masters: Seq<Seq<char>>, rows: Seq<CellFreqView>)
    requires
        forall|i: int| 0 <= i < rows.len() ==> row_counts(masters, #[trigger] rows[i]),
    ensures
        total_count(rows) == occurrence_sum(masters, rows),
    decreases rows.len(),
{
    if rows.len() > 0 {
        let t = rows.drop_last();
        assert forall|i: int| 0 <= i < t.len() implies row_counts(masters, #[trigger] t[i]) by {
            assert(t[i] == rows[i]);
        }
        lemma_total_is_occurrence_sum(masters, t);
        assert(row_counts(masters, rows[rows.len() - 1]));
    }
}

/// The counts of a cell-frequency table add up to the number of instances that have a master
/// (all of them, when every instance has one).
pub proof fn lemma_frequency_table_total(masters: Seq<Seq<char>>, rows: Seq<CellFreqView>)
    requires
        is_frequency_table(masters, rows),
    ensures
        total_count(rows) == named_count(masters),
{
    assert forall|a: int, b: int| 0 <= a < b < rows.len() implies (#[trigger] rows[a]).master != (#[trigger] rows[b]).master by {
        lemma_ranks_before_distinct(masters, rows[a], rows[b]);
    }
    assert forall|i: int| 0 <= i < rows.len() implies (#[trigger] rows[i]).master.len() > 0 by {
        assert(row_counts(masters, rows[i]));
    }
    lemma_total_is_occurrence_sum(masters, rows);
    lemma_occurrence_sum_named(masters, rows);
}

spec fn has_master(rows: Seq<CellFreqView>, m: Seq<char>) -> bool {
    exists|i: int| 0 <= i < rows.len() && (#[trigger] rows[i]).master == m
}

proof fn lemma_sorted_rows_unique(masters: Seq<Seq<char>>, r1: Seq<CellFreqView>, r2: Seq<CellFreqView>)
    requires
        forall|i: int| 0 <= i < r1.len() ==> row_counts(masters, #[trigger] r1[i]),
        forall|i: int| 0 <= i < r2.len() ==> row_counts(masters, #[trigger] r2[i]),
        forall|i: int, j: int| 0 <= i < j < r1.len() ==> ranks_before(#[trigger] r1[i], #[trigger] r1[j]),
        forall|i: int, j: int| 0 <= i < j < r2.len() ==> ranks_before(#[trigger] r2[i], #[trigger] r2[j]),
        forall|m: Seq<char>| has_master(r1, m) <==> has_master(r2, m),
    ensures
        r1 == r2,
    decreases r1.len(),
{
    if r1.len() == 0 {
        if r2.len() > 0 {
            assert(has_master(r2, r2[0].master));
        }
        assert(r1 =~= r2);
    } else {
        assert(has_master(r1, r1[0].master));
        let b = choose|b: int| 0 <= b < r2.len() && (#[trigger] r2[b]).master == r1[0].master;
        assert(has_master(r2, r2[0].master));
        let a = choose|a: int| 0 <= a < r1.len() && (#[trigger] r1[a]).master == r2[0].master;
        assert(row_counts(masters, r1[0]) && row_counts(masters, r2[b]));
        assert(r2[b] == r1[0]);
        assert(row_counts(masters, r2[0]) && row_counts(masters, r1[a]));
        assert(r1[a] == r2[0]);
        if a > 0 && b > 0 {
            assert(ranks_before(r1[0], r1[a]));
            assert(ranks_before(r2[0], r2[b]));
            lemma_ranks_before_transitive(r1[0], r2[0], r1[0]);
            lemma_lex_lt_irreflexive(r1[0].master);
        } else if a > 0 {
            assert(r2[0] == r1[0]);
        } else if b > 0 {
            assert(r1[0] == r2[0]);
        }
        assert(r1[0] == r2[0]);
        let t1 = r1.drop_first();
        let t2 = r2.drop_first();
        assert forall|m: Seq<char>| has_master(t1, m) <==> has_master(t2, m) by {
            if has_master(t1, m) {
                let i = choose|i: int| 0 <= i < t1.len() && (#[trigger] t1[i]).master == m;
                assert(r1[i + 1] == t1[i]);
                assert(ranks_before(r1[0], r1[i + 1]));
                lemma_ranks_before_distinct(masters, r1[0], r1[i + 1]);
                assert(has_master(r1, m));
                let j = choose|j: int| 0 <= j < r2.len() && (#[trigger] r2[j]).master == m;
                assert(j != 0);
                assert(t2[j - 1] == r2[j]);
            }
            if has_master(t2, m) {
                let i = choose|i: int| 0 <= i < t2.len() && (#[trigger] t2[i]).master == m;
                assert(r2[i + 1] == t2[i]);
                assert(ranks_before(r2[0], r2[i + 1]));
                lemma_ranks_before_distinct(masters, r2[0], r2[i + 1]);
                assert(has_master(r2, m));
                let j = choose|j: int| 0 <= j < r1.len() && (#[trigger] r1[j]).master == m;
                assert(j != 0);
                assert(t1[j - 1] == r1[j]);
            }
        }
        assert forall|i: int| 0 <= i < t1.len() implies row_counts(masters, #[trigger] t1[i]) by {
            assert(t1[i] == r1[i + 1]);
        }
        assert forall|i: int| 0 <= i < t2.len() implies row_counts(masters, #[trigger] t2[i]) by {
            assert(t2[i] == r2[i + 1]);
        }
        assert forall|i: int, j: int| 0 <= i < j < t1.len() implies ranks_before(#[trigger] t1[i], #[trigger] t1[j]) by {
            assert(t1[i] == r1[i + 1] && t1[j] == r1[j + 1]);
        }
        assert forall|i: int, j: int| 0 <= i < j < t2.len() implies ranks_before(#[trigger] t2[i], #[trigger] t2[j]) by {
            assert(t2[i] == r2[i + 1] && t2[j] == r2[j + 1]);
        }
        lemma_sorted_rows_unique(masters, t1, t2);
        assert(r1 =~= seq![r1[0]] + t1);
        assert(r2 =~= seq![r2[0]] + t2);
    }
}

proof fn lemma_occurring_is_present(masters: Seq<Seq<char>>, m: Seq<char>)
    requires
        occurrences(masters, m) > 0,
    ensures
        exists|k: int| 0 <= k < masters.len() && masters[k] == m,
    decreases masters.len(),
{
    let t = masters.drop_last();
    if masters.last() == m {
        assert(masters[masters.len() - 1] == m);
    } else {
        lemma_occurring_is_present(t, m);
        let k = choose|k: int| 0 <= k < t.len() && t[k] == m;
        assert(masters[k] == t[k]);
    }
}

/// A cell-frequency table is determined by the masters it counts: two tables of the same
/// masters are the same rows in the same order.
pub proof fn lemma_frequency_table_unique(
    masters: Seq<Seq<char>>,
    r1: Seq<CellFreqView>,
    r2: Seq<CellFreqView>,
)
    requires
        is_frequency_table(masters, r1),
        is_frequency_table(masters, r2),
    ensures
        r1 == r2,
{
    assert forall|m: Seq<char>| has_master(r1, m) <==> has_master(r2, m) by {
        if has_master(r1, m) {
            let i = choose|i: int| 0 <= i < r1.len() && (#[trigger] r1[i]).master == m;
            assert(row_counts(masters, r1[i]));
            lemma_occurring_is_present(masters, r1[i].master);
            let k = choose|k: int| 0 <= k < masters.len() && masters[k] == r1[i].master;
            assert(masters[k].len() > 0);
        }
        if has_master(r2, m) {
            let i = choose|i: int| 0 <= i < r2.len() && (#[trigger] r2[i]).master == m;
            assert(row_counts(masters, r2[i]));
            lemma_occurring_is_present(masters, r2[i].master);
            let k = choose|k: int| 0 <= k < masters.len() && masters[k] == r2[i].master;
            assert(masters[k].len() > 0);
        }
    }
    lemma_sorted_rows_unique(masters, r1, r2);
}

/// The index of the row named `m`, if any.
fn find_row(rows: &Vec<CellFreq>, m: &String) -> (r: Option<usize>)
    ensures
        match r {
            Some(j) => j < rows@.len() && rows@[j as int].master@ == m@,
            None => forall|a: int| 0 <= a < rows@.len() ==> (#[trigger] rows@[a]).master@ != m@,
        },
{
    let mut j: usize = 0;
    while j < rows.len()
        invariant
            j <= rows@.len(),
            forall|a: int| 0 <= a < j ==> (#[trigger] rows@[a]).master@ != m@,
        decreases rows@.len() - j,
    {
        if rows[j].master == *m {
            return Some(j);
        }
        j = j + 1;
    }
    None
}

/// One row per named master of `masters`, with its count, in no particular order.
fn count_masters(masters: &Vec<String>) -> (rows: Vec<CellFreq>)
    ensures
        forall|a: int| 0 <= a < rows@.len() ==> row_counts(texts(masters@), #[trigger] rows@[a]@),
        forall|a: int, b: int|
            0 <= a < b < rows@.len() ==> (#[trigger] rows@[a]).master@ != (#[trigger] rows@[b]).master@,
        covers(texts(masters@), row_views(rows@)),
{
    let ghost ms = texts(masters@);
    let mut rows: Vec<CellFreq> = Vec::new();
    for i in 0..masters.len()
        invariant
            ms == texts(masters@),
            forall|a: int| 0 <= a < rows@.len() ==> row_counts(ms.take(i as int), #[trigger] rows@[a]@),
            forall|a: int, b: int|
                0 <= a < b < rows@.len() ==> (#[trigger] rows@[a]).master@ != (#[trigger] rows@[b]).master@,
            covers(ms.take(i as int), row_views(rows@)),
    {
        let m = &masters[i];
        let ghost before = rows@;
        let ghost pre = ms.take(i as int);
        let ghost post = ms.take(i + 1);
        assert(post.drop_last() =~= pre);
        assert(post.last() == m@);
        if m.as_str().unicode_len() > 0 {
            match find_row(&rows, m) {
                Some(j) => {
                    proof {
                        lemma_occurrences_bound(pre, m@);
                        assert(row_counts(pre, rows@[j as int]@));
                        assert(pre.len() == i);
                    }
                    let count = rows[j].count + 1;
                    rows.set(j, CellFreq { master: m.clone(), count });
                    assert forall|a: int| 0 <= a < rows@.len() implies row_counts(
                        post,
                        #[trigger] rows@[a]@,
                    ) by {
                        assert(row_counts(pre, before[a]@));
                    }
                    assert forall|k: int|
                        0 <= k < post.len() && post[k].len() > 0 implies exists|x: int|
                        0 <= x < row_views(rows@).len() && (#[trigger] row_views(rows@)[x]).master
                            == #[trigger] post[k] by {
                        if k < i {
                            assert(pre[k] == post[k]);
                            let x = choose|x: int|
                                0 <= x < row_views(before).len() && row_views(before)[x].master
                                    == pre[k];
                            assert(row_views(rows@)[x].master == post[k]);
                        } else {
                            assert(row_views(rows@)[j as int].master == post[k]);
                        }
                    }
                },
                None => {
                    rows.push(CellFreq { master: m.clone(), count: 1 });
                    assert forall|a: int| 0 <= a < rows@.len() implies row_counts(
                        post,
                        #[trigger] rows@[a]@,
                    ) by {
                        if a < before.len() {
                            assert(row_counts(pre, before[a]@));
                        } else {
                            assert(occurrences(pre, m@) == 0) by {
                                lemma_absent_occurrences(pre, m@, row_views(before));
                            }
                        }
                    }
                    assert forall|k: int|
                        0 <= k < post.len() && post[k].len() > 0 implies exists|x: int|
                        0 <= x < row_views(rows@).len() && (#[trigger] row_views(rows@)[x]).master
                            == #[trigger] post[k] by {
                        if k < i {
                            assert(pre[k] == post[k]);
                            let x = choose|x: int|
                                0 <= x < row_views(before).len() && row_views(before)[x].master
                                    == pre[k];
                            assert(row_views(rows@)[x].master == post[k]);
                        } else {
                            assert(row_views(rows@)[before.len() as int].master == post[k]);
                        }
                    }
                },
            }
        } else {
            assert forall|a: int| 0 <= a < rows@.len() implies row_counts(post, #[trigger] rows@[a]@) by {
                assert(row_counts(pre, rows@[a]@));
            }
            assert forall|k: int|
                0 <= k < post.len() && post[k].len() > 0 implies exists|x: int|
                0 <= x < row_views(rows@).len() && (#[trigger] row_views(rows@)[x]).master
                    == #[trigger] post[k] by {
                assert(pre[k] == post[k]);
            }
        }
    }
    assert(ms.take(masters@.len() as int) =~= ms);
    rows
}

proof fn lemma_absent_occurrences(s: Seq<Seq<char>>, m: Seq<char>, rows: Seq<CellFreqView>)
    requires
        m.len() > 0,
        covers(s, rows),
        forall|a: int| 0 <= a < rows.len() ==> (#[trigger] rows[a]).master != m,
    ensures
        occurrences(s, m) == 0,
    decreases s.len(),
{
    if s.len() > 0 {
        let t = s.drop_last();
        assert forall|k: int| 0 <= k < t.len() && t[k].len() > 0 implies exists|i: int|
            0 <= i < rows.len() && (#[trigger] rows[i]).master == #[trigger] t[k] by {
            assert(s[k] == t[k]);
        }
        lemma_absent_occurrences(t, m, rows);
        if s.last() == m {
            assert(s[s.len() - 1].len() > 0);
        }
    }
}

/// Whether row `a` is listed before row `b`.
fn ranks_first(a: &CellFreq, b: &CellFreq) -> (r: bool)
    ensures
        r == ranks_before(a@, b@),
{
    a.count > b.count || (a.count == b.count && lex_less(a.master.as_str(), b.master.as_str()))
}

/// The index of the row that is listed before every other one.
fn first_row(pool: &Vec<CellFreq>) -> (best: usize)
    requires
        pool@.len() > 0,
        forall|a: int, b: int|
            0 <= a < b < pool@.len() ==> (#[trigger] pool@[a]).master@ != (#[trigger] pool@[b]).master@,
    ensures
        best < pool@.len(),
        forall|t: int| 0 <= t < pool@.len() && t != best ==> ranks_before(pool@[best as int]@, #[trigger] pool@[t]@),
{
    let mut best: usize = 0;
    let mut j: usize = 1;
    while j < pool.len()
        invariant
            1 <= j <= pool@.len(),
            best < j,
            forall|a: int, b: int|
                0 <= a < b < pool@.len() ==> (#[trigger] pool@[a]).master@ != (#[trigger] pool@[b]).master@,
            forall|t: int| 0 <= t < j && t != best ==> ranks_before(pool@[best as int]@, #[trigger] pool@[t]@),
        decreases pool@.len() - j,
    {
        if ranks_first(&pool[j], &pool[best]) {
            assert forall|t: int| 0 <= t < j + 1 && t != j implies ranks_before(
                pool@[j as int]@,
                #[trigger] pool@[t]@,
            ) by {
                if t != best {
                    lemma_ranks_before_transitive(pool@[j as int]@, pool@[best as int]@, pool@[t]@);
                }
            }
            best = j;
        } else {
            proof {
                lemma_ranks_before_total(pool@[best as int]@, pool@[j as int]@);
            }
        }
        j = j + 1;
    }
    best
}

/// `CellFrequencyTables`: given the master name of every instance (empty for an instance
/// without one), one row per master with the number of instances using it, most-used first,
/// ties by name.
pub fn cell_frequency_table(masters: &Vec<String>) -> (rows: Vec<CellFreq>)
    ensures
        is_frequency_table(texts(masters@), row_views(rows@)),
        forall|i: int, j: int|
            0 <= i < j < rows@.len() ==> (#[trigger] rows@[i]).count > (#[trigger] rows@[j]).count || (
            rows@[i].count == rows@[j].count && lex_lt(rows@[i].master@, rows@[j].master@)),
        forall|i: int|
            0 <= i < rows@.len() ==> (#[trigger] rows@[i]).count as nat == occurrences(
                texts(masters@),
                rows@[i].master@,
            ) && rows@[i].count > 0 && rows@[i].master@.len() > 0,
{
    let rows = sorted_frequency_rows(masters);
    proof {
        let v = row_views(rows@);
        assert forall|i: int, j: int| 0 <= i < j < rows@.len() implies (#[trigger] rows@[i]).count > (
        #[trigger] rows@[j]).count || (rows@[i].count == rows@[j].count && lex_lt(
            rows@[i].master@,
            rows@[j].master@,
        )) by {
            assert(ranks_before(v[i], v[j]));
        }
        assert forall|i: int| 0 <= i < rows@.len() implies (#[trigger] rows@[i]).count as nat == occurrences(
            texts(masters@),
            rows@[i].master@,
        ) && rows@[i].count > 0 && rows@[i].master@.len() > 0 by {
            assert(row_counts(texts(masters@), v[i]));
        }
    }
    rows
}

fn sorted_frequency_rows(masters: &Vec<String>) -> (rows: Vec<CellFreq>)
    ensures
        is_frequency_table(texts(masters@), row_views(rows@)),
{
    let ghost ms = texts(masters@);
    let mut pool = count_masters(masters);
    let mut out: Vec<CellFreq> = Vec::new();
    while pool.len() > 0
        invariant
            ms == texts(masters@),
            forall|a: int| 0 <= a < out@.len() ==> row_counts(ms, #[trigger] out@[a]@),
            forall|p: int| 0 <= p < pool@.len() ==> row_counts(ms, #[trigger] pool@[p]@),
            forall|a: int, b: int|
                0 <= a < b < pool@.len() ==> (#[trigger] pool@[a]).master@ != (#[trigger] pool@[b]).master@,
            forall|a: int, b: int| 0 <= a < b < out@.len() ==> ranks_before(#[trigger] out@[a]@, #[trigger] out@[b]@),
            forall|a: int, p: int|
                0 <= a < out@.len() && 0 <= p < pool@.len() ==> ranks_before(#[trigger] out@[a]@, #[trigger] pool@[p]@),
            forall|k: int|
                0 <= k < ms.len() && ms[k].len() > 0 ==> (exists|a: int|
                    0 <= a < out@.len() && (#[trigger] out@[a]).master@ == ms[k]) || (exists|p: int|
                    0 <= p < pool@.len() && (#[trigger] pool@[p]).master@ == ms[k]),
        decreases pool@.len(),
    {
        let ghost out0 = out@;
        let ghost pool0 = pool@;
        let best = first_row(&pool);
        let x = pool.remove(best);
        out.push(x);
        assert(pool@ =~= pool0.remove(best as int));
        assert forall|a: int, b: int|
            0 <= a < b < pool@.len() implies (#[trigger] pool@[a]).master@ != (#[trigger] pool@[b]).master@ by {
            let a0 = if a < best { a } else { a + 1 };
            let b0 = if b < best { b } else { b + 1 };
            assert(pool@[a] == pool0[a0]);
            assert(pool@[b] == pool0[b0]);
        }
        assert forall|p: int| 0 <= p < pool@.len() implies row_counts(ms, #[trigger] pool@[p]@) by {
            let p0 = if p < best { p } else { p + 1 };
            assert(pool@[p] == pool0[p0]);
        }
        assert forall|a: int, p: int|
            0 <= a < out@.len() && 0 <= p < pool@.len() implies ranks_before(
            #[trigger] out@[a]@,
            #[trigger] pool@[p]@,
        ) by {
            let p0 = if p < best { p } else { p + 1 };
            assert(pool@[p] == pool0[p0]);
            if a < out0.len() {
                assert(out@[a] == out0[a]);
            }
        }
        assert forall|a: int, b: int| 0 <= a < b < out@.len() implies ranks_before(
            #[trigger] out@[a]@,
            #[trigger] out@[b]@,
        ) by {
            assert(out@[a] == out0[a]);
            if b < out0.len() {
                assert(out@[b] == out0[b]);
            }
        }
        assert forall|k: int|
            0 <= k < ms.len() && ms[k].len() > 0 implies (exists|a: int|
                0 <= a < out@.len() && (#[trigger] out@[a]).master@ == ms[k]) || (exists|p: int|
                0 <= p < pool@.len() && (#[trigger] pool@[p]).master@ == ms[k]) by {
            if exists|a: int| 0 <= a < out0.len() && (#[trigger] out0[a]).master@ == ms[k] {
                let a = choose|a: int| 0 <= a < out0.len() && (#[trigger] out0[a]).master@ == ms[k];
                assert(out@[a] == out0[a]);
            } else {
                let p0 = choose|p: int| 0 <= p < pool0.len() && (#[trigger] pool0[p]).master@ == ms[k];
                if p0 == best {
                    assert(out@[out0.len() as int] == pool0[p0]);
                } else if p0 < best {
                    assert(pool@[p0] == pool0[p0]);
                } else {
                    assert(pool@[p0 - 1] == pool0[p0]);
                }
            }
        }
    }
    assert forall|k: int|
        0 <= k < ms.len() && ms[k].len() > 0 implies exists|i: int|
        0 <= i < row_views(out@).len() && (#[trigger] row_views(out@)[i]).master == #[trigger] ms[k] by {
        let a = choose|a: int| 0 <= a < out@.len() && (#[trigger] out@[a]).master@ == ms[k];
        assert(row_views(out@)[a].master == ms[k]);
    }
    out
}

} // verus!

verus! {

/// A pin (or port) and the name of the net on it, empty when it has none.
#[derive(Debug, Clone, PartialEq, Eq)]
pub struct PinNet {
    pub pin: String,
    pub net: String,
}

/// An instance and the nets on its pins, in pin order.
#[derive(Debug, Clone, PartialEq, Eq)]
pub struct InstPins {
    pub inst: String,
    pub pins: Vec<PinNet>,
}

/// A [`PinNet`] as contracts see it.
pub struct PinNetView {
    pub pin: Seq<char>,
    pub net: Seq<char>,
}

impl View for PinNet {
    type V = PinNetView;

    open spec fn view(&self) -> PinNetView {
        PinNetView { pin: self.pin@, net: self.net@ }
    }
}

/// The views of a sequence of pins.
pub open spec fn pin_views(pins: Seq<PinNet>) -> Seq<PinNetView> {
    pins.map_values(|p: PinNet| p@)
}

/// The entries `{inst}/{pin}` for the pins of `inst` without a net, in pin order.
pub open spec fn unconnected_pins(inst: Seq<char>, pins: Seq<PinNetView>) -> Seq<Seq<char>>
    decreases pins.len(),
{
    if pins.len() == 0 {
        Seq::empty()
    } else {
        unconnected_pins(inst, pins.drop_last()) + if pins.last().net.len() == 0 {
            seq![inst + "/"@ + pins.last().pin]
        } else {
            Seq::empty()
        }
    }
}

/// The entries for the instances `insts`, in instance order.
pub open spec fn unconnected_inst_pins(insts: Seq<InstPins>) -> Seq<Seq<char>>
    decreases insts.len(),
{
    if insts.len() == 0 {
        Seq::empty()
    } else {
        unconnected_inst_pins(insts.drop_last()) + unconnected_pins(
            insts.last().inst@,
            pin_views(insts.last().pins@),
        )
    }
}

/// The entries `port:{name}` for the ports without a net, in port order.
pub open spec fn unconnected_ports(ports: Seq<PinNetView>) -> Seq<Seq<char>>
    decreases ports.len(),
{
    if ports.len() == 0 {
        Seq::empty()
    } else {
        unconnected_ports(ports.drop_last()) + if ports.last().net.len() == 0 {
            seq!["port:"@ + ports.last().pin]
        } else {
            Seq::empty()
        }
    }
}

proof fn lemma_unconnected_pin_entry(inst: Seq<char>, pins: Seq<PinNetView>, e: Seq<char>)
    requires
        unconnected_pins(inst, pins).contains(e),
    ensures
        exists|j: int| 0 <= j < pins.len() && (#[trigger] pins[j]).net.len() == 0 && e == inst + "/"@ + pins[j].pin,
    decreases pins.len(),
{
    let t = pins.drop_last();
    let k = choose|k: int| 0 <= k < unconnected_pins(inst, pins).len() && unconnected_pins(inst, pins)[k] == e;
    if k < unconnected_pins(inst, t).len() {
        assert(unconnected_pins(inst, t)[k] == e);
        lemma_unconnected_pin_entry(inst, t, e);
        let j = choose|j: int| 0 <= j < t.len() && (#[trigger] t[j]).net.len() == 0 && e == inst + "/"@ + t[j].pin;
        assert(pins[j] == t[j]);
    } else {
        assert(pins[pins.len() - 1] == pins.last());
    }
}

/// Every instance pin the report lists as `inst/pin` is a pin of that instance that has no
/// net.
pub proof fn lemma_reported_pins_lack_a_net(insts: Seq<InstPins>, e: Seq<char>)
    requires
        unconnected_inst_pins(insts).contains(e),
    ensures
        exists|i: int, j: int|
            0 <= i < insts.len() && 0 <= j < insts[i].pins@.len()
                && (#[trigger] insts[i].pins@[j]).net@.len() == 0
                && e == insts[i].inst@ + "/"@ + insts[i].pins@[j].pin@,
    decreases insts.len(),
{
    let t = insts.drop_last();
    let whole = unconnected_inst_pins(insts);
    let k = choose|k: int| 0 <= k < whole.len() && whole[k] == e;
    if k < unconnected_inst_pins(t).len() {
        assert(unconnected_inst_pins(t)[k] == e);
        lemma_reported_pins_lack_a_net(t, e);
        let (i, j) = choose|i: int, j: int|
            0 <= i < t.len() && 0 <= j < t[i].pins@.len() && (#[trigger] t[i].pins@[j]).net@.len() == 0
                && e == t[i].inst@ + "/"@ + t[i].pins@[j].pin@;
        assert(insts[i] == t[i]);
    } else {
        let last = insts.last();
        let pins = pin_views(last.pins@);
        assert(unconnected_pins(last.inst@, pins)[k - unconnected_inst_pins(t).len()] == e);
        lemma_unconnected_pin_entry(last.inst@, pins, e);
        let j = choose|j: int| 0 <= j < pins.len() && (#[trigger] pins[j]).net.len() == 0 && e == last.inst@ + "/"@ + pins[j].pin;
        let i = insts.len() - 1;
        assert(insts[i] == last);
        assert(insts[i].pins@[j]@ == pins[j]);
    }
}

proof fn lemma_unconnected_pin_listed(inst: Seq<char>, pins: Seq<PinNetView>, j: int)
    requires
        0 <= j < pins.len(),
        pins[j].net.len() == 0,
    ensures
        unconnected_pins(inst, pins).contains(inst + "/"@ + pins[j].pin),
    decreases pins.len(),
{
    let t = pins.drop_last();
    let e = inst + "/"@ + pins[j].pin;
    if j == pins.len() - 1 {
        let r = unconnected_pins(inst, pins);
        assert(r[r.len() - 1] == e);
    } else {
        assert(t[j] == pins[j]);
        lemma_unconnected_pin_listed(inst, t, j);
        let k = choose|k: int| 0 <= k < unconnected_pins(inst, t).len() && unconnected_pins(inst, t)[k] == e;
        assert(unconnected_pins(inst, pins)[k] == e);
    }
}

/// Every pin of every instance that has no net is reported, as `inst/pin`.
pub proof fn lemma_unconnected_pins_all_reported(insts: Seq<InstPins>, i: int, j: int)
    requires
        0 <= i < insts.len(),
        0 <= j < insts[i].pins@.len(),
        insts[i].pins@[j].net@.len() == 0,
    ensures
        unconnected_inst_pins(insts).contains(insts[i].inst@ + "/"@ + insts[i].pins@[j].pin@),
    decreases insts.len(),
{
    let t = insts.drop_last();
    let e = insts[i].inst@ + "/"@ + insts[i].pins@[j].pin@;
    if i == insts.len() - 1 {
        let pins = pin_views(insts.last().pins@);
        assert(pins[j] == insts[i].pins@[j]@);
        lemma_unconnected_pin_listed(insts.last().inst@, pins, j);
        let k = choose|k: int| 0 <= k < unconnected_pins(insts.last().inst@, pins).len()
            && unconnected_pins(insts.last().inst@, pins)[k] == e;
        assert(unconnected_inst_pins(insts)[unconnected_inst_pins(t).len() + k] == e);
    } else {
        assert(t[i] == insts[i]);
        lemma_unconnected_pins_all_reported(t, i, j);
        let k = choose|k: int| 0 <= k < unconnected_inst_pins(t).len() && unconnected_inst_pins(t)[k] == e;
        assert(unconnected_inst_pins(insts)[k] == e);
    }
}

/// Every port that has no net is reported, as `port:name`.
pub proof fn lemma_unconnected_ports_all_reported(ports: Seq<PinNetView>, k: int)
    requires
        0 <= k < ports.len(),
        ports[k].net.len() == 0,
    ensures
        unconnected_ports(ports).contains("port:"@ + ports[k].pin),
    decreases ports.len(),
{
    let t = ports.drop_last();
    let e = "port:"@ + ports[k].pin;
    if k == ports.len() - 1 {
        let r = unconnected_ports(ports);
        assert(r[r.len() - 1] == e);
    } else {
        assert(t[k] == ports[k]);
        lemma_unconnected_ports_all_reported(t, k);
        let x = choose|x: int| 0 <= x < unconnected_ports(t).len() && unconnected_ports(t)[x] == e;
        assert(unconnected_ports(ports)[x] == e);
    }
}

/// The pins (or ports) of `pins` that have no net.
pub open spec fn without_net(pins: Seq<PinNetView>) -> Seq<PinNetView> {
    pins.filter(|p: PinNetView| p.net.len() == 0)
}

/// The number of instance pins of `insts` that have no net.
pub open spec fn unconnected_pin_count(insts: Seq<InstPins>) -> nat
    decreases insts.len(),
{
    if insts.len() == 0 {
        0
    } else {
        unconnected_pin_count(insts.drop_last()) + without_net(pin_views(insts.last().pins@)).len()
    }
}

proof fn lemma_unconnected_pins_len(inst: Seq<char>, pins: Seq<PinNetView>)
    ensures
        unconnected_pins(inst, pins).len() == without_net(pins).len(),
    decreases pins.len(),
{
    reveal(Seq::filter);
    if pins.len() > 0 {
        lemma_unconnected_pins_len(inst, pins.drop_last());
    }
}

proof fn lemma_unconnected_ports_len(ports: Seq<PinNetView>)
    ensures
        unconnected_ports(ports).len() == without_net(ports).len(),
    decreases ports.len(),
{
    reveal(Seq::filter);
    if ports.len() > 0 {
        lemma_unconnected_ports_len(ports.drop_last());
    }
}

/// The report has exactly one entry per instance pin without a net plus one per port without a
/// net: nothing is listed twice and nothing else is listed.
pub proof fn lemma_report_size(insts: Seq<InstPins>, ports: Seq<PinNetView>)
    ensures
        (unconnected_inst_pins(insts) + unconnected_ports(ports)).len() == unconnected_pin_count(insts)
            + without_net(ports).len(),
    decreases insts.len(),
{
    lemma_unconnected_ports_len(ports);
    if insts.len() > 0 {
        lemma_report_size(insts.drop_last(), ports);
        lemma_unconnected_pins_len(insts.last().inst@, pin_views(insts.last().pins@));
    }
}

/// `ReportDisconnectedPins`: every instance pin (`inst/pin`) and then every port
/// (`port:name`) that has no net, in the order they were read.
pub fn disconnected_pins(insts: &[InstPins], ports: &[PinNet]) -> (out: Vec<String>)
    ensures
        texts(out@) == unconnected_inst_pins(insts@) + unconnected_ports(pin_views(ports@)),
        forall|i: int, j: int|
            0 <= i < insts@.len() && 0 <= j < insts@[i].pins@.len() && (#[trigger] insts@[i].pins@[j]).net@.len()
                == 0 ==> texts(out@).contains(insts@[i].inst@ + "/"@ + insts@[i].pins@[j].pin@),
        forall|k: int|
            0 <= k < ports@.len() && (#[trigger] ports@[k]).net@.len() == 0 ==> texts(out@).contains(
                "port:"@ + ports@[k].pin@,
            ),
        out@.len() == unconnected_pin_count(insts@) + without_net(pin_views(ports@)).len(),
{
    let out = collect_disconnected(insts, ports);
    proof {
        lemma_report_size(insts@, pin_views(ports@));
        let a = unconnected_inst_pins(insts@);
        let b = unconnected_ports(pin_views(ports@));
        assert forall|i: int, j: int|
            0 <= i < insts@.len() && 0 <= j < insts@[i].pins@.len() && (#[trigger] insts@[i].pins@[j]).net@.len()
                == 0 implies texts(out@).contains(insts@[i].inst@ + "/"@ + insts@[i].pins@[j].pin@) by {
            lemma_unconnected_pins_all_reported(insts@, i, j);
            let x = choose|x: int| 0 <= x < a.len() && a[x] == insts@[i].inst@ + "/"@ + insts@[i].pins@[j].pin@;
            assert((a + b)[x] == a[x]);
        }
        assert forall|k: int|
            0 <= k < ports@.len() && (#[trigger] ports@[k]).net@.len() == 0 implies texts(out@).contains(
                "port:"@ + ports@[k].pin@,
            ) by {
            assert(pin_views(ports@)[k] == ports@[k]@);
            lemma_unconnected_ports_all_reported(pin_views(ports@), k);
            let x = choose|x: int| 0 <= x < b.len() && b[x] == "port:"@ + ports@[k].pin@;
            assert((a + b)[a.len() + x] == b[x]);
        }
    }
    out
}

fn collect_disconnected(insts: &[InstPins], ports: &[PinNet]) -> (out: Vec<String>)
    ensures
        texts(out@) == unconnected_inst_pins(insts@) + unconnected_ports(pin_views(ports@)),
{
    let mut out: Vec<String> = Vec::new();
    for i in 0..insts.len()
        invariant
            texts(out@) == unconnected_inst_pins(insts@.take(i as int)),
    {
        let inst = &insts[i];
        let ghost before = texts(out@);
        for j in 0..inst.pins.len()
            invariant
                texts(out@) == before + unconnected_pins(inst.inst@, pin_views(inst.pins@.take(j as int))),
        {
            let p = &inst.pins[j];
            let ghost mid = texts(out@);
            assert(pin_views(inst.pins@.take(j + 1)).drop_last() =~= pin_views(inst.pins@.take(j as int)));
            if p.net.as_str().unicode_len() == 0 {
                let mut e = inst.inst.clone();
                e.append("/");
                e.append(p.pin.as_str());
                out.push(e);
                assert(texts(out@) =~= mid.push(e@));
            }
            assert(texts(out@) =~= before + unconnected_pins(inst.inst@, pin_views(inst.pins@.take(j + 1))));
        }
        assert(inst.pins@.take(inst.pins@.len() as int) =~= inst.pins@);
        assert(insts@.take(i + 1).drop_last() =~= insts@.take(i as int));
        assert(texts(out@) =~= unconnected_inst_pins(insts@.take(i + 1)));
    }
    assert(insts@.take(insts@.len() as int) =~= insts@);
    let ghost inst_part = texts(out@);
    for k in 0..ports.len()
        invariant
            inst_part == unconnected_inst_pins(insts@),
            texts(out@) == inst_part + unconnected_ports(pin_views(ports@.take(k as int))),
    {
        let p = &ports[k];
        let ghost mid = texts(out@);
        assert(pin_views(ports@.take(k + 1)).drop_last() =~= pin_views(ports@.take(k as int)));
        if p.net.as_str().unicode_len() == 0 {
            let mut e = String::from_str("port:");
            e.append(p.pin.as_str());
            out.push(e);
            assert(texts(out@) =~= mid.push(e@));
        }
        assert(texts(out@) =~= inst_part + unconnected_ports(pin_views(ports@.take(k + 1))));
    }
    assert(ports@.take(ports@.len() as int) =~= ports@);
    out
}

} // verus!

verus! {

/// A port of the block and its direction as the database spells it (`INPUT`, `OUTPUT`, ...).
#[derive(Debug, Clone, PartialEq, Eq)]
pub struct PortDir {
    pub name: String,
    pub direction: String,
}

/// The Verilog keyword for a port direction: `input`, `output`, and `inout` for anything else.
pub open spec fn direction_keyword(direction: Seq<char>) -> Seq<char> {
    if direction == "INPUT"@ {
        "input"@
    } else if direction == "OUTPUT"@ {
        "output"@
    } else {
        "inout"@
    }
}

/// A port is declared `input` exactly when its direction is `INPUT`, `output` exactly when it
/// is `OUTPUT`, and `inout` otherwise.
pub proof fn lemma_direction_keyword(direction: Seq<char>)
    ensures
        (direction_keyword(direction) == "input"@) <==> (direction == "INPUT"@),
        (direction_keyword(direction) == "output"@) <==> (direction == "OUTPUT"@),
        (direction_keyword(direction) == "inout"@) <==> (direction != "INPUT"@ && direction != "OUTPUT"@),
{
    reveal_strlit("input");
    reveal_strlit("output");
    reveal_strlit("inout");
    reveal_strlit("INPUT");
    reveal_strlit("OUTPUT");
    assert("input"@ != "inout"@) by {
        assert("input"@[2] != "inout"@[2]);
    }
    assert("input"@.len() != "output"@.len() && "inout"@.len() != "output"@.len());
    assert("INPUT"@.len() != "OUTPUT"@.len());
}

/// The port list lines of the header for the first `k` ports: `  {name},` each, the last
/// port of all without the comma.
pub open spec fn port_list(ports: Seq<PortDir>, k: int) -> Seq<char>
    decreases k,
{
    if k <= 0 {
        Seq::empty()
    } else {
        port_list(ports, k - 1) + "  "@ + ports[k - 1].name@ + (if k < ports.len() {
            ","@
        } else {
            ""@
        }) + "\n"@
    }
}

/// The declaration lines of the header for the first `k` ports: `  {direction} {name};`.
pub open spec fn port_decls(ports: Seq<PortDir>, k: int) -> Seq<char>
    decreases k,
{
    if k <= 0 {
        Seq::empty()
    } else {
        port_decls(ports, k - 1) + "  "@ + direction_keyword(ports[k - 1].direction@) + " "@
            + ports[k - 1].name@ + ";\n"@
    }
}

/// The Verilog module header of block `block` with ports `ports`: the module line, the port
/// list, the direction declarations and `endmodule` (no cell instantiations).
pub open spec fn verilog_header_text(block: Seq<char>, ports: Seq<PortDir>) -> Seq<char> {
    "module "@ + block + " (\n"@ + port_list(ports, ports.len() as int) + ");\n"@ + port_decls(
        ports,
        ports.len() as int,
    ) + "endmodule\n"@
}

/// `parts` joined with `sep` between each two consecutive parts.
pub open spec fn join_with(parts: Seq<Seq<char>>, sep: Seq<char>) -> Seq<char>
    decreases parts.len(),
{
    if parts.len() == 0 {
        Seq::empty()
    } else if parts.len() == 1 {
        parts[0]
    } else {
        join_with(parts.drop_last(), sep) + sep + parts.last()
    }
}

/// The names of `ports`, in order.
pub open spec fn port_names(ports: Seq<PortDir>) -> Seq<Seq<char>> {
    ports.map_values(|p: PortDir| p.name@)
}

/// The declaration line of each port: `  {direction} {name};` and a line break.
pub open spec fn decl_lines(ports: Seq<PortDir>) -> Seq<Seq<char>> {
    ports.map_values(|p: PortDir| "  "@ + direction_keyword(p.direction@) + " "@ + p.name@ + ";\n"@)
}

proof fn lemma_port_list_prefix(ports: Seq<PortDir>, k: int)
    requires
        1 <= k <= ports.len(),
    ensures
        port_list(ports, k) == "  "@ + join_with(port_names(ports).take(k), ",\n  "@) + (if k < ports.len() {
            ","@
        } else {
            ""@
        }) + "\n"@,
    decreases k,
{
    reveal_strlit(",\n  ");
    reveal_strlit(",");
    reveal_strlit("\n");
    reveal_strlit("  ");
    reveal_strlit("");
    let names = port_names(ports);
    if k == 1 {
        assert(port_list(ports, 0) =~= Seq::<char>::empty());
        assert(names.take(1) =~= seq![ports[0].name@]);
        assert(port_list(ports, 1) =~= "  "@ + join_with(names.take(1), ",\n  "@) + (if 1 < ports.len() {
            ","@
        } else {
            ""@
        }) + "\n"@);
    } else {
        lemma_port_list_prefix(ports, k - 1);
        assert(names.take(k).drop_last() =~= names.take(k - 1));
        assert(names.take(k).last() == ports[k - 1].name@);
        assert(",\n  "@ =~= ","@ + "\n"@ + "  "@);
        assert(port_list(ports, k) =~= "  "@ + join_with(names.take(k), ",\n  "@) + (if k < ports.len() {
            ","@
        } else {
            ""@
        }) + "\n"@);
    }
}

/// The port list of the header is the port names joined by `,` and a line break, each indented
/// by two spaces: every port but the last is followed by a comma; with no ports it is empty.
pub proof fn lemma_port_list_joins_names(ports: Seq<PortDir>)
    ensures
        port_list(ports, ports.len() as int) == if ports.len() == 0 {
            Seq::empty()
        } else {
            "  "@ + join_with(port_names(ports), ",\n  "@) + "\n"@
        },
{
    reveal_strlit("");
    if ports.len() > 0 {
        lemma_port_list_prefix(ports, ports.len() as int);
        assert(port_names(ports).take(ports.len() as int) =~= port_names(ports));
        let j = join_with(port_names(ports), ",\n  "@);
        assert("  "@ + j + ""@ + "\n"@ =~= "  "@ + j + "\n"@);
    }
}

proof fn lemma_port_decls_prefix(ports: Seq<PortDir>, k: int)
    requires
        0 <= k <= ports.len(),
    ensures
        port_decls(ports, k) == join_with(decl_lines(ports).take(k), ""@),
    decreases k,
{
    reveal_strlit("");
    let lines = decl_lines(ports);
    if k == 0 {
        assert(lines.take(0) =~= Seq::<Seq<char>>::empty());
        assert(port_decls(ports, 0) =~= Seq::<char>::empty());
    } else {
        lemma_port_decls_prefix(ports, k - 1);
        assert(lines.take(k).drop_last() =~= lines.take(k - 1));
        assert(lines.take(k).last() == lines[k - 1]);
        if k == 1 {
            assert(lines.take(1) =~= seq![lines[0]]);
            assert(port_decls(ports, 0) =~= Seq::<char>::empty());
            assert(port_decls(ports, 1) =~= lines[0]);
        } else {
            assert(port_decls(ports, k) =~= join_with(lines.take(k), ""@));
        }
    }
}

/// The declarations of the header are one line per port, in port order:
/// `  {direction} {name};`, the direction being `input`, `output` or `inout`.
pub proof fn lemma_port_decls_one_line_per_port(ports: Seq<PortDir>)
    ensures
        port_decls(ports, ports.len() as int) == join_with(decl_lines(ports), ""@),
{
    lemma_port_decls_prefix(ports, ports.len() as int);
    assert(decl_lines(ports).take(ports.len() as int) =~= decl_lines(ports));
}

/// `WriteVerilogHeader`: the Verilog module header built from the block name and its ports
/// with their directions.
pub fn verilog_header(block: &str, ports: &[PortDir]) -> (v: String)
    ensures
        v@ == verilog_header_text(block@, ports@),
        v@ == "module "@ + block@ + " (\n"@ + (if ports@.len() == 0 {
            Seq::empty()
        } else {
            "  "@ + join_with(port_names(ports@), ",\n  "@) + "\n"@
        }) + ");\n"@ + join_with(decl_lines(ports@), ""@) + "endmodule\n"@,
{
    proof {
        lemma_port_list_joins_names(ports@);
        lemma_port_decls_one_line_per_port(ports@);
    }
    let n = ports.len();
    let mut v = String::from_str("module ");
    v.append(block);
    v.append(" (\n");
    let ghost head = v@;
    for i in 0..n
        invariant
            n == ports@.len(),
            v@ == head + port_list(ports@, i as int),
    {
        v.append("  ");
        v.append(ports[i].name.as_str());
        let comma = if i + 1 < n {
            ","
        } else {
            ""
        };
        v.append(comma);
        v.append("\n");
    }
    v.append(");\n");
    let ghost mid = v@;
    for i in 0..n
        invariant
            n == ports@.len(),
            v@ == mid + port_decls(ports@, i as int),
    {
        let d = ports[i].direction.as_str();
        let keyword = if is_text(d, "INPUT") {
            "input"
        } else if is_text(d, "OUTPUT") {
            "output"
        } else {
            "inout"
        };
        v.append("  ");
        v.append(keyword);
        v.append(" ");
        v.append(ports[i].name.as_str());
        v.append(";\n");
    }
    v.append("endmodule\n");
    v
}

} // verus!
