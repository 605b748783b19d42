use vstd::multiset::Multiset;
use vstd::prelude::*;

use crate::answer::{Answer, Score};
use crate::code::code_of;
use crate::ledger::batch_view;

verus! {

/// The answers given at facet position `i` over all batches; a batch too short
/// to reach position `i` contributes nothing.
pub open spec fn column(b: Seq<Seq<Score>>, i: int) -> Multiset<Answer>
    decreases b.len(),
{
    if b.len() == 0 {
        Multiset::empty()
    } else {
        let rest = column(b.drop_last(), i);
        if 0 <= i < b.last().len() {
            rest.insert(b.last()[i].value)
        } else {
            rest
        }
    }
}

/// The pair (answers `A`, answers `B`) at facet position `i`.
pub open spec fn raw_tally(b: Seq<Seq<Score>>, i: int) -> (int, int) {
    (column(b, i).count(Answer::A) as int, column(b, i).count(Answer::B) as int)
}

/// Pairwise sum of two tallies.
pub open spec fn pair_sum(p: (int, int), q: (int, int)) -> (int, int) {
    (p.0 + q.0, p.1 + q.1)
}

/// The ten tallies: the seven facet positions, with each of the pairs
/// (1, 2), (3, 4) and (5, 6) followed by its combined tally.
pub open spec fn tallies(b: Seq<Seq<Score>>) -> Seq<(int, int)> {
    seq![
        raw_tally(b, 0),
        raw_tally(b, 1),
        raw_tally(b, 2),
        pair_sum(raw_tally(b, 2), raw_tally(b, 1)),
        raw_tally(b, 3),
        raw_tally(b, 4),
        pair_sum(raw_tally(b, 4), raw_tally(b, 3)),
        raw_tally(b, 5),
        raw_tally(b, 6),
        pair_sum(raw_tally(b, 6), raw_tally(b, 5)),
    ]
}

/// The tallies of a vector, as pairs of integers.
pub open spec fn pairs_view(r: Seq<(usize, usize)>) -> Seq<(int, int)> {
    r.map_values(|p: (usize, usize)| (p.0 as int, p.1 as int))
}

/// When every batch is full and every answer is the same, each facet position
/// counts one answer per batch for that side and none for the other, and the
/// combined tallies count two per batch.
pub proof fn lemma_uniform_tallies(b: Seq<Seq<Score>>, a: Answer)
    requires
        forall|k: int| 0 <= k < b.len() ==> (#[trigger] b[k]).len() == 7,
        forall|k: int, j: int| 0 <= k < b.len() && 0 <= j < 7 ==> (#[trigger] b[k][j]).value == a,
    ensures
        ({
            let n = b.len() as int;
            let one = if a == Answer::A { (n, 0int) } else { (0int, n) };
            let two = if a == Answer::A { (2 * n, 0int) } else { (0int, 2 * n) };
            tallies(b) == seq![one, one, one, two, one, one, two, one, one, two]
        }),
{
    assert forall|i: int| 0 <= i < 7 implies #[trigger] raw_tally(b, i) == (if a == Answer::A {
        (b.len() as int, 0int)
    } else {
        (0int, b.len() as int)
    }) by {
        lemma_uniform_column(b, a, i);
    }
    let n = b.len() as int;
    let one = if a == Answer::A { (n, 0int) } else { (0int, n) };
    let two = if a == Answer::A { (2 * n, 0int) } else { (0int, 2 * n) };
    assert(raw_tally(b, 0) == one && raw_tally(b, 1) == one && raw_tally(b, 2) == one);
    assert(raw_tally(b, 3) == one && raw_tally(b, 4) == one);
    assert(raw_tally(b, 5) == one && raw_tally(b, 6) == one);
    assert(tallies(b) =~= seq![one, one, one, two, one, one, two, one, one, two]);
}

proof fn lemma_uniform_column(b: Seq<Seq<Score>>, a: Answer, i: int)
    requires
        0 <= i < 7,
        forall|k: int| 0 <= k < b.len() ==> (#[trigger] b[k]).len() == 7,
        forall|k: int, j: int| 0 <= k < b.len() && 0 <= j < 7 ==> (#[trigger] b[k][j]).value == a,
    ensures
        column(b, i).count(a) == b.len(),
        a == Answer::A ==> column(b, i).count(Answer::B) == 0,
        a == Answer::B ==> column(b, i).count(Answer::A) == 0,
    decreases b.len(),
{
    if b.len() > 0 {
        let p = b.drop_last();
        assert(b[b.len() - 1][i].value == a);
        assert forall|k: int| 0 <= k < p.len() implies (#[trigger] p[k]).len() == 7 by {
            assert(p[k] == b[k]);
        }
        assert forall|k: int, j: int| 0 <= k < p.len() && 0 <= j < 7 implies (#[trigger] p[k][j]).value
            == a by {
            assert(p[k] == b[k]);
            assert(b[k][j].value == a);
        }
        lemma_uniform_column(p, a, i);
    }
}

/// The answers of two runs of batches, one after the other, are those of
/// each run together.
pub proof fn lemma_column_concat(x: Seq<Seq<Score>>, y: Seq<Seq<Score>>, i: int)
    ensures
        column(x + y, i) == column(x, i).add(column(y, i)),
    decreases y.len(),
{
    if y.len() == 0 {
        assert(x + y =~= x);
        assert(column(x, i).add(column(y, i)) =~= column(x, i));
    } else {
        assert((x + y).drop_last() =~= x + y.drop_last());
        assert((x + y).last() == y.last());
        lemma_column_concat(x, y.drop_last(), i);
        let v = y.last()[i].value;
        if 0 <= i < y.last().len() {
            assert(column(x, i).add(column(y.drop_last(), i)).insert(v) =~= column(x, i).add(
                column(y.drop_last(), i).insert(v),
            ));
        }
    }
}

/// The tallies, and so the temperament code, depend only on the answers
/// given at each facet position, counted with multiplicity: batches that
/// agree on them agree on every tally.
pub proof fn lemma_tallies_depend_on_columns(b1: Seq<Seq<Score>>, b2: Seq<Seq<Score>>)
    requires
        forall|i: int| 0 <= i < 7 ==> #[trigger] column(b1, i) == column(b2, i),
    ensures
        tallies(b1) == tallies(b2),
        code_of(b1) == code_of(b2),
{
    assert(column(b1, 0) == column(b2, 0) && column(b1, 1) == column(b2, 1));
    assert(column(b1, 2) == column(b2, 2) && column(b1, 3) == column(b2, 3));
    assert(column(b1, 4) == column(b2, 4) && column(b1, 5) == column(b2, 5));
    assert(column(b1, 6) == column(b2, 6));
}

/// Batch order does not matter: taking one run of batches before or after
/// another gives the same tallies.
pub proof fn lemma_tallies_ignore_batch_order(x: Seq<Seq<Score>>, y: Seq<Seq<Score>>)
    ensures
        tallies(x + y) == tallies(y + x),
        code_of(x + y) == code_of(y + x),
{
    assert forall|i: int| 0 <= i < 7 implies #[trigger] column(x + y, i) == column(y + x, i) by {
        lemma_column_concat(x, y, i);
        lemma_column_concat(y, x, i);
        assert(column(x, i).add(column(y, i)) =~= column(y, i).add(column(x, i)));
    }
    lemma_tallies_depend_on_columns(x + y, y + x);
}

/// Counts the answers at facet position `i` over all batches.
fn facet_tally(batches: &Vec<Vec<Score>>, i: usize) -> (r: (usize, usize))
    ensures
        (r.0 as int, r.1 as int) == raw_tally(batch_view(batches@), i as int),
        r.0 + r.1 <= batches@.len(),
{
    let ghost b = batch_view(batches@);
    let mut count_a: usize = 0;
    let mut count_b: usize = 0;
    let mut k: usize = 0;
    while k < batches.len()
        invariant
            k <= batches@.len(),
            b == batch_view(batches@),
            (count_a as int, count_b as int) == raw_tally(b.take(k as int), i as int),
            count_a + count_b <= k,
        decreases batches@.len() - k,
    {
        let ghost prefix = b.take(k as int + 1);
        assert(prefix.drop_last() =~= b.take(k as int));
        assert(prefix.last() == batches@[k as int]@);
        if i < batches[k].len() {
            match batches[k][i].value {
                Answer::A => count_a += 1,
                Answer::B => count_b += 1,
            }
        }
        k += 1;
    }
    assert(b.take(k as int) =~= b);
    (count_a, count_b)
}

/// The ten tallies of a sequence of batches. A `Vec` of a non-empty type
/// never holds more than `isize::MAX` elements, which keeps the combined
/// tallies within `usize`.
pub fn aggregate(batches: &Vec<Vec<Score>>) -> (r: Vec<(usize, usize)>)
    requires
        batches@.len() <= isize::MAX,
    ensures
        r@.len() == 10,
        pairs_view(r@) == tallies(batch_view(batches@)),
{
    let ghost b = batch_view(batches@);
    let mut raw: Vec<(usize, usize)> = Vec::new();
    let mut i: usize = 0;
    while i < 7
        invariant
            i <= 7,
            raw@.len() == i,
            b == batch_view(batches@),
            batches@.len() <= isize::MAX,
            forall|j: int|
                0 <= j < i ==> (#[trigger] raw@[j].0 as int, raw@[j].1 as int) == raw_tally(
                    b,
                    j,
                ),
            forall|j: int| 0 <= j < i ==> #[trigger] raw@[j].0 + raw@[j].1 <= batches@.len(),
        decreases 7 - i,
    {
        let t = facet_tally(batches, i);
        raw.push(t);
        i += 1;
    }
    let mut r: Vec<(usize, usize)> = Vec::new();
    r.push(raw[0]);
    r.push(raw[1]);
    r.push(raw[2]);
    r.push((raw[2].0 + raw[1].0, raw[2].1 + raw[1].1));
    r.push(raw[3]);
    r.push(raw[4]);
    r.push((raw[4].0 + raw[3].0, raw[4].1 + raw[3].1));
    r.push(raw[5]);
    r.push(raw[6]);
    r.push((raw[6].0 + raw[5].0, raw[6].1 + raw[5].1));
    assert(pairs_view(r@) =~= tallies(b));
    r
}

} // verus!
