use vstd::prelude::*;

use crate::answer::Score;
use crate::classify::{classification_of, classify, Classification};
use crate::code::{code_from_tallies, code_of};
use crate::tally::{aggregate, pairs_view, tallies};

verus! {

/// Number of facet questions in one administration of the facet block.
pub const BATCH_LEN: usize = 7;

/// The batches that a sequence of answers falls into: consecutive groups of
/// seven in arrival order, the last of which may be shorter.
pub open spec fn chunks<A>(s: Seq<A>) -> Seq<Seq<A>> {
    Seq::new(
        ((s.len() + 6) / 7) as nat,
        |k: int| s.subrange(7 * k, if 7 * k + 7 <= s.len() { 7 * k + 7 } else { s.len() as int }),
    )
}

/// The contents of a sequence of batches held in vectors.
pub open spec fn batch_view(v: Seq<Vec<Score>>) -> Seq<Seq<Score>> {
    v.map_values(|b: Vec<Score>| b@)
}

/// Appending one answer either opens a new batch (when the last one is full
/// or there is none) or extends the last batch.
proof fn lemma_chunks_push<A>(s: Seq<A>, x: A)
    ensures
        s.len() % 7 == 0 ==> chunks(s.push(x)) == chunks(s).push(seq![x]),
        s.len() % 7 != 0 ==> chunks(s.push(x)) == chunks(s).update(
            chunks(s).len() - 1,
            chunks(s).last().push(x),
        ),
{
    let t = s.push(x);
    let n = s.len() as int;
    if n % 7 == 0 {
        assert(chunks(t).len() == chunks(s).len() + 1);
        assert forall|k: int| 0 <= k < chunks(s).len() implies chunks(t)[k] == chunks(s)[k] by {
            assert(7 * k + 7 <= n);
            assert(chunks(t)[k] =~= chunks(s)[k]);
        }
        assert(chunks(t)[chunks(s).len() as int] =~= seq![x]);
        assert(chunks(t) =~= chunks(s).push(seq![x]));
    } else {
        let last = chunks(s).len() - 1;
        assert(chunks(t).len() == chunks(s).len());
        assert(7 * last <= n < 7 * last + 7);
        assert forall|k: int| 0 <= k < last implies chunks(t)[k] == chunks(s)[k] by {
            assert(chunks(t)[k] =~= chunks(s)[k]);
        }
        assert(chunks(t)[last] =~= chunks(s)[last].push(x));
        assert(chunks(t) =~= chunks(s).update(last, chunks(s).last().push(x)));
    }
}

/// Batch framing partitions the answers: read in order, the batches give back
/// exactly the answers in arrival order; every batch but the last holds seven
/// answers, and the last holds between one and seven.
pub proof fn lemma_batches_partition<A>(s: Seq<A>)
    ensures
        chunks(s).flatten() == s,
        forall|k: int| 0 <= k < chunks(s).len() - 1 ==> (#[trigger] chunks(s)[k]).len() == 7,
        chunks(s).len() > 0 ==> 1 <= chunks(s).last().len() <= 7,
    decreases s.len(),
{
    let n = s.len() as int;
    let m = chunks(s).len() as int;
    assert(7 * m <= n + 6 < 7 * m + 7) by (nonlinear_arith)
        requires
            m == (n + 6) / 7,
            n >= 0,
    ;
    assert forall|k: int| 0 <= k < m - 1 implies (#[trigger] chunks(s)[k]).len() == 7 by {
        assert(7 * k + 7 <= 7 * m - 7) by (nonlinear_arith)
            requires
                k <= m - 2,
        ;
    }
    if n == 0 {
        assert(chunks(s) =~= Seq::<Seq<A>>::empty());
    } else {
        let p = s.drop_last();
        let x = s.last();
        assert(p.push(x) =~= s);
        lemma_batches_partition(p);
        lemma_chunks_push(p, x);
        let c = chunks(p);
        if p.len() % 7 == 0 {
            c.lemma_flatten_push(seq![x]);
        } else {
            let front = c.drop_last();
            assert(front.push(c.last()) =~= c);
            assert(front.push(c.last().push(x)) =~= c.update(c.len() - 1, c.last().push(x)));
            front.lemma_flatten_push(c.last());
            front.lemma_flatten_push(c.last().push(x));
        }
    }
}

/// The answers recorded so far, framed into batches of seven.
pub struct ScoringGrid {
    scores: Vec<Vec<Score>>,
    answers: Ghost<Seq<Score>>,
}

impl View for ScoringGrid {
    type V = Seq<Score>;

    /// Every answer recorded, in arrival order.
    closed spec fn view(&self) -> Seq<Score> {
        self.answers@
    }
}

impl ScoringGrid {
    /// The batches hold exactly the recorded answers, framed by `chunks`.
    pub closed spec fn wf(&self) -> bool {
        &&& batch_view(self.scores@) == chunks(self.answers@)
        &&& self.answers@.len() <= isize::MAX
    }

    /// An empty ledger.
    pub fn new() -> (r: ScoringGrid)
        ensures
            r.wf(),
            r@ == Seq::<Score>::empty(),
    {
        let r = ScoringGrid { scores: Vec::new(), answers: Ghost(Seq::empty()) };
        assert(batch_view(r.scores@) =~= chunks(r.answers@));
        r
    }

    /// Records one more answer. A new batch is opened first when there is no
    /// batch yet or the last one already holds seven answers. The bound on
    /// the count is the machine's: the batches' own vector cannot grow past it.
    pub fn add_score(&mut self, score: Score)
        requires
            old(self).wf(),
            old(self)@.len() < isize::MAX,
        ensures
            final(self).wf(),
            final(self)@ == old(self)@.push(score),
    {
        proof {
            lemma_chunks_push(self.answers@, score);
        }
        let ghost s = self.answers@;
        let ghost old_batches = batch_view(self.scores@);
        let n = self.scores.len();
        proof {
            if n > 0 {
                let k = n - 1;
                let len = s.len() as int;
                assert(old_batches[k as int] == self.scores@[k as int]@);
                assert(chunks(s).len() == n);
                assert(7 * k < len <= 7 * k + 7) by (nonlinear_arith)
                    requires
                        k + 1 == (len + 6) / 7,
                        len >= 0,
                ;
                assert(old_batches[k as int].len() == s.len() - 7 * k);
            } else {
                assert(chunks(s).len() == 0);
                assert(s.len() == 0);
            }
        }
        if n == 0 || self.scores[n - 1].len() % BATCH_LEN == 0 {
            let mut batch = Vec::new();
            batch.push(score);
            self.scores.push(batch);
            assert(batch_view(self.scores@) =~= old_batches.push(seq![score]));
        } else {
            let mut last = self.scores.pop().unwrap();
            last.push(score);
            self.scores.push(last);
            assert(batch_view(self.scores@) =~= old_batches.update(
                old_batches.len() - 1,
                old_batches.last().push(score),
            ));
        }
        self.answers = Ghost(s.push(score));
        assert(batch_view(self.scores@) =~= chunks(self.answers@));
    }

    /// The batches recorded so far, the last possibly holding fewer than seven.
    pub fn batches(&self) -> (r: &Vec<Vec<Score>>)
        requires
            self.wf(),
        ensures
            batch_view(r@) == chunks(self@),
    {
        &self.scores
    }

    /// The ten tallies of the recorded batches.
    pub fn tally(&self) -> (r: Vec<(usize, usize)>)
        requires
            self.wf(),
        ensures
            r@.len() == 10,
            pairs_view(r@) == tallies(chunks(self@)),
    {
        assert(self.scores@.len() <= self.answers@.len()) by {
            assert(batch_view(self.scores@).len() == self.scores@.len());
        }
        aggregate(&self.scores)
    }

    /// The temperament code of the recorded batches.
    pub fn get_temperament(&self) -> (r: String)
        requires
            self.wf(),
        ensures
            r@ == code_of(chunks(self@)),
    {
        let t = self.tally();
        code_from_tallies(&t)
    }

    /// The classification of the temperament code of the recorded batches.
    pub fn classification(&self) -> (r: Classification)
        requires
            self.wf(),
        ensures
            r == classification_of(code_of(chunks(self@))),
    {
        let code = self.get_temperament();
        classify(code.as_str())
    }
}

} // verus!
