use vstd::prelude::*;

verus! {

/// A kind of judgement a ruleset hands out for a hit object. The kinds are numbered
/// `0 .. kinds()` in the order `all()` lists them.
pub trait Judgement: Sized + Copy {
    /// Position of this kind in the list `all()` returns.
    spec fn rank(&self) -> nat;

    /// Whether this kind is the miss.
    spec fn is_miss_spec(&self) -> bool;

    /// Number of kinds.
    spec fn kinds() -> nat;

    /// Every judgement has a rank below the number of kinds.
    proof fn rank_bound(j: Self)
        ensures
            j.rank() < Self::kinds(),
    ;

    /// The judgement given for a missed object.
    fn miss() -> (j: Self)
        ensures
            j.is_miss_spec(),
    ;

    /// All kinds, ordered by rank.
    fn all() -> (v: Vec<Self>)
        ensures
            v@.len() == Self::kinds(),
            forall|i: int| 0 <= i < v@.len() ==> (#[trigger] v@[i]).rank() == i,
    ;

    /// The rank of this kind.
    fn index(&self) -> (i: usize)
        ensures
            i == self.rank(),
    ;

    /// Whether this is the miss.
    fn is_miss(&self) -> (b: bool)
        ensures
            b == self.is_miss_spec(),
    ;
}

/// Number of hits at the end of `h`, after its last miss: the running combo.
pub open spec fn trailing_hits<J: Judgement>(h: Seq<J>) -> nat
    decreases h.len(),
{
    if h.len() == 0 {
        0
    } else if h.last().is_miss_spec() {
        0
    } else {
        trailing_hits(h.drop_last()) + 1
    }
}

/// Number of misses at the end of `h`, after its last hit.
pub open spec fn trailing_misses<J: Judgement>(h: Seq<J>) -> nat
    decreases h.len(),
{
    if h.len() == 0 {
        0
    } else if h.last().is_miss_spec() {
        trailing_misses(h.drop_last()) + 1
    } else {
        0
    }
}

/// Length of the longest run of hits in `h`: the top combo.
pub open spec fn longest_streak<J: Judgement>(h: Seq<J>) -> nat
    decreases h.len(),
{
    if h.len() == 0 {
        0
    } else {
        let prev = longest_streak(h.drop_last());
        let cur = trailing_hits(h);
        if prev < cur {
            cur
        } else {
            prev
        }
    }
}

/// Sum, over every prefix of `h`, of the combo after that prefix.
pub open spec fn streak_sum<J: Judgement>(h: Seq<J>) -> nat
    decreases h.len(),
{
    if h.len() == 0 {
        0
    } else {
        streak_sum(h.drop_last()) + trailing_hits(h)
    }
}

/// Number of judgements of rank `k` in `h`.
pub open spec fn count_rank<J: Judgement>(h: Seq<J>, k: nat) -> nat
    decreases h.len(),
{
    if h.len() == 0 {
        0
    } else {
        count_rank(h.drop_last(), k) + if h.last().rank() == k {
            1nat
        } else {
            0nat
        }
    }
}

/// Number of judgements in `h` that are not misses.
pub open spec fn hit_count<J: Judgement>(h: Seq<J>) -> nat
    decreases h.len(),
{
    if h.len() == 0 {
        0
    } else {
        hit_count(h.drop_last()) + if h.last().is_miss_spec() {
            0nat
        } else {
            1nat
        }
    }
}

/// Sum of the counts of the first `k` entries of `counts`.
pub open spec fn total<J>(counts: Seq<(J, u32)>, k: nat) -> nat
    decreases k,
{
    if k == 0 {
        0
    } else {
        total(counts, (k - 1) as nat) + counts[k - 1].1 as nat
    }
}

/// The score shown for a streak sum `s` in a chart with `m` objects: the streak sum
/// relative to the best possible one, `m * (m + 1) / 2`, scaled to one million and rounded
/// to the nearest integer, halves rounded up; capped at `u32::MAX`, which is also the
/// score of any hit in a chart with no objects.
pub open spec fn score_for(s: nat, m: nat) -> nat {
    if m == 0 {
        if s == 0 {
            0
        } else {
            u32::MAX as nat
        }
    } else {
        let q = (4_000_000 * s + m * (m + 1)) / (2 * m * (m + 1));
        if q > u32::MAX {
            u32::MAX as nat
        } else {
            q
        }
    }
}

/// Sum, over the ranks below `k`, of how often each rank occurs in `h`.
pub open spec fn rank_total<J: Judgement>(h: Seq<J>, k: nat) -> nat
    decreases k,
{
    if k == 0 {
        0
    } else {
        rank_total(h, (k - 1) as nat) + count_rank(h, (k - 1) as nat)
    }
}

proof fn lemma_push<J: Judgement>(h: Seq<J>, j: J)
    ensures
        h.push(j).drop_last() == h,
        h.push(j).last() == j,
        h.push(j).len() == h.len() + 1,
{
    assert(h.push(j).drop_last() =~= h);
}

/// Bounds that tie the counters of a history to its length.
proof fn lemma_counter_bounds<J: Judgement>(h: Seq<J>)
    ensures
        trailing_hits(h) <= hit_count(h),
        trailing_hits(h) <= longest_streak(h),
        longest_streak(h) <= hit_count(h),
        hit_count(h) <= h.len(),
        trailing_misses(h) <= h.len(),
        2 * streak_sum(h) <= hit_count(h) * (hit_count(h) + 1),
    decreases h.len(),
{
    if h.len() > 0 {
        let p = h.drop_last();
        lemma_counter_bounds(p);
        let hp = hit_count(p);
        if !h.last().is_miss_spec() {
            assert(2 * streak_sum(h) <= hit_count(h) * (hit_count(h) + 1)) by (nonlinear_arith)
                requires
                    2 * streak_sum(p) <= hp * (hp + 1),
                    streak_sum(h) == streak_sum(p) + trailing_hits(h),
                    trailing_hits(h) <= hit_count(h),
                    hit_count(h) == hp + 1,
            ;
        }
    }
}

proof fn lemma_count_rank_bound<J: Judgement>(h: Seq<J>, k: nat)
    ensures
        count_rank(h, k) <= h.len(),
    decreases h.len(),
{
    if h.len() > 0 {
        lemma_count_rank_bound(h.drop_last(), k);
    }
}

proof fn lemma_all_hits<J: Judgement>(h: Seq<J>)
    requires
        forall|i: int| 0 <= i < h.len() ==> !(#[trigger] h[i]).is_miss_spec(),
    ensures
        trailing_hits(h) == h.len(),
        longest_streak(h) == h.len(),
        hit_count(h) == h.len(),
        2 * streak_sum(h) == h.len() * (h.len() + 1),
    decreases h.len(),
{
    if h.len() > 0 {
        let p = h.drop_last();
        assert(forall|i: int| 0 <= i < p.len() ==> p[i] == h[i]);
        lemma_all_hits(p);
        assert(!h[h.len() - 1].is_miss_spec());
        let n = h.len();
        assert(2 * streak_sum(h) == n * (n + 1)) by (nonlinear_arith)
            requires
                2 * streak_sum(p) == (n - 1) * n,
                streak_sum(h) == streak_sum(p) + n,
        ;
    }
}

proof fn lemma_rank_total_push<J: Judgement>(h: Seq<J>, j: J, k: nat)
    ensures
        rank_total(h.push(j), k) == rank_total(h, k) + if j.rank() < k {
            1nat
        } else {
            0nat
        },
    decreases k,
{
    lemma_push(h, j);
    if k > 0 {
        lemma_rank_total_push(h, j, (k - 1) as nat);
    }
}

proof fn lemma_rank_total_empty<J: Judgement>(k: nat)
    ensures
        rank_total(Seq::<J>::empty(), k) == 0,
    decreases k,
{
    if k > 0 {
        lemma_rank_total_empty::<J>((k - 1) as nat);
    }
}

proof fn lemma_rank_total_len<J: Judgement>(h: Seq<J>)
    ensures
        rank_total(h, J::kinds()) == h.len(),
    decreases h.len(),
{
    if h.len() > 0 {
        let p = h.drop_last();
        let j = h.last();
        assert(p.push(j) =~= h);
        lemma_rank_total_len(p);
        J::rank_bound(j);
        lemma_rank_total_push(p, j, J::kinds());
        assert(rank_total(h, J::kinds()) == rank_total(p, J::kinds()) + 1);
    } else {
        assert(h =~= Seq::<J>::empty());
        lemma_rank_total_empty::<J>(J::kinds());
    }
}

proof fn lemma_score_bound(s: nat, hits: nat, m: nat)
    requires
        2 * s <= hits * (hits + 1),
        hits <= m,
        m > 0,
    ensures
        score_for(s, m) <= 1_000_000,
{
    let d = m * (m + 1);
    assert(hits * (hits + 1) <= d) by (nonlinear_arith)
        requires
            hits <= m,
            d == m * (m + 1),
    ;
    assert(d > 0) by (nonlinear_arith)
        requires
            m > 0,
            d == m * (m + 1),
    ;
    let x = 4_000_000 * s + d;
    assert(x < 2 * d * 1_000_001) by (nonlinear_arith)
        requires
            2 * s <= d,
            x == 4_000_000 * s + d,
            d > 0,
    ;
    assert(x / (2 * d) <= 1_000_000) by (nonlinear_arith)
        requires
            x < 2 * d * 1_000_001,
            d > 0,
    ;
    assert(2 * m * (m + 1) == 2 * d) by (nonlinear_arith)
        requires
            d == m * (m + 1),
    ;
}

proof fn lemma_full_score(s: nat, m: nat)
    requires
        m > 0,
        2 * s == m * (m + 1),
    ensures
        score_for(s, m) == 1_000_000,
{
    let d = m * (m + 1);
    assert(d > 0) by (nonlinear_arith)
        requires
            m > 0,
            d == m * (m + 1),
    ;
    assert(4_000_000 * s + d == 2 * d * 1_000_000 + d);
    assert((2 * d * 1_000_000 + d) / (2 * d) == 1_000_000) by (nonlinear_arith)
        requires
            d > 0,
    ;
    assert(2 * m * (m + 1) == 2 * d) by (nonlinear_arith)
        requires
            d == m * (m + 1),
    ;
}

proof fn lemma_zero_score(m: nat)
    ensures
        score_for(0, m) == 0,
{
    if m > 0 {
        let d = m * (m + 1);
        assert(d > 0) by (nonlinear_arith)
            requires
                m > 0,
                d == m * (m + 1),
        ;
        assert(d / (2 * d) == 0) by (nonlinear_arith)
            requires
                d > 0,
        ;
        assert(2 * m * (m + 1) == 2 * d) by (nonlinear_arith)
            requires
                d == m * (m + 1),
        ;
    }
}

/// Computes `score_for(s, m)`.
fn compute_score(s: u64, m: u32) -> (r: u32)
    ensures
        r == score_for(s as nat, m as nat),
{
    if m == 0 {
        if s == 0 {
            0
        } else {
            u32::MAX
        }
    } else {
        let mm = m as u128;
        assert(mm * (mm + 1) <= 0x1_0000_0000 * 0x1_0000_0000) by (nonlinear_arith)
            requires
                mm < 0x1_0000_0000,
        ;
        let d = mm * (mm + 1);
        assert(4_000_000 * (s as u128) <= 4_000_000 * 0x1_0000_0000_0000_0000) by (nonlinear_arith)
            requires
                s < 0x1_0000_0000_0000_0000,
        ;
        let x = 4_000_000 * (s as u128) + d;
        assert(d > 0) by (nonlinear_arith)
            requires
                mm > 0,
                d == mm * (mm + 1),
        ;
        let q = x / (2 * d);
        assert(2 * (m as nat) * (m as nat + 1) == 2 * d) by (nonlinear_arith)
            requires
                d == mm * (mm + 1),
                mm == m,
        ;
        if q > u32::MAX as u128 {
            u32::MAX
        } else {
            q as u32
        }
    }
}

/// The result of a play.
#[derive(Debug, Clone)]
pub struct Score<J: Judgement> {
    pub username: Option<String>,
    pub diff_id: u32,
    pub top_combo: u32,
    /// Each kind of judgement with how often it was given, in rank order.
    pub judgements: Vec<(J, u32)>,
    pub score: u32,
    pub passed: bool,
}

/// Keeps the combo, the judgement counts and the score during a play.
pub struct ScoreRecorder<J: Judgement> {
    pub combo: u32,
    pub top_combo: u32,
    pub max_combo: u32,
    /// Each kind of judgement with how often it was given, in rank order.
    pub judgements: Vec<(J, u32)>,
    /// Sum of the combo after each judgement so far.
    pub streak_sum: u64,
    pub chain_miss_count: u32,
    /// At most 1,000,000 as long as no more objects were hit than the chart has.
    pub score: u32,
    /// Every judgement registered so far, oldest first.
    pub history: Ghost<Seq<J>>,
}

impl<J: Judgement> ScoreRecorder<J> {
    /// Every judgement registered so far, oldest first.
    pub open spec fn history(&self) -> Seq<J> {
        self.history@
    }

    /// The recorder's counters all agree with its history.
    pub open spec fn wf(&self) -> bool {
        let h = self.history@;
        &&& self.judgements@.len() == J::kinds()
        &&& forall|k: int|
            0 <= k < J::kinds() ==> (#[trigger] self.judgements@[k]).0.rank() == k
                && self.judgements@[k].1 == count_rank(h, k as nat)
        &&& self.combo == trailing_hits(h)
        &&& self.top_combo == longest_streak(h)
        &&& self.chain_miss_count == trailing_misses(h)
        &&& self.streak_sum == streak_sum(h)
        &&& self.score == score_for(self.streak_sum as nat, self.max_combo as nat)
        &&& h.len() <= u32::MAX
    }

    /// A recorder for a chart with `max_combo` objects, with nothing registered yet.
    pub fn new(max_combo: u32) -> (r: Self)
        ensures
            r.wf(),
            r.history() == Seq::<J>::empty(),
            r.max_combo == max_combo,
            r.combo == 0,
            r.top_combo == 0,
            r.chain_miss_count == 0,
            r.streak_sum == 0,
            r.score == 0,
            r.judgements@.len() == J::kinds(),
            forall|k: int|
                0 <= k < J::kinds() ==> (#[trigger] r.judgements@[k]).0.rank() == k
                    && r.judgements@[k].1 == 0,
    {
        let all = J::all();
        let mut judgements: Vec<(J, u32)> = Vec::new();
        let mut i: usize = 0;
        while i < all.len()
            invariant
                i <= all@.len(),
                all@.len() == J::kinds(),
                forall|k: int| 0 <= k < all@.len() ==> (#[trigger] all@[k]).rank() == k,
                judgements@.len() == i,
                forall|k: int|
                    0 <= k < i ==> (#[trigger] judgements@[k]).0.rank() == k && judgements@[k].1
                        == 0,
            decreases all@.len() - i,
        {
            judgements.push((all[i], 0));
            i = i + 1;
        }
        proof {
            lemma_zero_score(max_combo as nat);
        }
        ScoreRecorder {
            combo: 0,
            top_combo: 0,
            max_combo,
            judgements,
            streak_sum: 0,
            chain_miss_count: 0,
            score: 0,
            history: Ghost(Seq::empty()),
        }
    }

    /// Records one judgement: a hit extends the combo and raises the score, a miss breaks
    /// the combo; either way the judgement's count goes up by one.
    pub fn register_judgement(&mut self, judgement: J)
        requires
            old(self).wf(),
            old(self).history().len() < u32::MAX,
        ensures
            final(self).wf(),
            final(self).history() == old(self).history().push(judgement),
            final(self).max_combo == old(self).max_combo,
            !judgement.is_miss_spec() ==> {
                &&& final(self).combo == old(self).combo + 1
                &&& final(self).top_combo == if old(self).top_combo < old(self).combo + 1 {
                    old(self).combo + 1
                } else {
                    old(self).top_combo as int
                }
                &&& final(self).chain_miss_count == 0
                &&& final(self).streak_sum == old(self).streak_sum + old(self).combo + 1
                &&& final(self).score == score_for(
                    final(self).streak_sum as nat,
                    final(self).max_combo as nat,
                )
            },
            judgement.is_miss_spec() ==> {
                &&& final(self).combo == 0
                &&& final(self).top_combo == old(self).top_combo
                &&& final(self).chain_miss_count == old(self).chain_miss_count + 1
                &&& final(self).streak_sum == old(self).streak_sum
                &&& final(self).score == old(self).score
            },
            hit_count(final(self).history()) <= final(self).max_combo ==> final(self).score
                <= 1_000_000 && final(self).top_combo <= final(self).max_combo,
            final(self).judgements@ == old(self).judgements@.update(
                judgement.rank() as int,
                (
                    old(self).judgements@[judgement.rank() as int].0,
                    (old(self).judgements@[judgement.rank() as int].1 + 1) as u32,
                ),
            ),
    {
        let ghost h0 = self.history@;
        let ghost h1 = h0.push(judgement);
        proof {
            lemma_push(h0, judgement);
            lemma_counter_bounds(h0);
            lemma_counter_bounds(h1);
            J::rank_bound(judgement);
            lemma_count_rank_bound(h0, judgement.rank());
        }
        if !judgement.is_miss() {
            self.combo = self.combo + 1;
            if self.top_combo < self.combo {
                self.top_combo = self.combo;
            }
            assert(self.streak_sum + self.combo <= u64::MAX) by (nonlinear_arith)
                requires
                    2 * streak_sum(h1) <= hit_count(h1) * (hit_count(h1) + 1),
                    hit_count(h1) <= h1.len(),
                    h1.len() <= u32::MAX,
                    streak_sum(h1) == self.streak_sum + self.combo,
            ;
            self.streak_sum = self.streak_sum + self.combo as u64;
            self.score = compute_score(self.streak_sum, self.max_combo);
            self.chain_miss_count = 0;
        } else {
            self.combo = 0;
            self.chain_miss_count = self.chain_miss_count + 1;
        }
        let idx = judgement.index();
        let (kind, count) = self.judgements[idx];
        self.judgements.set(idx, (kind, count + 1));
        self.history = Ghost(h1);
        proof {
            assert forall|k: int| 0 <= k < J::kinds() implies (
            #[trigger] self.judgements@[k]).0.rank() == k && self.judgements@[k].1 == count_rank(
                h1,
                k as nat,
            ) by {}
            if kind != judgement {
                assert(kind.rank() == judgement.rank());
            }
            if hit_count(h1) <= self.max_combo {
                lemma_score_at_most_one_million(self);
                lemma_combo_bounds(self);
            }
        }
    }

    /// The score of the play so far, for the difficulty `diff_id`; `passed` says whether
    /// the player's health held up.
    pub fn to_score(&self, diff_id: u32, passed: bool) -> (r: Score<J>)
        ensures
            r.username is None,
            r.diff_id == diff_id,
            r.top_combo == self.top_combo,
            r.judgements@ == self.judgements@,
            r.score == self.score,
            r.passed == passed,
    {
        let mut judgements: Vec<(J, u32)> = Vec::new();
        let mut i: usize = 0;
        while i < self.judgements.len()
            invariant
                i <= self.judgements@.len(),
                judgements@ == self.judgements@.subrange(0, i as int),
            decreases self.judgements@.len() - i,
        {
            judgements.push(self.judgements[i]);
            i = i + 1;
            assert(judgements@ =~= self.judgements@.subrange(0, i as int));
        }
        assert(judgements@ =~= self.judgements@);
        Score {
            username: None,
            diff_id,
            top_combo: self.top_combo,
            judgements,
            score: self.score,
            passed,
        }
    }
}

/// The combo never exceeds the top combo, which never exceeds the number of hits.
pub proof fn lemma_combo_bounds<J: Judgement>(rec: &ScoreRecorder<J>)
    requires
        rec.wf(),
    ensures
        rec.combo <= rec.top_combo,
        rec.top_combo <= hit_count(rec.history()),
        hit_count(rec.history()) <= rec.history().len(),
{
    lemma_counter_bounds(rec.history());
}

/// The score stays at most 1,000,000, and the top combo at most the chart's number of
/// objects, as long as no more objects were hit than the chart has.
pub proof fn lemma_score_at_most_one_million<J: Judgement>(rec: &ScoreRecorder<J>)
    requires
        rec.wf(),
        hit_count(rec.history()) <= rec.max_combo,
    ensures
        rec.score <= 1_000_000,
        rec.top_combo <= rec.max_combo,
{
    let h = rec.history();
    lemma_counter_bounds(h);
    if rec.max_combo > 0 {
        lemma_score_bound(rec.streak_sum as nat, hit_count(h), rec.max_combo as nat);
    } else {
        assert(2 * streak_sum(h) <= 0) by (nonlinear_arith)
            requires
                2 * streak_sum(h) <= hit_count(h) * (hit_count(h) + 1),
                hit_count(h) == 0,
        ;
    }
}

/// Catching every object of a (non-empty) chart gives exactly 1,000,000 and a full combo.
pub proof fn lemma_full_combo_score<J: Judgement>(rec: &ScoreRecorder<J>)
    requires
        rec.wf(),
        rec.max_combo > 0,
        rec.history().len() == rec.max_combo,
        forall|i: int| 0 <= i < rec.history().len() ==> !(#[trigger] rec.history()[i]).is_miss_spec(),
    ensures
        rec.score == 1_000_000,
        rec.combo == rec.max_combo,
        rec.top_combo == rec.max_combo,
{
    let h = rec.history();
    lemma_all_hits(h);
    lemma_full_score(rec.streak_sum as nat, rec.max_combo as nat);
}

/// Every registered judgement is counted exactly once.
pub proof fn lemma_counts_total<J: Judgement>(rec: &ScoreRecorder<J>)
    requires
        rec.wf(),
    ensures
        total(rec.judgements@, J::kinds()) == rec.history().len(),
{
    lemma_rank_total_len(rec.history());
    lemma_total_matches(rec, J::kinds());
}

proof fn lemma_total_matches<J: Judgement>(rec: &ScoreRecorder<J>, k: nat)
    requires
        rec.wf(),
        k <= J::kinds(),
    ensures
        total(rec.judgements@, k) == rank_total(rec.history(), k),
    decreases k,
{
    if k > 0 {
        lemma_total_matches(rec, (k - 1) as nat);
        assert(rec.judgements@[k - 1].1 == count_rank(rec.history(), (k - 1) as nat));
    }
}

proof fn lemma_score_for_monotone(s1: nat, s2: nat, m: nat)
    requires
        s1 <= s2,
    ensures
        score_for(s1, m) <= score_for(s2, m),
{
    if m > 0 {
        let d = 2 * m * (m + 1);
        assert(d > 0) by (nonlinear_arith)
            requires
                m > 0,
                d == 2 * m * (m + 1),
        ;
        assert((4_000_000 * s1 + m * (m + 1)) / d <= (4_000_000 * s2 + m * (m + 1)) / d)
            by (nonlinear_arith)
            requires
                s1 <= s2,
                d > 0,
        ;
    }
}

/// As judgements come in, the score and the top combo never go down.
pub proof fn lemma_score_never_decreases<J: Judgement>(
    before: &ScoreRecorder<J>,
    after: &ScoreRecorder<J>,
    j: J,
)
    requires
        before.wf(),
        after.wf(),
        after.max_combo == before.max_combo,
        after.history() == before.history().push(j),
    ensures
        after.score >= before.score,
        after.top_combo >= before.top_combo,
{
    lemma_push(before.history(), j);
    lemma_score_for_monotone(
        before.streak_sum as nat,
        after.streak_sum as nat,
        before.max_combo as nat,
    );
}

} // verus!
