use vstd::prelude::*;
use crate::rulesets::catch::{CatchJudgement, CatchScoreRecorder};
use crate::score::{trailing_hits, Judgement};

verus! {

/// The entries of `s` whose positions are not in `ps`, in order.
pub open spec fn without_positions(s: Seq<usize>, ps: Set<int>) -> Seq<usize>
    decreases s.len(),
{
    if s.len() == 0 {
        Seq::empty()
    } else {
        let rest = without_positions(s.drop_last(), ps);
        if ps.contains(s.len() - 1) {
            rest
        } else {
            rest.push(s.last())
        }
    }
}

/// The entries of `s` are strictly increasing and below `bound`.
pub open spec fn ascending_below(s: Seq<usize>, bound: nat) -> bool {
    &&& forall|i: int, j: int| 0 <= i < j < s.len() ==> s[i] < s[j]
    &&& forall|i: int| 0 <= i < s.len() ==> s[i] < bound
}

/// Removes, from the queue of fruits still to be judged, those judged this frame, given
/// by their positions in the queue in ascending order.
pub fn remove_judged(queue: &mut Vec<usize>, positions: &Vec<usize>)
    requires
        ascending_below(positions@, old(queue)@.len()),
    ensures
        final(queue)@ == without_positions(
            old(queue)@,
            positions@.to_set().map(|p: usize| p as int),
        ),
        final(queue)@.len() + positions@.len() == old(queue)@.len(),
{
    let ghost ps = positions@.to_set().map(|p: usize| p as int);
    let ghost orig = queue@;
    let mut kept: Vec<usize> = Vec::new();
    let mut i: usize = 0;
    let mut j: usize = 0;
    while i < queue.len()
        invariant
            i <= queue@.len(),
            queue@ == orig,
            j <= positions@.len(),
            ascending_below(positions@, orig.len()),
            ps == positions@.to_set().map(|p: usize| p as int),
            forall|k: int| 0 <= k < j ==> positions@[k] < i,
            forall|k: int| j <= k < positions@.len() ==> positions@[k] >= i,
            kept@ == without_positions(orig.subrange(0, i as int), ps),
            kept@.len() + j == i,
        decreases queue@.len() - i,
    {
        let ghost before = kept@;
        proof {
            let sub = orig.subrange(0, i as int + 1);
            assert(sub.drop_last() =~= orig.subrange(0, i as int));
        }
        if j < positions.len() && positions[j] == i {
            assert(ps.contains(i as int)) by {
                assert(positions@.to_set().contains(positions@[j as int]));
            }
            j = j + 1;
        } else {
            assert(!ps.contains(i as int)) by {
                if ps.contains(i as int) {
                    let p = choose|p: usize| positions@.to_set().contains(p) && p as int == i as int;
                    let k = choose|k: int| 0 <= k < positions@.len() && positions@[k] == p;
                    if k < j {
                    } else if k > j {
                        assert(positions@[j as int] < positions@[k]);
                    }
                }
            }
            kept.push(queue[i]);
        }
        i = i + 1;
    }
    assert(orig.subrange(0, orig.len() as int) =~= orig);
    if j < positions.len() {
        assert(positions@[j as int] < orig.len());
    }
    *queue = kept;
}

/// The fruits judged this frame: the queue entries at the given positions.
pub fn judged_fruits(queue: &Vec<usize>, positions: &Vec<usize>) -> (r: Vec<usize>)
    requires
        forall|k: int| 0 <= k < positions@.len() ==> positions@[k] < queue@.len(),
    ensures
        r@.len() == positions@.len(),
        forall|k: int| 0 <= k < positions@.len() ==> #[trigger] r@[k] == queue@[positions@[k] as int],
{
    let mut r: Vec<usize> = Vec::new();
    let mut k: usize = 0;
    while k < positions.len()
        invariant
            k <= positions@.len(),
            r@.len() == k,
            forall|i: int| 0 <= i < positions@.len() ==> positions@[i] < queue@.len(),
            forall|i: int| 0 <= i < k ==> #[trigger] r@[i] == queue@[positions@[i] as int],
        decreases positions@.len() - k,
    {
        r.push(queue[positions[k]]);
        k = k + 1;
    }
    r
}

/// Combo from which a miss plays the combo-break sound.
pub const COMBO_BREAK_THRESHOLD: u32 = 8;

/// Whether missing a fruit with this combo plays the combo-break sound.
pub fn plays_combo_break(combo: u32) -> (r: bool)
    ensures
        r == (combo >= COMBO_BREAK_THRESHOLD),
{
    combo >= COMBO_BREAK_THRESHOLD
}

/// Whether the plate is full and its fruits are thrown off: it holds at least
/// `max_stack` fruits.
pub fn plate_overflows(plate_len: usize, max_stack: u32) -> (r: bool)
    ensures
        r == (plate_len >= max_stack),
{
    plate_len as u64 >= max_stack as u64
}

/// The positions in the queue of the fruits judged this frame.
pub open spec fn judged_positions(judged: Seq<(usize, CatchJudgement)>) -> Seq<usize> {
    judged.map_values(|e: (usize, CatchJudgement)| e.0)
}

/// The judgements given this frame, in order.
pub open spec fn judged_kinds(judged: Seq<(usize, CatchJudgement)>) -> Seq<CatchJudgement> {
    judged.map_values(|e: (usize, CatchJudgement)| e.1)
}

/// One frame of judging: each fruit judged this frame (its position in the queue of
/// fruits still to be judged, in ascending order, with its judgement) is registered with
/// the score recorder exactly once, in order, and leaves the queue. Returns the judged
/// fruits, and for each judgement whether it is a miss that breaks a combo of at least
/// eight and so plays the combo-break sound.
pub fn judge_frame(
    queue: &mut Vec<usize>,
    recorder: &mut CatchScoreRecorder,
    judged: &Vec<(usize, CatchJudgement)>,
) -> (r: (Vec<usize>, Vec<bool>))
    requires
        ascending_below(judged_positions(judged@), old(queue)@.len()),
        old(recorder).wf(),
        old(recorder).history().len() + judged@.len() <= u32::MAX,
    ensures
        final(recorder).wf(),
        final(recorder).max_combo == old(recorder).max_combo,
        final(recorder).history() == old(recorder).history() + judged_kinds(judged@),
        final(queue)@ == without_positions(
            old(queue)@,
            judged_positions(judged@).to_set().map(|p: usize| p as int),
        ),
        final(queue)@.len() + judged@.len() == old(queue)@.len(),
        r.0@.len() == judged@.len(),
        forall|k: int| 0 <= k < judged@.len() ==> #[trigger] r.0@[k] == old(queue)@[judged@[k].0 as int],
        r.1@.len() == judged@.len(),
        forall|k: int|
            0 <= k < judged@.len() ==> #[trigger] r.1@[k] == (judged@[k].1 is Miss && trailing_hits(
                old(recorder).history() + judged_kinds(judged@).subrange(0, k),
            ) >= COMBO_BREAK_THRESHOLD),
{
    let ghost h0 = recorder.history();
    let ghost kinds = judged_kinds(judged@);
    let mut positions: Vec<usize> = Vec::new();
    let mut i: usize = 0;
    while i < judged.len()
        invariant
            i <= judged@.len(),
            positions@ == judged_positions(judged@).subrange(0, i as int),
        decreases judged@.len() - i,
    {
        positions.push(judged[i].0);
        i = i + 1;
        assert(positions@ =~= judged_positions(judged@).subrange(0, i as int));
    }
    assert(positions@ =~= judged_positions(judged@));
    let fruits = judged_fruits(queue, &positions);
    let mut breaks: Vec<bool> = Vec::new();
    let mut k: usize = 0;
    while k < judged.len()
        invariant
            k <= judged@.len(),
            h0.len() + judged@.len() <= u32::MAX,
            kinds == judged_kinds(judged@),
            recorder.wf(),
            recorder.max_combo == old(recorder).max_combo,
            recorder.history() == h0 + kinds.subrange(0, k as int),
            breaks@.len() == k,
            forall|l: int|
                0 <= l < k ==> #[trigger] breaks@[l] == (judged@[l].1 is Miss && trailing_hits(
                    h0 + kinds.subrange(0, l),
                ) >= COMBO_BREAK_THRESHOLD),
        decreases judged@.len() - k,
    {
        let j = judged[k].1;
        breaks.push(j.is_miss() && plays_combo_break(recorder.combo));
        recorder.register_judgement(j);
        k = k + 1;
        assert(recorder.history() =~= h0 + kinds.subrange(0, k as int));
    }
    assert(kinds.subrange(0, judged@.len() as int) =~= kinds);
    remove_judged(queue, &positions);
    (fruits, breaks)
}

} // verus!
