use vstd::prelude::*;
use crate::rulesets::catch::{CatchJudgement, CatchScore};
use crate::ui::{decimal, push_decimal};

verus! {

/// The counts of `js`, in order, in decimal, separated by slashes.
pub open spec fn joined_counts(js: Seq<(CatchJudgement, u32)>) -> Seq<char>
    decreases js.len(),
{
    if js.len() == 0 {
        Seq::empty()
    } else if js.len() == 1 {
        decimal(js[0].1 as nat)
    } else {
        joined_counts(js.drop_last()).push('/') + decimal(js.last().1 as nat)
    }
}

/// The judgement counts of a play as the result screen shows them.
pub fn counts_text(judgements: &Vec<(CatchJudgement, u32)>) -> (r: String)
    ensures
        r@ == joined_counts(judgements@),
{
    let mut s = String::new();
    let mut i: usize = 0;
    while i < judgements.len()
        invariant
            i <= judgements@.len(),
            s@ == joined_counts(judgements@.subrange(0, i as int)),
        decreases judgements@.len() - i,
    {
        let ghost before = s@;
        let ghost next = judgements@.subrange(0, i + 1);
        assert(next.drop_last() =~= judgements@.subrange(0, i as int));
        if i > 0 {
            s.push('/');
        }
        push_decimal(&mut s, judgements[i].1 as u64);
        proof {
            if i == 0 {
                assert(before =~= Seq::<char>::empty());
                assert(s@ =~= joined_counts(next));
            } else {
                assert(s@ =~= before.push('/') + decimal(judgements@[i as int].1 as nat));
            }
        }
        i = i + 1;
    }
    assert(judgements@.subrange(0, judgements@.len() as int) =~= judgements@);
    s
}

/// The heading of the result screen: the chart, the difficulty in brackets and whether the
/// play passed.
pub open spec fn result_heading(title: Seq<char>, difficulty: Seq<char>, passed: bool) -> Seq<char> {
    title + " ["@ + difficulty + "] ("@ + (if passed {
        "Passed"@
    } else {
        "Failed"@
    }) + ")"@
}

/// The lines the result screen shows for a play: the heading, the top combo followed by
/// `x`, the judgement counts and the score.
pub fn result_texts(title: &str, difficulty: &str, score: &CatchScore) -> (r: Vec<String>)
    ensures
        r@.len() == 4,
        r@[0]@ == result_heading(title@, difficulty@, score.passed),
        r@[1]@ == decimal(score.top_combo as nat).push('x'),
        r@[2]@ == joined_counts(score.judgements@),
        r@[3]@ == decimal(score.score as nat),
{
    let mut heading = title.to_owned();
    heading.append(" [");
    heading.append(difficulty);
    heading.append("] (");
    if score.passed {
        heading.append("Passed");
    } else {
        heading.append("Failed");
    }
    heading.append(")");
    let mut combo = String::new();
    push_decimal(&mut combo, score.top_combo as u64);
    combo.push('x');
    let counts = counts_text(&score.judgements);
    let mut total = String::new();
    push_decimal(&mut total, score.score as u64);
    let mut lines: Vec<String> = Vec::new();
    lines.push(heading);
    lines.push(combo);
    lines.push(counts);
    lines.push(total);
    lines
}

} // verus!
