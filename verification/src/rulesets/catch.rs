use vstd::prelude::*;
use crate::score::{Judgement, Score, ScoreRecorder};

verus! {

/// How well a fruit was caught.
#[derive(Debug, Clone, Copy, PartialEq, Eq, Structural, Hash, PartialOrd, Ord)]
pub enum CatchJudgement {
    Perfect,
    Miss,
}

impl Judgement for CatchJudgement {
    open spec fn rank(&self) -> nat {
        match self {
            CatchJudgement::Perfect => 0,
            CatchJudgement::Miss => 1,
        }
    }

    open spec fn is_miss_spec(&self) -> bool {
        *self is Miss
    }

    open spec fn kinds() -> nat {
        2
    }

    proof fn rank_bound(j: Self) {
    }

    fn miss() -> (j: Self) {
        CatchJudgement::Miss
    }

    fn all() -> (v: Vec<Self>) {
        let v = vec![CatchJudgement::Perfect, CatchJudgement::Miss];
        assert(v@[0].rank() == 0 && v@[1].rank() == 1);
        v
    }

    fn index(&self) -> (i: usize) {
        match self {
            CatchJudgement::Perfect => 0,
            CatchJudgement::Miss => 1,
        }
    }

    fn is_miss(&self) -> (b: bool) {
        match self {
            CatchJudgement::Perfect => false,
            CatchJudgement::Miss => true,
        }
    }
}

/// The score recorder of the catch ruleset.
pub type CatchScoreRecorder = ScoreRecorder<CatchJudgement>;

/// The score of a catch play.
pub type CatchScore = Score<CatchJudgement>;

/// The player's input during one frame.
#[derive(Debug, Clone, Copy)]
pub struct CatchInput {
    pub left: bool,
    pub right: bool,
    pub dash: bool,
}

} // verus!
