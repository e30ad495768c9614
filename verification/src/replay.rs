use vstd::prelude::*;
use crate::rulesets::catch::CatchInput;

verus! {

/// Whether a play is recorded or replayed, and where a replay stands.
#[derive(Debug, Clone, Copy, PartialEq, Eq, Structural)]
pub enum ReplayType {
    Record,
    Playback { input_index: usize, sync_frame_index: usize },
}

/// Number of recorded inputs from one sync frame to the next.
pub const SYNC_FRAME_INTERVAL: usize = 10;

/// Whether a sync frame is recorded before the input at position `recorded_inputs`: one
/// every ten inputs, starting with the first.
pub fn records_sync_frame(recorded_inputs: usize) -> (r: bool)
    ensures
        r == (recorded_inputs % SYNC_FRAME_INTERVAL == 0),
{
    recorded_inputs % SYNC_FRAME_INTERVAL == 0
}

/// The input a replay holds at `index`, or no key pressed once the replay has run out.
pub fn playback_input(inputs: &Vec<CatchInput>, index: usize) -> (r: CatchInput)
    ensures
        index < inputs@.len() ==> r == inputs@[index as int],
        index >= inputs@.len() ==> !r.left && !r.right && !r.dash,
{
    if index < inputs.len() {
        inputs[index]
    } else {
        CatchInput { left: false, right: false, dash: false }
    }
}

impl ReplayType {
    /// Moves a replay on by one frame. `due_sync` holds the input index of the next sync
    /// frame if its time has come; the replay then jumps to that input and to the sync
    /// frame after it. Returns whether the sync frame is to be applied.
    pub fn advance(&mut self, due_sync: Option<u32>) -> (applied: bool)
        requires
            *old(self) matches ReplayType::Playback { input_index, sync_frame_index } && input_index
                < usize::MAX && (due_sync is Some ==> sync_frame_index < usize::MAX),
        ensures
            applied == due_sync is Some,
            *old(self) matches ReplayType::Playback { input_index, sync_frame_index } && match due_sync {
                Some(next) => *final(self) == ReplayType::Playback {
                    input_index: next as usize,
                    sync_frame_index: (sync_frame_index + 1) as usize,
                },
                None => *final(self) == ReplayType::Playback {
                    input_index: (input_index + 1) as usize,
                    sync_frame_index,
                },
            },
    {
        match self {
            ReplayType::Playback { input_index, sync_frame_index } => {
                *input_index = *input_index + 1;
                match due_sync {
                    Some(next) => {
                        *input_index = next as usize;
                        *sync_frame_index = *sync_frame_index + 1;
                        true
                    },
                    None => false,
                }
            },
            ReplayType::Record => false,
        }
    }
}

/// The inputs of a play being recorded, with the input position of each sync frame.
/// The sync frames' own data (times and positions) are kept beside it, one per entry.
pub struct RecordedInputs {
    pub inputs: Vec<CatchInput>,
    /// For each sync frame, the number of inputs recorded before it.
    pub sync_inputs: Vec<u32>,
}

impl RecordedInputs {
    /// A sync frame was recorded before every tenth input, starting with the first, and
    /// before no other.
    pub open spec fn wf(&self) -> bool {
        &&& self.inputs@.len() <= u32::MAX
        &&& self.sync_inputs@.len() == (self.inputs@.len() + 9) / 10
        &&& forall|k: int|
            0 <= k < self.sync_inputs@.len() ==> #[trigger] self.sync_inputs@[k] == 10 * k
    }

    /// Nothing recorded yet.
    pub fn new() -> (r: Self)
        ensures
            r.wf(),
            r.inputs@.len() == 0,
            r.sync_inputs@.len() == 0,
    {
        RecordedInputs { inputs: Vec::new(), sync_inputs: Vec::new() }
    }

    /// Records the input of a frame. A sync frame comes first when the number of inputs
    /// recorded so far is a multiple of ten; the result says whether one did, and the
    /// caller stores its data.
    pub fn record(&mut self, input: CatchInput) -> (sync: bool)
        requires
            old(self).wf(),
            old(self).inputs@.len() < u32::MAX,
        ensures
            final(self).wf(),
            final(self).inputs@ == old(self).inputs@.push(input),
            sync == (old(self).inputs@.len() % SYNC_FRAME_INTERVAL as nat == 0),
            sync ==> final(self).sync_inputs@ == old(self).sync_inputs@.push(
                old(self).inputs@.len() as u32,
            ),
            !sync ==> final(self).sync_inputs@ == old(self).sync_inputs@,
    {
        let n = self.inputs.len();
        let sync = records_sync_frame(n);
        if sync {
            self.sync_inputs.push(n as u32);
        }
        self.inputs.push(input);
        proof {
            let m = n as int;
            if sync {
                assert(self.sync_inputs@[self.sync_inputs@.len() - 1] == 10 * (m / 10));
            }
            assert((m + 1 + 9) / 10 == if m % 10 == 0 {
                (m + 9) / 10 + 1
            } else {
                (m + 9) / 10
            });
        }
        sync
    }
}

} // verus!
