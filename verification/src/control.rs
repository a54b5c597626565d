//! The control block shared with the host.
//!
//! The host sees four unsigned slots. The renderer writes the running maximum
//! density (slot 0) and the progress percentage (slot 3); the host writes the
//! cancellation request (slot 1, any non-zero value asks for a stop). Slot 2
//! is reserved and only carried along.

use vstd::prelude::*;

verus! {

/// Slot of the largest bin count seen so far.
pub const SLOT_MAX_DENSITY: usize = 0;

/// Slot of the cancellation request.
pub const SLOT_CANCEL: usize = 1;

/// Slot that is kept for layout compatibility.
pub const SLOT_RESERVED: usize = 2;

/// Slot of the progress percentage.
pub const SLOT_PROGRESS: usize = 3;

/// Number of slots the renderer needs.
pub const SLOT_COUNT: usize = 4;

/// The renderer's side of the shared slots.
#[derive(Debug, Clone, Copy, PartialEq, Eq, Structural)]
pub struct ControlBlock {
    /// Largest bin count seen so far; written by the renderer.
    pub max_density: u32,
    /// Whether the host asked for a stop; written by the host.
    pub cancel_requested: bool,
    /// Carried along unchanged.
    pub reserved: u32,
    /// Progress from 0 to 100; written by the renderer.
    pub progress_percent: u32,
}

/// What a list of slots says, read by the fixed layout.
pub open spec fn block_of_slots(slots: Seq<u32>) -> ControlBlock {
    ControlBlock {
        max_density: slots[SLOT_MAX_DENSITY as int],
        cancel_requested: slots[SLOT_CANCEL as int] != 0,
        reserved: slots[SLOT_RESERVED as int],
        progress_percent: slots[SLOT_PROGRESS as int],
    }
}

/// The slots after the renderer published `block`: its two fields replace
/// slots 0 and 3, every other slot keeps what the host put there.
pub open spec fn slots_after_publish(slots: Seq<u32>, block: ControlBlock) -> Seq<u32> {
    slots.update(SLOT_MAX_DENSITY as int, block.max_density).update(
        SLOT_PROGRESS as int,
        block.progress_percent,
    )
}

impl ControlBlock {
    /// A block with nothing drawn, nothing requested and no progress.
    pub fn new() -> (block: ControlBlock)
        ensures
            block == (ControlBlock {
                max_density: 0,
                cancel_requested: false,
                reserved: 0,
                progress_percent: 0,
            }),
    {
        ControlBlock { max_density: 0, cancel_requested: false, reserved: 0, progress_percent: 0 }
    }

    /// Reads a block from the host's slots; `None` when there are fewer than
    /// four of them.
    pub fn from_slots(slots: &Vec<u32>) -> (block: Option<ControlBlock>)
        ensures
            slots@.len() < SLOT_COUNT ==> block.is_none(),
            slots@.len() >= SLOT_COUNT ==> block == Some(block_of_slots(slots@)),
    {
        if slots.len() < SLOT_COUNT {
            None
        } else {
            Some(
                ControlBlock {
                    max_density: slots[SLOT_MAX_DENSITY],
                    cancel_requested: slots[SLOT_CANCEL] != 0,
                    reserved: slots[SLOT_RESERVED],
                    progress_percent: slots[SLOT_PROGRESS],
                },
            )
        }
    }

    /// Takes over the host's cancellation request and leaves the renderer's
    /// own fields alone. Returns whether the slots were long enough to hold
    /// one; if not, nothing changes.
    pub fn observe_cancel(&mut self, slots: &Vec<u32>) -> (seen: bool)
        ensures
            seen == (slots@.len() >= SLOT_COUNT),
            seen ==> *final(self) == (ControlBlock {
                cancel_requested: slots@[SLOT_CANCEL as int] != 0,
                ..*old(self)
            }),
            !seen ==> *final(self) == *old(self),
    {
        if slots.len() < SLOT_COUNT {
            false
        } else {
            self.cancel_requested = slots[SLOT_CANCEL] != 0;
            true
        }
    }

    /// Writes the renderer's two fields into the host's slots and touches no
    /// other slot. Returns whether the slots were long enough; if not,
    /// nothing is written.
    pub fn publish(&self, slots: &mut Vec<u32>) -> (written: bool)
        ensures
            written == (old(slots)@.len() >= SLOT_COUNT),
            written ==> final(slots)@ == slots_after_publish(old(slots)@, *self),
            !written ==> final(slots)@ == old(slots)@,
    {
        if slots.len() < SLOT_COUNT {
            false
        } else {
            slots[SLOT_MAX_DENSITY] = self.max_density;
            slots[SLOT_PROGRESS] = self.progress_percent;
            true
        }
    }
}

/// Publishing never disturbs the host's request or the reserved slot, and
/// what is read back afterwards carries the published fields.
pub proof fn lemma_publish_keeps_host_slots(slots: Seq<u32>, block: ControlBlock)
    requires
        slots.len() >= SLOT_COUNT,
    ensures
        slots_after_publish(slots, block).len() == slots.len(),
        forall|i: int|
            0 <= i < slots.len() && i != SLOT_MAX_DENSITY && i != SLOT_PROGRESS
                ==> #[trigger] slots_after_publish(slots, block)[i] == slots[i],
        block_of_slots(slots_after_publish(slots, block)) == (ControlBlock {
            max_density: block.max_density,
            progress_percent: block.progress_percent,
            ..block_of_slots(slots)
        }),
{
}

} // verus!
