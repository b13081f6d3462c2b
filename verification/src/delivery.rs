//! The steps of one write to the broker.
//!
//! A write serialises its message, publishes the bytes on the channel and
//! waits for the broker to confirm them. Each step is work for the caller;
//! what happens after a step has succeeded or failed is decided here. The
//! caller does what the stage asks, reports how it went, and returns once the
//! write has ended. Nothing is retried.

use vstd::prelude::*;

verus! {

/// Why a write failed.
#[derive(Debug, Clone, Copy, PartialEq, Eq, Structural)]
pub enum WriteError {
    /// The message could not be serialised. The broker was not contacted.
    Serialization,
    /// The channel refused the message, or the confirmation failed.
    Transport,
}

/// Where a write stands: the step that is due, or how the write ended.
#[derive(Debug, Clone, Copy, PartialEq, Eq, Structural)]
pub enum WriteStage {
    /// The message is to be serialised.
    Serialize,
    /// The bytes are to be handed to the channel.
    Publish,
    /// The channel has taken the bytes; the broker's confirmation is awaited.
    Confirm,
    /// The broker has confirmed the message.
    Delivered,
    /// The write has failed.
    Failed(WriteError),
}

impl WriteStage {
    /// The stage that follows when the step that is due has succeeded or
    /// failed. A write that has ended stays as it is.
    pub open spec fn next(self, succeeded: bool) -> WriteStage {
        match self {
            WriteStage::Serialize => if succeeded {
                WriteStage::Publish
            } else {
                WriteStage::Failed(WriteError::Serialization)
            },
            WriteStage::Publish => if succeeded {
                WriteStage::Confirm
            } else {
                WriteStage::Failed(WriteError::Transport)
            },
            WriteStage::Confirm => if succeeded {
                WriteStage::Delivered
            } else {
                WriteStage::Failed(WriteError::Transport)
            },
            WriteStage::Delivered => WriteStage::Delivered,
            WriteStage::Failed(e) => WriteStage::Failed(e),
        }
    }

    /// What the caller of the write gets back, once the write has ended.
    pub open spec fn outcome(self) -> Option<Result<(), WriteError>> {
        match self {
            WriteStage::Delivered => Some(Ok(())),
            WriteStage::Failed(e) => Some(Err(e)),
            _ => None,
        }
    }

    /// Whether the step that is due talks to the broker.
    pub open spec fn contacts_broker(self) -> bool {
        self == WriteStage::Publish || self == WriteStage::Confirm
    }

    /// The stage of a write after steps that went as `steps` says, one
    /// after the other, from the start.
    pub open spec fn after(steps: Seq<bool>) -> WriteStage
        decreases steps.len(),
    {
        if steps.len() == 0 {
            WriteStage::Serialize
        } else {
            Self::after(steps.drop_last()).next(steps.last())
        }
    }

    /// A write starts with serialising its message.
    pub fn start() -> (stage: WriteStage)
        ensures
            stage == WriteStage::Serialize,
    {
        WriteStage::Serialize
    }

    /// Moves on after the step that was due.
    pub fn advance(self, succeeded: bool) -> (stage: WriteStage)
        ensures
            stage == self.next(succeeded),
    {
        match self {
            WriteStage::Serialize => if succeeded {
                WriteStage::Publish
            } else {
                WriteStage::Failed(WriteError::Serialization)
            },
            WriteStage::Publish => if succeeded {
                WriteStage::Confirm
            } else {
                WriteStage::Failed(WriteError::Transport)
            },
            WriteStage::Confirm => if succeeded {
                WriteStage::Delivered
            } else {
                WriteStage::Failed(WriteError::Transport)
            },
            ended => ended,
        }
    }

    /// What to hand back to the caller of the write, or nothing while a step
    /// is still due.
    pub fn result(&self) -> (ended: Option<Result<(), WriteError>>)
        ensures
            ended == self.outcome(),
    {
        match self {
            WriteStage::Delivered => Some(Ok(())),
            WriteStage::Failed(e) => Some(Err(*e)),
            _ => None,
        }
    }
}

/// A write is delivered exactly when serialising, publishing and the
/// broker's confirmation have all succeeded, in this order; before the
/// confirmation it has not ended.
pub proof fn lemma_delivered_when_confirmed(steps: Seq<bool>)
    ensures
        WriteStage::after(steps) == WriteStage::Delivered <==> steps.len() >= 3 && steps[0]
            && steps[1] && steps[2],
        steps.len() == 2 && steps[0] && steps[1] ==> WriteStage::after(steps).outcome() is None,
{
    lemma_stage_by_steps(steps);
}

/// Where serialising fails, the write fails with that error and the broker
/// is never contacted, whatever is reported afterwards.
pub proof fn lemma_serialization_failure(steps: Seq<bool>)
    requires
        steps.len() > 0,
        !steps[0],
    ensures
        WriteStage::after(steps) == WriteStage::Failed(WriteError::Serialization),
        forall|n: int| 0 <= n <= steps.len() ==> !(#[trigger] WriteStage::after(steps.take(n))).contacts_broker(),
{
    lemma_stage_by_steps(steps);
    assert forall|n: int| 0 <= n <= steps.len() implies !(#[trigger] WriteStage::after(
        steps.take(n),
    )).contacts_broker() by {
        lemma_stage_by_steps(steps.take(n));
    }
}

/// The stage after some steps, by how the first three of them went.
proof fn lemma_stage_by_steps(steps: Seq<bool>)
    ensures
        WriteStage::after(steps) == (if steps.len() == 0 {
            WriteStage::Serialize
        } else if !steps[0] {
            WriteStage::Failed(WriteError::Serialization)
        } else if steps.len() == 1 {
            WriteStage::Publish
        } else if !steps[1] {
            WriteStage::Failed(WriteError::Transport)
        } else if steps.len() == 2 {
            WriteStage::Confirm
        } else if !steps[2] {
            WriteStage::Failed(WriteError::Transport)
        } else {
            WriteStage::Delivered
        }),
    decreases steps.len(),
{
    if steps.len() > 0 {
        lemma_stage_by_steps(steps.drop_last());
    }
}

} // verus!
