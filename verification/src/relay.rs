//! Step logic of the byte-relay loop: the decisions the pump between the
//! sender's inbound stream and the receiver's response makes on each event.
//!
//! The loop around these steps suspends on timers, the inbound stream and
//! the bounded handoff channel; it reports what happened as a
//! [`StreamEvent`] or a [`SendOutcome`] and acts on the returned step. The
//! accounting and every termination decision live here and are verified.

use vstd::prelude::*;

verus! {

/// What happened while waiting for the next chunk of the inbound stream.
#[derive(Clone, Copy, PartialEq, Eq, Structural, Debug)]
pub enum StreamEvent {
    /// A chunk of `len` bytes arrived (a transport-level read error counts
    /// as a chunk of zero bytes: it is still forwarded, never dropped).
    Chunk { len: u64 },
    /// The inbound stream ended.
    EndOfStream,
    /// No chunk arrived within the chunk timeout.
    TimedOut,
}

/// What happened while handing a chunk into the bounded handoff channel.
#[derive(Clone, Copy, PartialEq, Eq, Structural, Debug)]
pub enum SendOutcome {
    /// The receiver took the chunk.
    Sent,
    /// The receiving side is gone.
    Disconnected,
    /// The receiver did not drain the chunk within the chunk timeout.
    TimedOut,
}

/// Why the relay loop terminated.
#[derive(Clone, Copy, PartialEq, Eq, Structural, Debug)]
pub enum StopReason {
    /// The inbound stream ended: the transfer went through.
    Completed,
    /// No chunk arrived within the chunk timeout.
    RecvTimedOut,
    /// A chunk was not drained within the chunk timeout.
    SendTimedOut,
    /// The receiver disconnected mid-transfer.
    Abandoned,
    /// The accumulated byte count reached the configured ceiling.
    SizeLimit,
}

/// What to do after a stream event.
#[derive(Clone, Copy, PartialEq, Eq, Structural, Debug)]
pub enum RelayStep {
    /// Forward the chunk into the handoff channel and continue.
    Forward,
    /// Terminate the loop for the given reason.
    Stop(StopReason),
}

/// Byte accounting of one relay: the bytes consumed so far and the ceiling.
#[derive(Clone, Copy, PartialEq, Eq, Structural, Debug)]
pub struct Relay {
    /// Bytes accumulated from the inbound stream (saturating).
    pub transferred: u64,
    /// Configured maximum cumulative transfer size.
    pub max_transfer_size: u64,
}

impl Relay {
    /// Bytes accumulated so far.
    pub open spec fn transferred_spec(self) -> u64 {
        self.transferred
    }

    /// The configured ceiling.
    pub open spec fn limit_spec(self) -> u64 {
        self.max_transfer_size
    }

    /// One step of the relay loop, as a function of the state and the
    /// stream event: the accounting afterwards, and the decision.
    ///
    /// A chunk is accumulated first (saturating at the type's maximum); if
    /// the accumulated count reaches the ceiling, the loop stops *without*
    /// forwarding that chunk, so the bytes forwarded downstream always stay
    /// below the ceiling. End of stream completes the transfer; a timeout
    /// aborts it.
    pub open spec fn step_spec(self, ev: StreamEvent) -> (Relay, RelayStep) {
        match ev {
            StreamEvent::Chunk { len } => {
                let total = if self.transferred + len > u64::MAX {
                    u64::MAX as int
                } else {
                    self.transferred + len
                };
                let next = Relay { transferred: total as u64, ..self };
                if total >= self.max_transfer_size {
                    (next, RelayStep::Stop(StopReason::SizeLimit))
                } else {
                    (next, RelayStep::Forward)
                }
            },
            StreamEvent::EndOfStream => (self, RelayStep::Stop(StopReason::Completed)),
            StreamEvent::TimedOut => (self, RelayStep::Stop(StopReason::RecvTimedOut)),
        }
    }

    /// The decision after a handoff outcome: keep looping after a delivered
    /// chunk, stop when the receiver is gone or too slow.
    pub open spec fn send_step_spec(outcome: SendOutcome) -> Option<StopReason> {
        match outcome {
            SendOutcome::Sent => None,
            SendOutcome::Disconnected => Some(StopReason::Abandoned),
            SendOutcome::TimedOut => Some(StopReason::SendTimedOut),
        }
    }

    /// Fresh accounting for one relay under the given ceiling.
    pub fn new(max_transfer_size: u64) -> (r: Relay)
        ensures
            r.transferred_spec() == 0,
            r.limit_spec() == max_transfer_size,
    {
        Relay { transferred: 0, max_transfer_size }
    }

    /// Account for one stream event and decide how to go on; exactly
    /// [`Self::step_spec`].
    pub fn on_stream_event(&mut self, ev: StreamEvent) -> (step: RelayStep)
        ensures
            (*final(self), step) == old(self).step_spec(ev),
    {
        match ev {
            StreamEvent::Chunk { len } => {
                self.transferred = if len > u64::MAX - self.transferred {
                    u64::MAX
                } else {
                    self.transferred + len
                };
                if self.transferred >= self.max_transfer_size {
                    RelayStep::Stop(StopReason::SizeLimit)
                } else {
                    RelayStep::Forward
                }
            },
            StreamEvent::EndOfStream => RelayStep::Stop(StopReason::Completed),
            StreamEvent::TimedOut => RelayStep::Stop(StopReason::RecvTimedOut),
        }
    }

    /// Decide after a handoff outcome; exactly [`Self::send_step_spec`].
    pub fn on_send_outcome(&self, outcome: SendOutcome) -> (stop: Option<StopReason>)
        ensures
            stop == Self::send_step_spec(outcome),
    {
        match outcome {
            SendOutcome::Sent => None,
            SendOutcome::Disconnected => Some(StopReason::Abandoned),
            SendOutcome::TimedOut => Some(StopReason::SendTimedOut),
        }
    }
}

impl StopReason {
    /// The reason as logged, one fixed line per variant.
    pub open spec fn message_spec(self) -> Seq<char> {
        match self {
            StopReason::Completed => "transfer completed"@,
            StopReason::RecvTimedOut => "timed-out retrieving the next chunk"@,
            StopReason::SendTimedOut => "timed-out sending the current chunk"@,
            StopReason::Abandoned => "transfer abandoned"@,
            StopReason::SizeLimit => "reached transfer size limit"@,
        }
    }

    /// Human-readable form of the reason, for the server-side log line.
    pub fn message(&self) -> (m: String)
        ensures
            m@ == self.message_spec(),
    {
        match self {
            StopReason::Completed => "transfer completed".to_owned(),
            StopReason::RecvTimedOut => "timed-out retrieving the next chunk".to_owned(),
            StopReason::SendTimedOut => "timed-out sending the current chunk".to_owned(),
            StopReason::Abandoned => "transfer abandoned".to_owned(),
            StopReason::SizeLimit => "reached transfer size limit".to_owned(),
        }
    }
}

/// Total length of a sequence of chunk lengths.
pub open spec fn total_len(lens: Seq<u64>) -> int
    decreases lens.len(),
{
    if lens.len() == 0 {
        0
    } else {
        lens[0] + total_len(lens.drop_first())
    }
}

/// How many of the chunks `lens`, arriving in order, the relay starting in
/// state `r` forwards before it stops (or the stream is exhausted).
pub open spec fn forwarded_count(r: Relay, lens: Seq<u64>) -> int
    decreases lens.len(),
{
    if lens.len() == 0 {
        0
    } else {
        let stepped = r.step_spec(StreamEvent::Chunk { len: lens[0] });
        if stepped.1 == RelayStep::Forward {
            1 + forwarded_count(stepped.0, lens.drop_first())
        } else {
            0
        }
    }
}

/// The number of forwarded chunks is a count into `lens`.
pub proof fn lemma_forwarded_count_bounds(r: Relay, lens: Seq<u64>)
    ensures
        0 <= forwarded_count(r, lens) <= lens.len(),
    decreases lens.len(),
{
    if lens.len() > 0 {
        let stepped = r.step_spec(StreamEvent::Chunk { len: lens[0] });
        lemma_forwarded_count_bounds(stepped.0, lens.drop_first());
    }
}

/// Size enforcement: however long the inbound stream is, the bytes the
/// relay forwards downstream keep the accumulated count strictly below the
/// ceiling. In particular, a relay that starts fresh forwards strictly
/// fewer than `max_transfer_size` bytes before stopping.
pub proof fn lemma_size_enforced(r: Relay, lens: Seq<u64>)
    requires
        r.transferred_spec() < r.limit_spec(),
    ensures
        r.transferred_spec() + total_len(lens.take(forwarded_count(r, lens)))
            < r.limit_spec(),
    decreases lens.len(),
{
    if lens.len() == 0 {
        assert(lens.take(0) =~= Seq::<u64>::empty());
    } else {
        let stepped = r.step_spec(StreamEvent::Chunk { len: lens[0] });
        if stepped.1 == RelayStep::Forward {
            let c = forwarded_count(stepped.0, lens.drop_first());
            lemma_forwarded_count_bounds(stepped.0, lens.drop_first());
            lemma_size_enforced(stepped.0, lens.drop_first());
            assert(lens.take(c + 1).drop_first() =~= lens.drop_first().take(c));
            assert(total_len(lens.take(c + 1)) == lens[0] + total_len(
                lens.drop_first().take(c),
            ));
        } else {
            assert(lens.take(0) =~= Seq::<u64>::empty());
        }
    }
}

/// The same bound for a relay that starts fresh, with no assumption on the
/// ceiling: the forwarded bytes never exceed `max_transfer_size`.
pub proof fn lemma_relay_never_exceeds_limit(r: Relay, lens: Seq<u64>)
    requires
        r.transferred_spec() == 0,
    ensures
        total_len(lens.take(forwarded_count(r, lens))) <= r.limit_spec(),
        r.limit_spec() > 0 ==> total_len(lens.take(forwarded_count(r, lens)))
            < r.limit_spec(),
{
    if r.limit_spec() == 0 {
        if lens.len() > 0 {
            assert(forwarded_count(r, lens) == 0);
        }
        assert(lens.take(0) =~= Seq::<u64>::empty());
    } else {
        lemma_size_enforced(r, lens);
    }
}

} // verus!
