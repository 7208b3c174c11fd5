use vstd::prelude::*;
use crate::message::{msgs_view, parse_frames, RawMsgsWithAddr, WireMessageWithAddr};

verus! {

/// The most bytes read from one incoming stream.
pub const MAX_QUIC_MESSAGE_BYTES: u64 = 1_024;  // 1kB

/// The most tasks that a loop keeps running at once.
pub const MAX_CONCURRENCY: usize = 10;

/// The capacity of the channels between the network loops and their users.
pub const MAX_CHAN_SIZE: usize = 1024;

/// The listening side.
pub struct QuicServer;

/// The sending side.
pub struct QuicClient;

/// Whether a loop that holds `running` tasks waits for one of them to end
/// before it starts another.
pub open spec fn must_wait(running: nat) -> bool {
    running >= MAX_CONCURRENCY
}

/// The tasks a loop holds after starting one more: if it had to wait, one
/// task ended first and was taken out, then the new one was started.
pub open spec fn held_after_start(running: nat) -> nat {
    if must_wait(running) {
        running
    } else {
        running + 1
    }
}

/// The tasks a loop holds after it has started `k` tasks, starting empty,
/// when tasks leave the loop's count only by the wait above.
pub open spec fn held_after(k: nat) -> nat
    decreases k,
{
    if k == 0 {
        0
    } else {
        held_after_start(held_after((k - 1) as nat))
    }
}

/// Whether a loop that has `running` tasks must wait for one of them to end
/// before it starts another.
pub fn must_wait_for_task_slot(running: usize) -> (wait: bool)
    ensures
        wait == must_wait(running as nat),
{
    running >= MAX_CONCURRENCY
}

/// A loop that starts its tasks after asking [`must_wait_for_task_slot`] never
/// holds more than `MAX_CONCURRENCY` of them, and once it holds that many, a
/// further task is started only after one of them has ended.
pub proof fn lemma_task_count_bounded(k: nat)
    ensures
        held_after(k) <= MAX_CONCURRENCY,
        k <= MAX_CONCURRENCY ==> held_after(k) == k,
        held_after(k) == MAX_CONCURRENCY ==> must_wait(held_after(k)),
        held_after(k) < MAX_CONCURRENCY ==> !must_wait(held_after(k)),
    decreases k,
{
    if k > 0 {
        lemma_task_count_bounded((k - 1) as nat);
    }
}

/// What the client found when it polled its queue of outgoing batches.
pub enum ClientPoll<A> {
    /// Batches to send.
    Batches(Vec<RawMsgsWithAddr<A>>),
    /// Nothing is queued at the moment.
    Empty,
    /// Every sender is gone.
    Disconnected,
}

/// What the client does next.
pub enum ClientAction<A> {
    /// Send each of these batches, then poll again.
    Send(Vec<RawMsgsWithAddr<A>>),
    /// Stop: the client loop ends.
    Stop,
}

impl QuicClient {
    /// The client's decision after a poll: queued batches are sent, and the
    /// loop ends as soon as a poll finds nothing, whether the queue is only
    /// empty for now or closed.
    pub fn on_poll<A>(poll: ClientPoll<A>) -> (action: ClientAction<A>)
        ensures
            match poll {
                ClientPoll::Batches(batches) => action == ClientAction::Send(batches),
                ClientPoll::Empty => action is Stop,
                ClientPoll::Disconnected => action is Stop,
            },
    {
        match poll {
            ClientPoll::Batches(batches) => ClientAction::Send(batches),
            ClientPoll::Empty => ClientAction::Stop,
            ClientPoll::Disconnected => ClientAction::Stop,
        }
    }
}

/// What happened on a connection that the server accepted.
pub enum StreamEvent {
    /// A bidirectional stream was opened and read to its end.
    Read(Vec<u8>),
    /// A stream was opened but reading it failed.
    ReadFailed,
    /// No further stream could be accepted on the connection.
    AcceptFailed,
}

/// What the server does next on that connection.
pub enum StreamAction<A> {
    /// Hand the decoded batch to the message processor.
    Forward(RawMsgsWithAddr<A>),
    /// Drop what was read and wait for the next stream.
    Skip,
    /// Close the connection and stop serving it.
    Close,
}

impl QuicServer {
    /// The server's decision for one event on a connection with the peer at
    /// `remote`: a stream that decodes is forwarded, one that does not, or
    /// that could not be read, is dropped, and a failed accept closes the
    /// connection.
    pub fn on_stream_event<A>(event: StreamEvent, remote: A) -> (action: StreamAction<A>)
        ensures
            match event {
                StreamEvent::Read(data) => match action {
                    StreamAction::Forward(msgs) => parse_frames(data@) == Some(msgs_view(msgs.0@))
                        && msgs.1 == remote,
                    StreamAction::Skip => parse_frames(data@) is None,
                    StreamAction::Close => false,
                },
                StreamEvent::ReadFailed => action is Skip,
                StreamEvent::AcceptFailed => action is Close,
            },
    {
        match event {
            StreamEvent::Read(data) => {
                let wire_msg = WireMessageWithAddr(data, remote);
                match wire_msg.to_raw_msgs() {
                    Ok(raw_msgs) => StreamAction::Forward(raw_msgs),
                    Err(_) => StreamAction::Skip,
                }
            },
            StreamEvent::ReadFailed => StreamAction::Skip,
            StreamEvent::AcceptFailed => StreamAction::Close,
        }
    }
}

} // verus!
