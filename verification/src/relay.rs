//! The two directions of a relayed connection: what to do next, given what
//! happened last.
//!
//! Each direction is a state machine. A state says what is to be done, and an
//! event is the answer to it. An event that answers something else than the state
//! asks for is ignored.

use vstd::prelude::*;

verus! {

/// The size of the buffer that data from the TCP backend is read into.
pub const BUFFER_SIZE: usize = 8192;

/// What comes from the WebSocket client.
pub enum WsEvent {
    /// A binary message.
    Binary(Vec<u8>),
    /// A text message.
    Text,
    /// A close message.
    Close,
    /// A ping, a pong or a raw frame.
    Control,
    /// The client went away, with or without a closing handshake.
    Disconnected,
    /// The connection failed.
    Failed,
    /// There are no more messages.
    Ended,
}

/// The error of a relayed connection.
#[derive(Clone, Copy, Debug, PartialEq, Eq, Structural)]
pub enum RelayError {
    /// Data from the WebSocket could not be written to the TCP connection.
    TcpWrite,
    /// Data from the TCP connection could not be sent over the WebSocket.
    WsSend,
}

/// The state of the direction from the WebSocket to the TCP backend.
pub enum Upstream {
    /// Receive the next message.
    Receive,
    /// Write this data to the backend.
    Write(Vec<u8>),
    /// The direction has ended.
    Done,
    /// The direction has failed.
    Failed(RelayError),
}

/// What happened in the direction from the WebSocket to the TCP backend.
pub enum UpstreamEvent {
    Received(WsEvent),
    Written,
    WriteFailed,
}

/// The state of the direction from the TCP backend to the WebSocket.
pub enum Downstream {
    /// Read from the backend.
    Read,
    /// Send this data as one binary message.
    Send(Vec<u8>),
    /// The direction has ended.
    Done,
    /// The direction has failed.
    Failed(RelayError),
}

/// What happened in the direction from the TCP backend to the WebSocket.
pub enum DownstreamEvent {
    /// This data was read; none if the backend closed the connection.
    Read(Vec<u8>),
    ReadFailed,
    Sent,
    SendFailed,
}

impl RelayError {
    /// The description of the error.
    pub open spec fn message_text(self) -> Seq<char> {
        match self {
            RelayError::TcpWrite => "Failed to write WebSocket data to TCP connection"@,
            RelayError::WsSend => "Failed to send TCP data via WebSocket"@,
        }
    }

    /// Describes the error.
    pub fn message(&self) -> (message: String)
        ensures
            message@ == self.message_text(),
    {
        match self {
            RelayError::TcpWrite => "Failed to write WebSocket data to TCP connection".to_owned(),
            RelayError::WsSend => "Failed to send TCP data via WebSocket".to_owned(),
        }
    }
}

impl Upstream {
    /// The state after `event`: binary messages are written to the backend as
    /// they are, text and control messages are dropped, and everything else ends
    /// the direction.
    pub open spec fn after(self, event: UpstreamEvent) -> Upstream {
        match (self, event) {
            (Upstream::Receive, UpstreamEvent::Received(received)) => match received {
                WsEvent::Binary(data) => Upstream::Write(data),
                WsEvent::Text | WsEvent::Control => Upstream::Receive,
                WsEvent::Close | WsEvent::Disconnected | WsEvent::Failed | WsEvent::Ended => {
                    Upstream::Done
                },
            },
            (Upstream::Write(_), UpstreamEvent::Written) => Upstream::Receive,
            (Upstream::Write(_), UpstreamEvent::WriteFailed) => Upstream::Failed(
                RelayError::TcpWrite,
            ),
            _ => self,
        }
    }

    /// Moves on to the state after `event`.
    pub fn next(self, event: UpstreamEvent) -> (next: Upstream)
        ensures
            next == self.after(event),
    {
        match (self, event) {
            (Upstream::Receive, UpstreamEvent::Received(received)) => match received {
                WsEvent::Binary(data) => Upstream::Write(data),
                WsEvent::Text | WsEvent::Control => Upstream::Receive,
                WsEvent::Close | WsEvent::Disconnected | WsEvent::Failed | WsEvent::Ended => {
                    Upstream::Done
                },
            },
            (Upstream::Write(_), UpstreamEvent::Written) => Upstream::Receive,
            (Upstream::Write(_), UpstreamEvent::WriteFailed) => Upstream::Failed(
                RelayError::TcpWrite,
            ),
            (current, _) => current,
        }
    }

    /// How the direction ended, if it has.
    pub open spec fn ended(self) -> Option<Result<(), RelayError>> {
        match self {
            Upstream::Receive | Upstream::Write(_) => None,
            Upstream::Done => Some(Ok(())),
            Upstream::Failed(error) => Some(Err(error)),
        }
    }

    /// Tells how the direction ended, if it has.
    pub fn outcome(&self) -> (outcome: Option<Result<(), RelayError>>)
        ensures
            outcome == self.ended(),
    {
        match self {
            Upstream::Done => Some(Ok(())),
            Upstream::Failed(error) => Some(Err(*error)),
            Upstream::Receive => None,
            Upstream::Write(_) => None,
        }
    }
}

impl Downstream {
    /// The state after `event`: data that was read is sent as it is, one message
    /// for each reading, and an empty or failed reading ends the direction.
    pub open spec fn after(self, event: DownstreamEvent) -> Downstream {
        match (self, event) {
            (Downstream::Read, DownstreamEvent::Read(data)) => if data@.len() == 0 {
                Downstream::Done
            } else {
                Downstream::Send(data)
            },
            (Downstream::Read, DownstreamEvent::ReadFailed) => Downstream::Done,
            (Downstream::Send(_), DownstreamEvent::Sent) => Downstream::Read,
            (Downstream::Send(_), DownstreamEvent::SendFailed) => Downstream::Failed(
                RelayError::WsSend,
            ),
            _ => self,
        }
    }

    /// Moves on to the state after `event`.
    pub fn next(self, event: DownstreamEvent) -> (next: Downstream)
        ensures
            next == self.after(event),
    {
        match (self, event) {
            (Downstream::Read, DownstreamEvent::Read(data)) => {
                if data.len() == 0 {
                    Downstream::Done
                } else {
                    Downstream::Send(data)
                }
            },
            (Downstream::Read, DownstreamEvent::ReadFailed) => Downstream::Done,
            (Downstream::Send(_), DownstreamEvent::Sent) => Downstream::Read,
            (Downstream::Send(_), DownstreamEvent::SendFailed) => Downstream::Failed(
                RelayError::WsSend,
            ),
            (current, _) => current,
        }
    }

    /// How the direction ended, if it has.
    pub open spec fn ended(self) -> Option<Result<(), RelayError>> {
        match self {
            Downstream::Read | Downstream::Send(_) => None,
            Downstream::Done => Some(Ok(())),
            Downstream::Failed(error) => Some(Err(error)),
        }
    }

    /// Tells how the direction ended, if it has.
    pub fn outcome(&self) -> (outcome: Option<Result<(), RelayError>>)
        ensures
            outcome == self.ended(),
    {
        match self {
            Downstream::Done => Some(Ok(())),
            Downstream::Failed(error) => Some(Err(*error)),
            Downstream::Read => None,
            Downstream::Send(_) => None,
        }
    }
}

/// `states` are the states that the direction to the backend goes through under
/// `events`.
pub open spec fn is_upstream_run(states: Seq<Upstream>, events: Seq<UpstreamEvent>) -> bool {
    &&& states.len() == events.len() + 1
    &&& states[0] == Upstream::Receive
    &&& forall|i: int| 0 <= i < events.len() ==> states[i + 1] == states[i].after(#[trigger] events[i])
}

/// The binary messages that were received in a run, in their order.
pub open spec fn binary_received(states: Seq<Upstream>, events: Seq<UpstreamEvent>) -> Seq<Seq<u8>>
    decreases events.len(),
{
    if events.len() == 0 {
        Seq::empty()
    } else {
        let before = binary_received(states.drop_last(), events.drop_last());
        match (states[events.len() - 1], events.last()) {
            (Upstream::Receive, UpstreamEvent::Received(WsEvent::Binary(data))) => before.push(
                data@,
            ),
            _ => before,
        }
    }
}

/// The data that was written to the backend in a run, in its order.
pub open spec fn data_written(states: Seq<Upstream>, events: Seq<UpstreamEvent>) -> Seq<Seq<u8>>
    decreases events.len(),
{
    if events.len() == 0 {
        Seq::empty()
    } else {
        let before = data_written(states.drop_last(), events.drop_last());
        match (states[events.len() - 1], events.last()) {
            (Upstream::Write(data), UpstreamEvent::Written) => before.push(data@),
            _ => before,
        }
    }
}

proof fn lemma_upstream_prefix(states: Seq<Upstream>, events: Seq<UpstreamEvent>)
    requires
        is_upstream_run(states, events),
        events.len() > 0,
    ensures
        is_upstream_run(states.drop_last(), events.drop_last()),
        states.last() == states[events.len() - 1].after(events.last()),
        states.drop_last().last() == states[events.len() - 1],
{
    let earlier = events.drop_last();
    assert forall|i: int| 0 <= i < earlier.len() implies states.drop_last()[i + 1]
        == states.drop_last()[i].after(#[trigger] earlier[i]) by {
        assert(earlier[i] == events[i]);
    }
    assert(states[events.len() - 1 + 1] == states[events.len() - 1].after(events[events.len() - 1]));
}

/// Every binary message reaches the backend, once, unchanged and in its order,
/// and nothing else does: what was written is what was received, but for the
/// message at hand while it is being written or where writing it failed.
pub proof fn law_binary_messages_reach_the_backend(
    states: Seq<Upstream>,
    events: Seq<UpstreamEvent>,
)
    requires
        is_upstream_run(states, events),
    ensures
        match states.last() {
            Upstream::Receive | Upstream::Done => data_written(states, events) == binary_received(
                states,
                events,
            ),
            Upstream::Write(data) => data_written(states, events).push(data@) == binary_received(
                states,
                events,
            ),
            Upstream::Failed(_) => binary_received(states, events).len() > 0 && data_written(
                states,
                events,
            ) == binary_received(states, events).drop_last(),
        },
    decreases events.len(),
{
    if events.len() > 0 {
        lemma_upstream_prefix(states, events);
        law_binary_messages_reach_the_backend(states.drop_last(), events.drop_last());
        let written = data_written(states.drop_last(), events.drop_last());
        assert forall|data: Seq<u8>| #[trigger] written.push(data).drop_last() == written by {
            assert(written.push(data).drop_last() =~= written);
        }
    }
}

/// Only binary messages make the relay write to the backend: text and control
/// messages are dropped, and the relay goes on to receive the next message.
pub proof fn law_only_binary_messages_are_written(state: Upstream, event: UpstreamEvent)
    ensures
        state.after(event) is Write && state !is Write ==> (event matches UpstreamEvent::Received(
            WsEvent::Binary(data),
        ) && state.after(event) == Upstream::Write(data)),
        state is Receive && (event == UpstreamEvent::Received(WsEvent::Text) || event
            == UpstreamEvent::Received(WsEvent::Control)) ==> state.after(event) is Receive,
{
}

/// A direction to the backend that has ended or failed stays so.
pub proof fn law_ended_upstream_stays_ended(state: Upstream, event: UpstreamEvent)
    requires
        state is Done || state is Failed,
    ensures
        state.after(event) == state,
{
}

/// `states` are the states that the direction to the WebSocket goes through under
/// `events`.
pub open spec fn is_downstream_run(states: Seq<Downstream>, events: Seq<DownstreamEvent>) -> bool {
    &&& states.len() == events.len() + 1
    &&& states[0] == Downstream::Read
    &&& forall|i: int| 0 <= i < events.len() ==> states[i + 1] == states[i].after(#[trigger] events[i])
}

/// The data that was read from the backend in a run, in its order.
pub open spec fn data_read(states: Seq<Downstream>, events: Seq<DownstreamEvent>) -> Seq<Seq<u8>>
    decreases events.len(),
{
    if events.len() == 0 {
        Seq::empty()
    } else {
        let before = data_read(states.drop_last(), events.drop_last());
        match (states[events.len() - 1], events.last()) {
            (Downstream::Read, DownstreamEvent::Read(data)) => if data@.len() == 0 {
                before
            } else {
                before.push(data@)
            },
            _ => before,
        }
    }
}

/// The binary messages that were sent over the WebSocket in a run, in their
/// order.
pub open spec fn messages_sent(states: Seq<Downstream>, events: Seq<DownstreamEvent>) -> Seq<
    Seq<u8>,
>
    decreases events.len(),
{
    if events.len() == 0 {
        Seq::empty()
    } else {
        let before = messages_sent(states.drop_last(), events.drop_last());
        match (states[events.len() - 1], events.last()) {
            (Downstream::Send(data), DownstreamEvent::Sent) => before.push(data@),
            _ => before,
        }
    }
}

proof fn lemma_downstream_prefix(states: Seq<Downstream>, events: Seq<DownstreamEvent>)
    requires
        is_downstream_run(states, events),
        events.len() > 0,
    ensures
        is_downstream_run(states.drop_last(), events.drop_last()),
        states.last() == states[events.len() - 1].after(events.last()),
        states.drop_last().last() == states[events.len() - 1],
{
    let earlier = events.drop_last();
    assert forall|i: int| 0 <= i < earlier.len() implies states.drop_last()[i + 1]
        == states.drop_last()[i].after(#[trigger] earlier[i]) by {
        assert(earlier[i] == events[i]);
    }
    assert(states[events.len() - 1 + 1] == states[events.len() - 1].after(events[events.len() - 1]));
}

/// All data from the backend reaches the WebSocket client, once, unchanged and in
/// its order, and nothing else does: what was sent is what was read, but for the
/// data at hand while it is being sent or where sending it failed.
pub proof fn law_backend_data_reaches_the_client(
    states: Seq<Downstream>,
    events: Seq<DownstreamEvent>,
)
    requires
        is_downstream_run(states, events),
    ensures
        match states.last() {
            Downstream::Read | Downstream::Done => messages_sent(states, events) == data_read(
                states,
                events,
            ),
            Downstream::Send(data) => messages_sent(states, events).push(data@) == data_read(
                states,
                events,
            ),
            Downstream::Failed(_) => data_read(states, events).len() > 0 && messages_sent(
                states,
                events,
            ) == data_read(states, events).drop_last(),
        },
    decreases events.len(),
{
    if events.len() > 0 {
        lemma_downstream_prefix(states, events);
        law_backend_data_reaches_the_client(states.drop_last(), events.drop_last());
        let sent = messages_sent(states.drop_last(), events.drop_last());
        assert forall|data: Seq<u8>| #[trigger] sent.push(data).drop_last() == sent by {
            assert(sent.push(data).drop_last() =~= sent);
        }
    }
}

/// A message to the client is never empty, and no larger than the buffer where
/// every reading fits into it.
pub proof fn law_messages_fit_the_buffer(states: Seq<Downstream>, events: Seq<DownstreamEvent>)
    requires
        is_downstream_run(states, events),
        forall|i: int|
            0 <= i < events.len() ==> (#[trigger] events[i] matches DownstreamEvent::Read(data)
                ==> data@.len() <= BUFFER_SIZE),
    ensures
        states.last() matches Downstream::Send(data) ==> 0 < data@.len() <= BUFFER_SIZE,
        forall|i: int|
            0 <= i < messages_sent(states, events).len() ==> 0 < (#[trigger] messages_sent(
                states,
                events,
            )[i]).len() <= BUFFER_SIZE,
    decreases events.len(),
{
    if events.len() > 0 {
        lemma_downstream_prefix(states, events);
        let earlier = events.drop_last();
        assert forall|i: int| 0 <= i < earlier.len() implies (
        #[trigger] earlier[i] matches DownstreamEvent::Read(data) ==> data@.len() <= BUFFER_SIZE) by {
            assert(earlier[i] == events[i]);
        }
        law_messages_fit_the_buffer(states.drop_last(), earlier);
        assert(events[events.len() - 1] == events.last());
        let before = messages_sent(states.drop_last(), earlier);
        let sent = messages_sent(states, events);
        assert forall|i: int| 0 <= i < sent.len() implies 0 < (#[trigger] sent[i]).len()
            <= BUFFER_SIZE by {
            if i < before.len() {
                assert(sent[i] == before[i]);
            }
        }
    }
}

/// A direction to the WebSocket that has ended or failed stays so.
pub proof fn law_ended_downstream_stays_ended(state: Downstream, event: DownstreamEvent)
    requires
        state is Done || state is Failed,
    ensures
        state.after(event) == state,
{
}

/// A direction to the backend has data to write exactly where it has just received it
/// as a binary message, or still waits for the answer to writing it. The data is that
/// of the message.
pub proof fn law_what_is_written_was_received(
    state: Upstream,
    event: UpstreamEvent,
    after: Upstream,
    data: Vec<u8>,
)
    requires
        call_ensures(Upstream::next, (state, event), after),
    ensures
        after == Upstream::Write(data) <==> {
            ||| state is Receive && event == UpstreamEvent::Received(WsEvent::Binary(data))
            ||| state == Upstream::Write(data) && event is Received
        },
{
}

/// A direction to the backend receives the next message exactly where data, whatever
/// it is, was written, where a message was dropped, or where it was receiving and
/// nothing came.
pub proof fn law_writing_makes_room_for_the_next_message(
    state: Upstream,
    event: UpstreamEvent,
    after: Upstream,
)
    requires
        call_ensures(Upstream::next, (state, event), after),
    ensures
        after is Receive <==> {
            ||| state is Write && event is Written
            ||| state is Receive && event !is Received
            ||| state is Receive && event == UpstreamEvent::Received(WsEvent::Text)
            ||| state is Receive && event == UpstreamEvent::Received(WsEvent::Control)
        },
{
}

/// A direction to the backend ends exactly where the client closes, disconnects, fails
/// or has no more messages, and only while it receives.
pub proof fn law_upstream_ends_with_the_client(
    state: Upstream,
    event: UpstreamEvent,
    after: Upstream,
)
    requires
        call_ensures(Upstream::next, (state, event), after),
        state !is Done,
    ensures
        after is Done <==> state is Receive && {
            ||| event == UpstreamEvent::Received(WsEvent::Close)
            ||| event == UpstreamEvent::Received(WsEvent::Disconnected)
            ||| event == UpstreamEvent::Received(WsEvent::Failed)
            ||| event == UpstreamEvent::Received(WsEvent::Ended)
        },
{
}

/// A direction to the backend fails exactly where writing fails, with the error of
/// that.
pub proof fn law_upstream_fails_with_the_backend(
    state: Upstream,
    event: UpstreamEvent,
    after: Upstream,
)
    requires
        call_ensures(Upstream::next, (state, event), after),
        state !is Failed,
    ensures
        after is Failed <==> state is Write && event is WriteFailed,
        after is Failed ==> after == Upstream::Failed(RelayError::TcpWrite),
{
}

/// What was done or failed in the direction to the backend is final, whatever happens.
pub proof fn law_upstream_end_is_final(state: Upstream, event: UpstreamEvent, after: Upstream)
    requires
        call_ensures(Upstream::next, (state, event), after),
        state is Done || state is Failed,
    ensures
        after == state,
{
}

/// A direction to the backend has an outcome exactly where it is done or has failed:
/// success in the one case and the error in the other.
pub proof fn law_upstream_outcome_comes_at_the_end(
    state: Upstream,
    outcome: Option<Result<(), RelayError>>,
    error: RelayError,
)
    requires
        call_ensures(Upstream::outcome, (&state,), outcome),
    ensures
        outcome is None <==> state is Receive || state is Write,
        outcome == Some(Ok::<(), RelayError>(())) <==> state is Done,
        outcome == Some(Err::<(), RelayError>(error)) <==> state == Upstream::Failed(error),
{
}

/// A client that sends binary messages has each of them written to the backend, as it
/// is and in its turn, as long as writing succeeds, however many they are and whatever
/// they hold.
pub proof fn law_every_message_has_its_turn(
    states: Seq<Upstream>,
    messages: Seq<Vec<u8>>,
    n: int,
)
    requires
        states.len() == 2 * messages.len() + 1,
        states[0] is Receive,
        forall|i: int|
            0 <= i < messages.len() ==> {
                &&& call_ensures(
                    Upstream::next,
                    (
                        states[2 * i],
                        UpstreamEvent::Received(WsEvent::Binary(#[trigger] messages[i])),
                    ),
                    states[2 * i + 1],
                )
                &&& call_ensures(
                    Upstream::next,
                    (states[2 * i + 1], UpstreamEvent::Written),
                    states[2 * i + 2],
                )
            },
        0 <= n <= messages.len(),
    ensures
        states[2 * n] is Receive,
        forall|i: int| 0 <= i < n ==> states[2 * i + 1] == Upstream::Write(#[trigger] messages[i]),
    decreases n,
{
    if n > 0 {
        law_every_message_has_its_turn(states, messages, n - 1);
        let message = messages[n - 1];
        assert(states[2 * (n - 1)] is Receive);
        assert(states[2 * (n - 1) + 1] == Upstream::Write(message));
        assert(states[2 * (n - 1) + 2] is Receive);
    }
}

/// A direction to the backend goes on as long as the client neither ends nor fails and
/// no writing fails.
pub proof fn law_upstream_lasts(
    states: Seq<Upstream>,
    events: Seq<UpstreamEvent>,
    n: int,
    outcome: Option<Result<(), RelayError>>,
)
    requires
        states.len() == events.len() + 1,
        states[0] is Receive,
        forall|i: int|
            0 <= i < events.len() ==> call_ensures(
                Upstream::next,
                (states[i], #[trigger] events[i]),
                states[i + 1],
            ),
        forall|i: int|
            0 <= i < events.len() ==> {
                ||| #[trigger] events[i] is Written
                ||| events[i] == UpstreamEvent::Received(WsEvent::Text)
                ||| events[i] == UpstreamEvent::Received(WsEvent::Control)
                ||| events[i] matches UpstreamEvent::Received(WsEvent::Binary(_))
            },
        0 <= n <= events.len(),
        call_ensures(Upstream::outcome, (&states[n],), outcome),
    ensures
        outcome is None,
        states[n] is Receive || states[n] is Write,
{
    lemma_upstream_lasts(states, events, n);
}

proof fn lemma_upstream_lasts(states: Seq<Upstream>, events: Seq<UpstreamEvent>, n: int)
    requires
        states.len() == events.len() + 1,
        states[0] is Receive,
        forall|i: int|
            0 <= i < events.len() ==> call_ensures(
                Upstream::next,
                (states[i], #[trigger] events[i]),
                states[i + 1],
            ),
        forall|i: int|
            0 <= i < events.len() ==> {
                ||| #[trigger] events[i] is Written
                ||| events[i] == UpstreamEvent::Received(WsEvent::Text)
                ||| events[i] == UpstreamEvent::Received(WsEvent::Control)
                ||| events[i] matches UpstreamEvent::Received(WsEvent::Binary(_))
            },
        0 <= n <= events.len(),
    ensures
        states[n] is Receive || states[n] is Write,
    decreases n,
{
    if n > 0 {
        lemma_upstream_lasts(states, events, n - 1);
        assert(call_ensures(Upstream::next, (states[n - 1], events[n - 1]), states[n - 1 + 1]));
    }
}

/// A direction to the WebSocket has a message to send exactly where it has just read
/// its data, which is not empty, or still waits for the answer to sending it. The
/// message holds all that was read and nothing else.
pub proof fn law_what_is_sent_was_read(
    state: Downstream,
    event: DownstreamEvent,
    after: Downstream,
    data: Vec<u8>,
)
    requires
        call_ensures(Downstream::next, (state, event), after),
    ensures
        after == Downstream::Send(data) <==> {
            ||| state is Read && event == DownstreamEvent::Read(data) && data@.len() > 0
            ||| state == Downstream::Send(data) && (event is Read || event is ReadFailed)
        },
{
}

/// A direction to the WebSocket reads from the backend exactly where a message,
/// whatever it held, was sent, or where it was reading and nothing was read.
pub proof fn law_sending_makes_room_for_the_next_reading(
    state: Downstream,
    event: DownstreamEvent,
    after: Downstream,
)
    requires
        call_ensures(Downstream::next, (state, event), after),
    ensures
        after is Read <==> {
            ||| state is Send && event is Sent
            ||| state is Read && (event is Sent || event is SendFailed)
        },
{
}

/// A direction to the WebSocket ends exactly where the backend closes the connection,
/// which is an empty reading, or where reading fails, and only while it reads.
pub proof fn law_downstream_ends_with_the_backend(
    state: Downstream,
    event: DownstreamEvent,
    after: Downstream,
)
    requires
        call_ensures(Downstream::next, (state, event), after),
        state !is Done,
    ensures
        after is Done <==> state is Read && {
            ||| event is ReadFailed
            ||| event matches DownstreamEvent::Read(data) && data@.len() == 0
        },
{
}

/// A direction to the WebSocket fails exactly where sending fails, with the error of
/// that.
pub proof fn law_downstream_fails_with_the_client(
    state: Downstream,
    event: DownstreamEvent,
    after: Downstream,
)
    requires
        call_ensures(Downstream::next, (state, event), after),
        state !is Failed,
    ensures
        after is Failed <==> state is Send && event is SendFailed,
        after is Failed ==> after == Downstream::Failed(RelayError::WsSend),
{
}

/// What was done or failed in the direction to the WebSocket is final, whatever
/// happens.
pub proof fn law_downstream_end_is_final(
    state: Downstream,
    event: DownstreamEvent,
    after: Downstream,
)
    requires
        call_ensures(Downstream::next, (state, event), after),
        state is Done || state is Failed,
    ensures
        after == state,
{
}

/// A direction to the WebSocket has an outcome exactly where it is done or has failed:
/// success in the one case and the error in the other.
pub proof fn law_downstream_outcome_comes_at_the_end(
    state: Downstream,
    outcome: Option<Result<(), RelayError>>,
    error: RelayError,
)
    requires
        call_ensures(Downstream::outcome, (&state,), outcome),
    ensures
        outcome is None <==> state is Read || state is Send,
        outcome == Some(Ok::<(), RelayError>(())) <==> state is Done,
        outcome == Some(Err::<(), RelayError>(error)) <==> state == Downstream::Failed(error),
{
}

/// A backend that sends data has each reading of it sent to the client, as it is and
/// in its turn, as long as sending succeeds, however many they are and whatever they
/// hold.
pub proof fn law_every_reading_has_its_turn(
    states: Seq<Downstream>,
    readings: Seq<Vec<u8>>,
    n: int,
)
    requires
        states.len() == 2 * readings.len() + 1,
        states[0] is Read,
        forall|i: int|
            0 <= i < readings.len() ==> {
                &&& call_ensures(
                    Downstream::next,
                    (states[2 * i], DownstreamEvent::Read(#[trigger] readings[i])),
                    states[2 * i + 1],
                )
                &&& call_ensures(
                    Downstream::next,
                    (states[2 * i + 1], DownstreamEvent::Sent),
                    states[2 * i + 2],
                )
                &&& readings[i]@.len() > 0
            },
        0 <= n <= readings.len(),
    ensures
        states[2 * n] is Read,
        forall|i: int| 0 <= i < n ==> states[2 * i + 1] == Downstream::Send(#[trigger] readings[i]),
    decreases n,
{
    if n > 0 {
        law_every_reading_has_its_turn(states, readings, n - 1);
        let reading = readings[n - 1];
        assert(states[2 * (n - 1)] is Read);
        assert(states[2 * (n - 1) + 1] == Downstream::Send(reading));
        assert(states[2 * (n - 1) + 2] is Read);
    }
}

/// A direction to the WebSocket goes on as long as readings are not empty, none fails
/// and no sending fails.
pub proof fn law_downstream_lasts(
    states: Seq<Downstream>,
    events: Seq<DownstreamEvent>,
    n: int,
    outcome: Option<Result<(), RelayError>>,
)
    requires
        states.len() == events.len() + 1,
        states[0] is Read,
        forall|i: int|
            0 <= i < events.len() ==> call_ensures(
                Downstream::next,
                (states[i], #[trigger] events[i]),
                states[i + 1],
            ),
        forall|i: int|
            0 <= i < events.len() ==> {
                ||| #[trigger] events[i] is Sent
                ||| events[i] matches DownstreamEvent::Read(data) && data@.len() > 0
            },
        0 <= n <= events.len(),
        call_ensures(Downstream::outcome, (&states[n],), outcome),
    ensures
        outcome is None,
        states[n] is Read || states[n] is Send,
{
    lemma_downstream_lasts(states, events, n);
}

proof fn lemma_downstream_lasts(states: Seq<Downstream>, events: Seq<DownstreamEvent>, n: int)
    requires
        states.len() == events.len() + 1,
        states[0] is Read,
        forall|i: int|
            0 <= i < events.len() ==> call_ensures(
                Downstream::next,
                (states[i], #[trigger] events[i]),
                states[i + 1],
            ),
        forall|i: int|
            0 <= i < events.len() ==> {
                ||| #[trigger] events[i] is Sent
                ||| events[i] matches DownstreamEvent::Read(data) && data@.len() > 0
            },
        0 <= n <= events.len(),
    ensures
        states[n] is Read || states[n] is Send,
    decreases n,
{
    if n > 0 {
        lemma_downstream_lasts(states, events, n - 1);
        assert(call_ensures(Downstream::next, (states[n - 1], events[n - 1]), states[n - 1 + 1]));
    }
}

/// An error says which of the two sides failed.
pub proof fn law_relay_errors_name_the_failed_side(error: RelayError, message: String)
    requires
        call_ensures(RelayError::message, (&error,), message),
    ensures
        error is TcpWrite <==> message@ == "Failed to write WebSocket data to TCP connection"@,
        error is WsSend <==> message@ == "Failed to send TCP data via WebSocket"@,
{
    reveal_strlit("Failed to write WebSocket data to TCP connection");
    reveal_strlit("Failed to send TCP data via WebSocket");
    assert("Failed to write WebSocket data to TCP connection"@.len()
        != "Failed to send TCP data via WebSocket"@.len());
}

} // verus!
