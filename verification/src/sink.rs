//! The sink: the one task that owns the output and writes what the units
//! send to it.
//!
//! Receiving and writing are the caller's work. This module holds the
//! decisions: the caller hands over what its channel gave it and does what the
//! returned action says. On `Close` the sink stops accepting messages and
//! writes what was queued before: it drains, then stops.

use vstd::prelude::*;

verus! {

/// The number of messages that the channel to the sink can hold.
pub const CHANNEL_CAPACITY: usize = 10000;

/// What a unit or the orchestrator sends to the sink.
#[derive(Debug, PartialEq, Eq)]
pub enum Message {
    /// A block of text to append to the output.
    Data(String),
    /// No more blocks will follow.
    Close,
}

/// A `Message` as text.
pub enum MessageView {
    Data(Seq<char>),
    Close,
}

impl View for Message {
    type V = MessageView;

    open spec fn view(&self) -> MessageView {
        match self {
            Message::Data(text) => MessageView::Data(text@),
            Message::Close => MessageView::Close,
        }
    }
}

/// What the channel gave as text: a message, or `None` once the channel is
/// closed and empty.
pub open spec fn received_view(received: Option<Message>) -> Option<MessageView> {
    match received {
        Some(message) => Some(message@),
        None => None,
    }
}

/// Where the sink stands.
#[derive(Clone, Copy, Debug, PartialEq, Eq, Structural)]
pub enum SinkState {
    /// Messages are accepted and written.
    Open,
    /// `Close` was received: no message is accepted any more, those queued
    /// before are still written.
    Draining,
    /// The output was flushed and released.
    Stopped,
}

/// What the caller does next.
#[derive(Debug, PartialEq, Eq)]
pub enum SinkAction {
    /// Append this text to the output, in one piece.
    Write(String),
    /// Close the receiving end of the channel, so that no sender can queue
    /// another message.
    CloseChannel,
    /// Flush the output, release it and end the task.
    Flush,
    /// Nothing.
    Nothing,
}

/// A `SinkAction` as text.
pub enum SinkActionView {
    Write(Seq<char>),
    CloseChannel,
    Flush,
    Nothing,
}

impl View for SinkAction {
    type V = SinkActionView;

    open spec fn view(&self) -> SinkActionView {
        match self {
            SinkAction::Write(text) => SinkActionView::Write(text@),
            SinkAction::CloseChannel => SinkActionView::CloseChannel,
            SinkAction::Flush => SinkActionView::Flush,
            SinkAction::Nothing => SinkActionView::Nothing,
        }
    }
}

/// The state of the sink after it received `received`.
pub open spec fn next_state(state: SinkState, received: Option<MessageView>) -> SinkState {
    match (state, received) {
        (SinkState::Stopped, _) => SinkState::Stopped,
        (_, None) => SinkState::Stopped,
        (_, Some(MessageView::Close)) => SinkState::Draining,
        (_, Some(MessageView::Data(_))) => state,
    }
}

/// The action that goes with a step from `state`.
pub open spec fn next_action(state: SinkState, received: Option<MessageView>) -> SinkActionView {
    match (state, received) {
        (SinkState::Stopped, _) => SinkActionView::Nothing,
        (_, None) => SinkActionView::Flush,
        (SinkState::Open, Some(MessageView::Close)) => SinkActionView::CloseChannel,
        (_, Some(MessageView::Close)) => SinkActionView::Nothing,
        (_, Some(MessageView::Data(text))) => SinkActionView::Write(text),
    }
}

impl SinkState {
    /// The state in which the sink starts.
    pub fn start() -> (state: SinkState)
        ensures
            state == SinkState::Open,
    {
        SinkState::Open
    }

    /// Takes in what the channel gave: a message, or `None` once the channel
    /// is closed and empty.
    pub fn step(self, received: Option<Message>) -> (stepped: (SinkState, SinkAction))
        ensures
            stepped.0 == next_state(self, received_view(received)),
            stepped.1@ == next_action(self, received_view(received)),
    {
        match self {
            SinkState::Stopped => (SinkState::Stopped, SinkAction::Nothing),
            SinkState::Open => match received {
                None => (SinkState::Stopped, SinkAction::Flush),
                Some(Message::Close) => (SinkState::Draining, SinkAction::CloseChannel),
                Some(Message::Data(text)) => (SinkState::Open, SinkAction::Write(text)),
            },
            SinkState::Draining => match received {
                None => (SinkState::Stopped, SinkAction::Flush),
                Some(Message::Close) => (SinkState::Draining, SinkAction::Nothing),
                Some(Message::Data(text)) => (SinkState::Draining, SinkAction::Write(text)),
            },
        }
    }
}

/// The state after a run of receptions, taken in their order.
pub open spec fn state_after(state: SinkState, received: Seq<Option<MessageView>>) -> SinkState
    decreases received.len(),
{
    if received.len() == 0 {
        state
    } else {
        next_state(state_after(state, received.drop_last()), received.last())
    }
}

/// The actions of a run of receptions, one for each reception.
pub open spec fn actions_of(state: SinkState, received: Seq<Option<MessageView>>) -> Seq<
    SinkActionView,
>
    decreases received.len(),
{
    if received.len() == 0 {
        Seq::empty()
    } else {
        actions_of(state, received.drop_last()).push(
            next_action(state_after(state, received.drop_last()), received.last()),
        )
    }
}

/// Every reception before the `at`-th gave a message: the task has not ended.
pub open spec fn alive_at(received: Seq<Option<MessageView>>, at: int) -> bool {
    forall|j: int| 0 <= j < at ==> (#[trigger] received[j]) is Some
}

/// A reception before the `at`-th gave `Close`.
pub open spec fn closed_at(received: Seq<Option<MessageView>>, at: int) -> bool {
    exists|j: int| 0 <= j < at && #[trigger] received[j] == Some(MessageView::Close)
}

/// The state of a sink before its `at`-th reception: stopped once the channel
/// gave `None`, draining once it gave `Close`, else open.
pub proof fn lemma_state_before(received: Seq<Option<MessageView>>, at: int)
    requires
        0 <= at <= received.len(),
    ensures
        state_after(SinkState::Open, received.take(at)) == if !alive_at(received, at) {
            SinkState::Stopped
        } else if closed_at(received, at) {
            SinkState::Draining
        } else {
            SinkState::Open
        },
    decreases at,
{
    if at > 0 {
        lemma_state_before(received, at - 1);
        assert(received.take(at).drop_last() =~= received.take(at - 1));
        assert(received.take(at).last() == received[at - 1]);
        if closed_at(received, at - 1) {
            let j = choose|j: int| 0 <= j < at - 1 && #[trigger] received[j] == Some(
                MessageView::Close,
            );
            assert(received[j] == Some(MessageView::Close));
        }
        if closed_at(received, at) && !closed_at(received, at - 1) {
            assert(received[at - 1] == Some(MessageView::Close));
        }
    }
}

/// A run gives one action for each reception.
pub proof fn lemma_actions_len(state: SinkState, received: Seq<Option<MessageView>>)
    ensures
        actions_of(state, received).len() == received.len(),
    decreases received.len(),
{
    if received.len() > 0 {
        lemma_actions_len(state, received.drop_last());
    }
}

/// Each action of a run is the one that goes with the state the sink was in
/// before that reception.
pub proof fn lemma_action_at(state: SinkState, received: Seq<Option<MessageView>>, at: int)
    requires
        0 <= at < received.len(),
    ensures
        actions_of(state, received).len() == received.len(),
        actions_of(state, received)[at] == next_action(
            state_after(state, received.take(at)),
            received[at],
        ),
    decreases received.len(),
{
    let front = received.drop_last();
    lemma_actions_len(state, received);
    lemma_actions_len(state, front);
    if at < front.len() {
        lemma_action_at(state, front, at);
        assert(front.take(at) =~= received.take(at));
    } else {
        assert(front =~= received.take(at));
    }
}

/// What a sink that starts open does at each reception. While the channel has
/// not given `None`, every block received is written, whole and unchanged and
/// in the order of arrival, also after `Close`; the first `Close` closes the
/// channel and a later one does nothing; the first `None` flushes the output.
/// After that nothing is written, closed or flushed again.
pub proof fn lemma_sink_run(received: Seq<Option<MessageView>>, at: int)
    requires
        0 <= at < received.len(),
    ensures
        actions_of(SinkState::Open, received).len() == received.len(),
        actions_of(SinkState::Open, received)[at] == if !alive_at(received, at) {
            SinkActionView::Nothing
        } else {
            match received[at] {
                None => SinkActionView::Flush,
                Some(MessageView::Data(text)) => SinkActionView::Write(text),
                Some(MessageView::Close) => if closed_at(received, at) {
                    SinkActionView::Nothing
                } else {
                    SinkActionView::CloseChannel
                },
            }
        },
{
    lemma_action_at(SinkState::Open, received, at);
    lemma_state_before(received, at);
}

/// The output is flushed at most once in a run, and the channel is closed at
/// most once.
pub proof fn lemma_flush_and_close_once(received: Seq<Option<MessageView>>, first: int, second: int)
    requires
        0 <= first < second < received.len(),
    ensures
        !(actions_of(SinkState::Open, received)[first] == SinkActionView::Flush && actions_of(
            SinkState::Open,
            received,
        )[second] == SinkActionView::Flush),
        !(actions_of(SinkState::Open, received)[first] == SinkActionView::CloseChannel
            && actions_of(SinkState::Open, received)[second] == SinkActionView::CloseChannel),
{
    lemma_sink_run(received, first);
    lemma_sink_run(received, second);
    if actions_of(SinkState::Open, received)[first] == SinkActionView::Flush {
        assert(received[first] is None);
        assert(!alive_at(received, second));
    }
    if actions_of(SinkState::Open, received)[first] == SinkActionView::CloseChannel {
        assert(received[first] == Some(MessageView::Close));
        assert(closed_at(received, second));
    }
}

} // verus!
