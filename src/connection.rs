//! What a connection's loop does with each thing that happens on its socket.
use crate::games::{GameView, Games};
use crate::ids::{is_generated_id, SocketId};
use crate::messages::{IncomingMessage, IncomingView, OutgoingMessage, OutgoingView};
use crate::router::{
    disconnect_spec, needs_fresh_id, nothing, process_disconnect, process_incoming_message, reply_only,
    route_spec, MessagesToSend, RouteView,
};
use vstd::prelude::*;

verus! {

/// Something that happened on a connection's socket.
#[derive(Debug)]
pub enum SocketEvent {
    /// The peer closed the connection.
    Closed,
    /// Reading the next frame failed; the connection is lost.
    ReceiveError,
    /// A frame that carries no text.
    NotText,
    /// A text frame with no characters.
    Empty,
    /// A text frame that is no valid message; `error` says why.
    Invalid { error: String },
    /// A text frame holding a valid message.
    Message(IncomingMessage),
}

pub enum SocketEventView {
    Closed,
    ReceiveError,
    NotText,
    Empty,
    Invalid { error: Seq<char> },
    Message(IncomingView),
}

impl View for SocketEvent {
    type V = SocketEventView;

    open spec fn view(&self) -> SocketEventView {
        match self {
            SocketEvent::Closed => SocketEventView::Closed,
            SocketEvent::ReceiveError => SocketEventView::ReceiveError,
            SocketEvent::NotText => SocketEventView::NotText,
            SocketEvent::Empty => SocketEventView::Empty,
            SocketEvent::Invalid { error } => SocketEventView::Invalid { error: error@ },
            SocketEvent::Message(m) => SocketEventView::Message(m@),
        }
    }
}

/// What the loop does next: the messages to send, and whether it goes on.
#[derive(Debug)]
pub struct Step {
    pub keep_running: bool,
    pub messages: MessagesToSend,
}

pub struct StepView {
    pub keep_running: bool,
    pub messages: RouteView,
}

impl View for Step {
    type V = StepView;

    open spec fn view(&self) -> StepView {
        StepView { keep_running: self.keep_running, messages: self.messages@ }
    }
}

/// The reply to a frame that carries no text, or none at all.
pub open spec fn not_text_reason() -> Seq<char> {
    "Invalid message"@
}

/// The reply to a text frame that is no valid message.
pub open spec fn invalid_reason(error: Seq<char>) -> Seq<char> {
    "Invalid message: "@ + error
}

/// Whether handling `e` draws a generated game id.
pub open spec fn event_needs_fresh_id(e: SocketEventView) -> bool {
    e matches SocketEventView::Message(m) && needs_fresh_id(m)
}

/// Handling of event `e` on connection `s` over directory `gs`: the
/// directory after it and the step taken.
pub open spec fn event_spec(s: Seq<char>, gs: Seq<GameView>, e: SocketEventView, fresh: Seq<char>) -> (Seq<GameView>, StepView) {
    match e {
        SocketEventView::Closed => (disconnect_spec(gs, s), StepView { keep_running: false, messages: nothing() }),
        SocketEventView::ReceiveError => (disconnect_spec(gs, s), StepView { keep_running: false, messages: nothing() }),
        SocketEventView::NotText => (
            gs,
            StepView { keep_running: true, messages: reply_only(OutgoingView::Error { reason: not_text_reason() }) },
        ),
        SocketEventView::Empty => (
            gs,
            StepView { keep_running: true, messages: reply_only(OutgoingView::Error { reason: not_text_reason() }) },
        ),
        SocketEventView::Invalid { error } => (
            gs,
            StepView { keep_running: true, messages: reply_only(OutgoingView::Error { reason: invalid_reason(error) }) },
        ),
        SocketEventView::Message(m) => {
            let (after, r) = route_spec(s, gs, m, fresh);
            (after, StepView { keep_running: true, messages: r })
        },
    }
}

/// Handles one event on connection `socket_id`.
pub fn handle_event(socket_id: &SocketId, games: &mut Games, event: SocketEvent) -> (r: Step)
    ensures
        exists|fresh: Seq<char>|
            #![trigger event_spec(socket_id@, old(games)@, event@, fresh)]
            {
                &&& event_needs_fresh_id(event@) ==> is_generated_id(fresh)
                &&& (final(games)@, r@) == event_spec(socket_id@, old(games)@, event@, fresh)
            },
{
    let ghost e = event@;
    match event {
        SocketEvent::Closed => {
            process_disconnect(socket_id, games);
            let r = Step { keep_running: false, messages: MessagesToSend::none() };
            assert((games@, r@) == event_spec(socket_id@, old(games)@, e, Seq::empty()));
            r
        },
        SocketEvent::ReceiveError => {
            process_disconnect(socket_id, games);
            let r = Step { keep_running: false, messages: MessagesToSend::none() };
            assert((games@, r@) == event_spec(socket_id@, old(games)@, e, Seq::empty()));
            r
        },
        SocketEvent::NotText => {
            let reason = String::from_str("Invalid message");
            let r = Step { keep_running: true, messages: MessagesToSend::self_(OutgoingMessage::Error { reason }) };
            assert((games@, r@) == event_spec(socket_id@, old(games)@, e, Seq::empty()));
            r
        },
        SocketEvent::Empty => {
            let reason = String::from_str("Invalid message");
            let r = Step { keep_running: true, messages: MessagesToSend::self_(OutgoingMessage::Error { reason }) };
            assert((games@, r@) == event_spec(socket_id@, old(games)@, e, Seq::empty()));
            r
        },
        SocketEvent::Invalid { error } => {
            let mut reason = String::from_str("Invalid message: ");
            reason.append(error.as_str());
            let r = Step { keep_running: true, messages: MessagesToSend::self_(OutgoingMessage::Error { reason }) };
            assert((games@, r@) == event_spec(socket_id@, old(games)@, e, Seq::empty()));
            r
        },
        SocketEvent::Message(message) => {
            let messages = process_incoming_message(socket_id, games, message);
            let r = Step { keep_running: true, messages };
            let ghost fresh = choose|fresh: Seq<char>|
                {
                    &&& needs_fresh_id(message@) ==> is_generated_id(fresh)
                    &&& (games@, messages@) == route_spec(socket_id@, old(games)@, message@, fresh)
                };
            assert((games@, r@) == event_spec(socket_id@, old(games)@, e, fresh));
            r
        },
    }
}

} // verus!
