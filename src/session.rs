//! The decisions of one evaluation call over a duplex connection: connect,
//! send start, audio and end in order, then receive until the server's
//! final message, a close, a read error or a timeout. The caller performs
//! each action and reports what happened; the session decides what comes
//! next and keeps every text message received.

use vstd::prelude::*;
use crate::json::Json;
use crate::json::field;
use crate::json::field_of;
use crate::json::number_text_of;
use crate::json::text_eq;
use crate::primitives::json_parse;
use crate::decoder::decode_messages;
use crate::decoder::decodes_to;
use crate::scores::SpeechEvaluationResponse;

verus! {

/// The three outbound frames, in the order in which they are sent.
#[derive(Debug, Clone, Copy, PartialEq, Eq, Structural)]
pub enum Phase {
    Start,
    Audio,
    End,
}

/// How a call ended.
#[derive(Debug, Clone, Copy, PartialEq, Eq, Structural)]
pub enum Outcome {
    /// The server sent its final message.
    Success,
    /// The connection could not be opened.
    ConnectFailed,
    /// Sending a frame failed.
    SendFailed(Phase),
    /// Reading failed mid-receive.
    ProtocolAbort,
    /// The caller's time bound elapsed.
    Timeout,
    /// The server closed the connection before its final message.
    ConnectionClosedEarly,
}

#[derive(Debug, Clone, Copy, PartialEq, Eq, Structural)]
pub enum SessionState {
    Connecting,
    Sending(Phase),
    Receiving,
    Done(Outcome),
}

/// What the caller observed after performing the last action.
#[derive(Debug)]
pub enum Event {
    Connected,
    ConnectFailed,
    Sent,
    SendFailed,
    /// A text message arrived.
    Text(String),
    /// A message that is neither text nor a close arrived.
    Other,
    Closed,
    ReadFailed,
    TimedOut,
}

/// What the caller is to do next.
#[derive(Debug)]
pub enum Action {
    /// Send this frame's text.
    Send(Phase),
    /// Read the next message.
    Receive,
    /// Close the connection; the call is over.
    Close,
    /// Nothing: the call is already over.
    Idle,
}

/// A text message is the server's final one when its header status is 2.
pub open spec fn is_final_message(m: Seq<char>) -> bool {
    match json_parse(m) {
        Some(j) => number_text_of(field_of(field(j, "header"@), "status"@)) == Some(seq!['2']),
        None => false,
    }
}

pub open spec fn phase_after(p: Phase) -> SessionState {
    match p {
        Phase::Start => SessionState::Sending(Phase::Audio),
        Phase::Audio => SessionState::Sending(Phase::End),
        Phase::End => SessionState::Receiving,
    }
}

/// The action that enters a state: send the next frame, read, or close
/// once on reaching the end.
pub open spec fn entry_action_is(s: SessionState, a: Action) -> bool {
    match s {
        SessionState::Connecting => a is Idle,
        SessionState::Sending(p) => a == Action::Send(p),
        SessionState::Receiving => a is Receive,
        SessionState::Done(_) => a is Close,
    }
}

/// The state after an event; an event that does not fit the state leaves
/// it unchanged.
pub open spec fn next_state(s: SessionState, e: Event) -> SessionState {
    match (s, e) {
        (SessionState::Connecting, Event::Connected) => SessionState::Sending(Phase::Start),
        (SessionState::Connecting, Event::ConnectFailed) => SessionState::Done(Outcome::ConnectFailed),
        (SessionState::Connecting, Event::TimedOut) => SessionState::Done(Outcome::Timeout),
        (SessionState::Sending(p), Event::Sent) => phase_after(p),
        (SessionState::Sending(p), Event::SendFailed) => SessionState::Done(Outcome::SendFailed(p)),
        (SessionState::Sending(_), Event::TimedOut) => SessionState::Done(Outcome::Timeout),
        (SessionState::Receiving, Event::Text(t)) => if is_final_message(t@) {
            SessionState::Done(Outcome::Success)
        } else {
            SessionState::Receiving
        },
        (SessionState::Receiving, Event::Closed) => SessionState::Done(Outcome::ConnectionClosedEarly),
        (SessionState::Receiving, Event::ReadFailed) => SessionState::Done(Outcome::ProtocolAbort),
        (SessionState::Receiving, Event::TimedOut) => SessionState::Done(Outcome::Timeout),
        _ => s,
    }
}

/// One evaluation call in progress.
pub struct Session {
    pub state: SessionState,
    /// Every text message received, in arrival order.
    pub received: Vec<String>,
}

impl Session {
    /// A call that is about to connect.
    pub fn new() -> (r: Session)
        ensures
            r.state == SessionState::Connecting,
            r.received@.len() == 0,
    {
        Session { state: SessionState::Connecting, received: Vec::new() }
    }

    /// Whether a text message is the server's final one.
    pub fn message_is_final(text: &str) -> (r: bool)
        ensures
            r == is_final_message(text@),
    {
        proof {
            reveal_strlit("2");
            assert("2"@ =~= seq!['2']);
        }
        match Json::parse(text) {
            Some(j) => match j.get("header") {
                Some(header) => match header.get("status") {
                    Some(status) => match status.as_number_text() {
                        Some(t) => text_eq(t.as_str(), "2"),
                        None => false,
                    },
                    None => false,
                },
                None => false,
            },
            None => false,
        }
    }

    /// Takes in what the caller observed and says what to do next. Every
    /// text message received while receiving is kept, final or not. The
    /// state reaches `Done` at most once, and `Close` is asked for exactly
    /// when it does.
    pub fn step(&mut self, event: Event) -> (r: Action)
        ensures
            final(self).state == next_state(old(self).state, event),
            old(self).state is Done ==> r is Idle,
            !(old(self).state is Done) && final(self).state != old(self).state
                ==> entry_action_is(final(self).state, r),
            !(old(self).state is Done) && final(self).state == old(self).state
                ==> r is Idle || r is Receive,
            final(self).received@ == match (old(self).state, event) {
                (SessionState::Receiving, Event::Text(t)) => old(self).received@.push(t),
                _ => old(self).received@,
            },
    {
        let before = self.state;
        match (before, event) {
            (SessionState::Connecting, Event::Connected) => {
                self.state = SessionState::Sending(Phase::Start);
                Action::Send(Phase::Start)
            },
            (SessionState::Connecting, Event::ConnectFailed) => {
                self.state = SessionState::Done(Outcome::ConnectFailed);
                Action::Close
            },
            (SessionState::Sending(p), Event::Sent) => {
                match p {
                    Phase::Start => {
                        self.state = SessionState::Sending(Phase::Audio);
                        Action::Send(Phase::Audio)
                    },
                    Phase::Audio => {
                        self.state = SessionState::Sending(Phase::End);
                        Action::Send(Phase::End)
                    },
                    Phase::End => {
                        self.state = SessionState::Receiving;
                        Action::Receive
                    },
                }
            },
            (SessionState::Sending(p), Event::SendFailed) => {
                self.state = SessionState::Done(Outcome::SendFailed(p));
                Action::Close
            },
            (SessionState::Receiving, Event::Text(t)) => {
                let is_final = Session::message_is_final(t.as_str());
                self.received.push(t);
                if is_final {
                    self.state = SessionState::Done(Outcome::Success);
                    Action::Close
                } else {
                    Action::Receive
                }
            },
            (SessionState::Receiving, Event::Other) => Action::Receive,
            (SessionState::Receiving, Event::Closed) => {
                self.state = SessionState::Done(Outcome::ConnectionClosedEarly);
                Action::Close
            },
            (SessionState::Receiving, Event::ReadFailed) => {
                self.state = SessionState::Done(Outcome::ProtocolAbort);
                Action::Close
            },
            (SessionState::Connecting, Event::TimedOut) | (SessionState::Sending(_), Event::TimedOut)
            | (SessionState::Receiving, Event::TimedOut) => {
                self.state = SessionState::Done(Outcome::Timeout);
                Action::Close
            },
            _ => Action::Idle,
        }
    }

    /// Reduces everything received, whatever the outcome, so that an error
    /// the server reported before a failure can still be seen.
    pub fn decode(&self) -> (r: SpeechEvaluationResponse)
        ensures
            decodes_to(self.received@, r),
    {
        decode_messages(&self.received)
    }
}

} // verus!
