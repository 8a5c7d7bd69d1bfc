//! The streams that a server opens to a client which serves one target.

use vstd::prelude::*;
use vstd::utf8::valid_utf8;

use crate::authentication::simple_ack::{answer, can_be_answered, padded, twice, word_of};

verus! {

/// What is said of a stream before it is used.
#[derive(Debug, Clone, PartialEq, Eq)]
pub struct MetaStreamHeader {}

impl MetaStreamHeader {
    pub fn new() -> (r: MetaStreamHeader)
        ensures
            r == (MetaStreamHeader {  }),
    {
        MetaStreamHeader {  }
    }
}

/// How far the handling of a stream has come.
#[derive(Debug, Clone, Copy, PartialEq, Eq, Structural)]
pub enum UplinkPhase {
    ReadingHeader,
    Answering,
    Connecting,
    Proxying,
    Over,
}

/// What failed.
#[derive(Debug, Clone, Copy, PartialEq, Eq, Structural)]
pub enum UplinkError {
    Read,
    Write,
    Connect,
    Proxy,
}

/// What happened outside.
#[derive(Debug)]
pub enum UplinkEvent {
    /// The header was read, or could not be.
    Header(Option<[u8; 64]>),
    /// The answer was written, or could not be.
    Answered(bool),
    /// The target was connected to, or could not be.
    Connected(bool),
    /// Both directions ended, or one failed.
    Proxied(bool),
}

/// What is to be done next.
#[derive(Debug)]
pub enum UplinkAction {
    /// Write this answer, and send it off at once.
    Answer([u8; 64]),
    /// Connect to the target.
    Connect,
    /// Join the stream and the connection.
    Proxy,
    Complete,
    Fail(UplinkError),
}

impl UplinkPhase {
    /// Whether this event is one that is waited for. A header is waited for that holds a word which
    /// can be said twice in one answer.
    pub open spec fn expects(self, event: UplinkEvent) -> bool {
        match event {
            UplinkEvent::Header(header) => {
                &&& self is ReadingHeader
                &&& header matches Some(h) ==> valid_utf8(word_of(h@)) && can_be_answered(h@)
            },
            UplinkEvent::Answered(_) => self is Answering,
            UplinkEvent::Connected(_) => self is Connecting,
            UplinkEvent::Proxied(_) => self is Proxying,
        }
    }

    /// Takes the handling one event further.
    pub fn handle_connection(&mut self, event: UplinkEvent) -> (r: UplinkAction)
        requires
            old(self).expects(event),
        ensures
            match event {
                UplinkEvent::Header(Some(header)) => {
                    &&& r matches UplinkAction::Answer(a)
                    &&& a@ == padded(twice(word_of(header@)))
                    &&& *final(self) is Answering
                },
                UplinkEvent::Answered(true) => r is Connect && *final(self) is Connecting,
                UplinkEvent::Connected(true) => r is Proxy && *final(self) is Proxying,
                UplinkEvent::Proxied(true) => r is Complete && *final(self) is Over,
                UplinkEvent::Header(None) => r == UplinkAction::Fail(UplinkError::Read)
                    && *final(self) is Over,
                UplinkEvent::Answered(false) => r == UplinkAction::Fail(UplinkError::Write)
                    && *final(self) is Over,
                UplinkEvent::Connected(false) => r == UplinkAction::Fail(UplinkError::Connect)
                    && *final(self) is Over,
                UplinkEvent::Proxied(false) => r == UplinkAction::Fail(UplinkError::Proxy)
                    && *final(self) is Over,
            },
    {
        match event {
            UplinkEvent::Header(Some(header)) => match answer(&header) {
                Ok(message) => {
                    *self = UplinkPhase::Answering;
                    UplinkAction::Answer(message)
                },
                Err(_) => {
                    *self = UplinkPhase::Over;
                    UplinkAction::Fail(UplinkError::Read)
                },
            },
            UplinkEvent::Header(None) => {
                *self = UplinkPhase::Over;
                UplinkAction::Fail(UplinkError::Read)
            },
            UplinkEvent::Answered(true) => {
                *self = UplinkPhase::Connecting;
                UplinkAction::Connect
            },
            UplinkEvent::Answered(false) => {
                *self = UplinkPhase::Over;
                UplinkAction::Fail(UplinkError::Write)
            },
            UplinkEvent::Connected(true) => {
                *self = UplinkPhase::Proxying;
                UplinkAction::Proxy
            },
            UplinkEvent::Connected(false) => {
                *self = UplinkPhase::Over;
                UplinkAction::Fail(UplinkError::Connect)
            },
            UplinkEvent::Proxied(true) => {
                *self = UplinkPhase::Over;
                UplinkAction::Complete
            },
            UplinkEvent::Proxied(false) => {
                *self = UplinkPhase::Over;
                UplinkAction::Fail(UplinkError::Proxy)
            },
        }
    }
}

/// The outcome of what was done on a channel that was then closed: the first failure, if there was
/// one.
pub fn channel_outcome<T, E>(outcome: Result<T, E>, closed: Result<(), E>) -> (r: Result<T, E>)
    ensures
        match (outcome, closed) {
            (Err(e), _) => r == Err::<T, E>(e),
            (Ok(_), Err(e)) => r == Err::<T, E>(e),
            (Ok(value), Ok(_)) => r == Ok::<T, E>(value),
        },
{
    match (outcome, closed) {
        (Err(e), _) => Err(e),
        (Ok(_), Err(e)) => Err(e),
        (Ok(value), Ok(_)) => Ok(value),
    }
}

} // verus!
