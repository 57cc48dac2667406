//! What a dialling process makes of a published session and of its answers.

use vstd::prelude::*;

use crate::session::discovery::SessionDescriptor;
use crate::session::protocol::{SessionResponse, SESSION_PROTOCOL_VERSION};
use crate::text::{decimal, push_decimal};

verus! {

#[derive(Clone, Copy, Debug, PartialEq, Eq, Structural)]
pub enum ClientErrorCode {
    /// A session owns the project but speaks a different protocol version.
    IncompatibleSession,
    /// The connection failed or ended mid-exchange.
    Transport,
}

#[derive(Debug)]
pub struct ClientError {
    pub code: ClientErrorCode,
    pub message: String,
}

impl ClientError {
    /// A transport failure described by `message`.
    pub fn transport(message: &str) -> (error: Self)
        ensures
            error.code == ClientErrorCode::Transport,
            error.message@ == message@,
    {
        ClientError { code: ClientErrorCode::Transport, message: String::from_str(message) }
    }
}

pub open spec fn incompatible_message(version: u32) -> Seq<char> {
    "the open session speaks protocol version "@ + decimal(version as nat) + "; this build speaks "@
        + decimal(SESSION_PROTOCOL_VERSION as nat)
}

/// What a published descriptor means for a client: no descriptor (none
/// published, or none readable) means nobody owns the project; one at another
/// protocol version cannot be talked to; anything else is the session to
/// dial.
pub fn session_to_dial(descriptor: Option<SessionDescriptor>) -> (dial: Result<
    Option<SessionDescriptor>,
    ClientError,
>)
    ensures
        match descriptor {
            None => dial matches Ok(None),
            Some(d) => if d.protocol_version != SESSION_PROTOCOL_VERSION {
                dial matches Err(e) && e.code == ClientErrorCode::IncompatibleSession && e.message@
                    == incompatible_message(d.protocol_version)
            } else {
                dial == Ok::<Option<SessionDescriptor>, ClientError>(Some(d))
            },
        },
{
    match descriptor {
        None => Ok(None),
        Some(d) => {
            if d.protocol_version != SESSION_PROTOCOL_VERSION {
                let mut message = String::from_str("the open session speaks protocol version ");
                push_decimal(&mut message, d.protocol_version as u64);
                message.append("; this build speaks ");
                push_decimal(&mut message, SESSION_PROTOCOL_VERSION as u64);
                assert(message@ =~= incompatible_message(d.protocol_version));
                Err(ClientError { code: ClientErrorCode::IncompatibleSession, message })
            } else {
                Ok(Some(d))
            }
        },
    }
}

/// What reading the owner's answer came to: a response, a clean hang-up
/// (`Ok(None)`), or a transport failure described by the text.
pub fn answer_of(read: Result<Option<SessionResponse>, String>) -> (answer: Result<
    SessionResponse,
    ClientError,
>)
    ensures
        match read {
            Ok(Some(r)) => answer == Ok::<SessionResponse, ClientError>(r),
            Ok(None) => answer matches Err(e) && e.code == ClientErrorCode::Transport && e.message@
                == "the session closed before answering"@,
            Err(text) => answer matches Err(e) && e.code == ClientErrorCode::Transport
                && e.message@ == text@,
        },
{
    match read {
        Ok(Some(r)) => Ok(r),
        Ok(None) => Err(ClientError::transport("the session closed before answering")),
        Err(text) => Err(ClientError { code: ClientErrorCode::Transport, message: text }),
    }
}

} // verus!
