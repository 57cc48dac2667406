//! The wire contract between a live editor session and its clients.
//!
//! One JSON object per line in each direction. The command batches a request
//! carries and the change events an answer reports are passed through as
//! their JSON text: nothing here reads inside them.

use vstd::prelude::*;

use crate::model::ids::{random_uuid, uuid_chars, uuid_text};

verus! {

/// Version of the session wire contract.
pub const SESSION_PROTOCOL_VERSION: u32 = 1;

/// Caller-generated correlation ID, a UUID held as its 128-bit value. The
/// server answers with the same ID, and replaying a request ID returns the
/// first response rather than re-applying.
#[derive(Clone, Copy, Debug, PartialEq, Eq, Structural, Hash)]
pub struct RequestId(pub u128);

impl RequestId {
    /// A fresh random ID.
    pub fn new() -> (id: Self)
        ensures
            (id.0 >> 76u128) & 0xfu128 == 4,
            (id.0 >> 62u128) & 0x3u128 == 2,
    {
        RequestId(random_uuid())
    }

    pub fn from_uuid(value: u128) -> (id: Self)
        ensures
            id.0 == value,
    {
        RequestId(value)
    }

    /// The raw UUID value, so an owner can correlate a request with what it
    /// produced.
    pub fn as_uuid(&self) -> (value: u128)
        ensures
            value == self.0,
    {
        self.0
    }

    /// The ID as it is written on the wire.
    pub fn text(&self) -> (text: String)
        ensures
            text@ == uuid_chars(self.0),
    {
        uuid_text(self.0)
    }
}

#[derive(Clone, Copy, Debug, PartialEq, Eq, Structural)]
pub enum TransportAction {
    Play,
    Pause,
    Stop,
    Seek,
}

/// What a request asks for.
#[derive(Clone, Debug, PartialEq)]
pub enum RequestPayload {
    /// Read-only: who owns the project and where its revision stands.
    Status,
    /// Apply a command batch, each command as its JSON text. `None` applies
    /// against whatever the current revision is; a number is an
    /// optimistic-concurrency precondition.
    Apply { expected_revision: Option<u64>, commands: Vec<String> },
    /// Drive the owner's transport.
    Transport { action: TransportAction, position_frames: u64 },
}

/// One request from a client to the session owner.
#[derive(Clone, Debug, PartialEq)]
pub struct SessionRequest {
    pub protocol_version: u32,
    /// Copied from the session file: proof that the client can read a file
    /// only the owning user account can read.
    pub token: String,
    pub request_id: RequestId,
    pub payload: RequestPayload,
}

impl SessionRequest {
    /// A request at this build's protocol version, under a fresh ID.
    pub fn new(token: &str, payload: RequestPayload) -> (request: Self)
        ensures
            request.protocol_version == SESSION_PROTOCOL_VERSION,
            request.token@ == token@,
            request.payload == payload,
    {
        SessionRequest {
            protocol_version: SESSION_PROTOCOL_VERSION,
            token: String::from_str(token),
            request_id: RequestId::new(),
            payload,
        }
    }
}

/// What a successful answer carries. Change events are their JSON text.
#[derive(Clone, Debug, PartialEq)]
pub enum ResponsePayload {
    Status { project_path: Option<String>, project_name: String, revision: u64, unsaved: bool },
    /// `replayed` is true when this answer came from the replay history
    /// instead of being applied again.
    Applied { revision: u64, changes: Vec<String>, replayed: bool },
    TransportAck { action: TransportAction, position_frames: u64 },
}

#[derive(Clone, Copy, Debug, PartialEq, Eq, Structural)]
pub enum SessionErrorCode {
    UnsupportedProtocolVersion,
    Unauthorized,
    MalformedRequest,
    RevisionConflict,
    CommandFailed,
    SessionClosed,
}

#[derive(Clone, Debug, PartialEq)]
pub struct SessionError {
    pub code: SessionErrorCode,
    pub message: String,
    pub expected_revision: Option<u64>,
    pub actual_revision: Option<u64>,
}

impl SessionError {
    /// An error with no revisions attached.
    pub fn new(code: SessionErrorCode, message: &str) -> (error: Self)
        ensures
            error.code == code,
            error.message@ == message@,
            error.expected_revision.is_none(),
            error.actual_revision.is_none(),
    {
        SessionError {
            code,
            message: String::from_str(message),
            expected_revision: None,
            actual_revision: None,
        }
    }
}

/// One response from the session owner: an answer, or an error.
#[derive(Clone, Debug, PartialEq)]
pub enum SessionResponse {
    Answered { protocol_version: u32, request_id: RequestId, payload: ResponsePayload },
    Error { protocol_version: u32, request_id: RequestId, error: SessionError },
}

pub open spec fn response_id(response: SessionResponse) -> RequestId {
    match response {
        SessionResponse::Answered { request_id, .. } => request_id,
        SessionResponse::Error { request_id, .. } => request_id,
    }
}

impl SessionResponse {
    pub fn ok(request_id: RequestId, payload: ResponsePayload) -> (response: Self)
        ensures
            response == (SessionResponse::Answered {
                protocol_version: SESSION_PROTOCOL_VERSION,
                request_id,
                payload,
            }),
    {
        SessionResponse::Answered { protocol_version: SESSION_PROTOCOL_VERSION, request_id, payload }
    }

    pub fn failed(request_id: RequestId, error: SessionError) -> (response: Self)
        ensures
            response == (SessionResponse::Error {
                protocol_version: SESSION_PROTOCOL_VERSION,
                request_id,
                error,
            }),
    {
        SessionResponse::Error { protocol_version: SESSION_PROTOCOL_VERSION, request_id, error }
    }

    pub fn request_id(&self) -> (id: RequestId)
        ensures
            id == response_id(*self),
    {
        match self {
            SessionResponse::Answered { request_id, .. } => *request_id,
            SessionResponse::Error { request_id, .. } => *request_id,
        }
    }
}

/// A transport failure: a broken pipe or a line that is not a frame. The peer
/// cannot answer one.
#[derive(Debug)]
pub struct FrameError {
    pub message: String,
}

// ---------------------------------------------------------------------------
// Sameness and copies
// ---------------------------------------------------------------------------

/// Two payloads that say the same thing: equal fields, the list of change
/// events compared element by element.
pub open spec fn same_payload(a: ResponsePayload, b: ResponsePayload) -> bool {
    match (a, b) {
        (
            ResponsePayload::Applied { revision: r1, changes: c1, replayed: x1 },
            ResponsePayload::Applied { revision: r2, changes: c2, replayed: x2 },
        ) => r1 == r2 && c1@ == c2@ && x1 == x2,
        _ => a == b,
    }
}

/// Two responses that say the same thing.
pub open spec fn same_response(a: SessionResponse, b: SessionResponse) -> bool {
    match (a, b) {
        (
            SessionResponse::Answered { protocol_version: v1, request_id: i1, payload: p1 },
            SessionResponse::Answered { protocol_version: v2, request_id: i2, payload: p2 },
        ) => v1 == v2 && i1 == i2 && same_payload(p1, p2),
        _ => a == b,
    }
}

pub(crate) fn copy_strings(strings: &Vec<String>) -> (copy: Vec<String>)
    ensures
        copy@ == strings@,
{
    let mut copy: Vec<String> = Vec::new();
    let mut i: usize = 0;
    while i < strings.len()
        invariant
            i <= strings.len(),
            copy@ == strings@.subrange(0, i as int),
        decreases strings.len() - i,
    {
        copy.push(strings[i].clone());
        i = i + 1;
        assert(copy@ =~= strings@.subrange(0, i as int));
    }
    assert(strings@.subrange(0, i as int) =~= strings@);
    copy
}

pub(crate) fn copy_payload(payload: &ResponsePayload) -> (copy: ResponsePayload)
    ensures
        same_payload(copy, *payload),
{
    match payload {
        ResponsePayload::Status { project_path, project_name, revision, unsaved } => {
            let path = match project_path {
                Some(p) => Some(p.clone()),
                None => None,
            };
            ResponsePayload::Status {
                project_path: path,
                project_name: project_name.clone(),
                revision: *revision,
                unsaved: *unsaved,
            }
        },
        ResponsePayload::Applied { revision, changes, replayed } => ResponsePayload::Applied {
            revision: *revision,
            changes: copy_strings(changes),
            replayed: *replayed,
        },
        ResponsePayload::TransportAck { action, position_frames } => ResponsePayload::TransportAck {
            action: *action,
            position_frames: *position_frames,
        },
    }
}

pub(crate) fn copy_response(response: &SessionResponse) -> (copy: SessionResponse)
    ensures
        same_response(copy, *response),
{
    match response {
        SessionResponse::Answered { protocol_version, request_id, payload } => {
            SessionResponse::Answered {
                protocol_version: *protocol_version,
                request_id: *request_id,
                payload: copy_payload(payload),
            }
        },
        SessionResponse::Error { protocol_version, request_id, error } => SessionResponse::Error {
            protocol_version: *protocol_version,
            request_id: *request_id,
            error: SessionError {
                code: error.code,
                message: error.message.clone(),
                expected_revision: error.expected_revision,
                actual_revision: error.actual_revision,
            },
        },
    }
}

} // verus!
