//! The editor's side of the session protocol: what it answers a request
//! with, and what the command line makes of an answer.
//!
//! The command engine that applies a batch lives outside; a batch goes to it
//! as its command texts and comes back as a revision and change texts, or as
//! a failure.

use vstd::prelude::*;

use crate::session::client::ClientError;
use crate::session::protocol::{
    copy_strings, RequestId, RequestPayload, ResponsePayload, SessionError, SessionErrorCode,
    SessionRequest, SessionResponse, TransportAction, SESSION_PROTOCOL_VERSION,
};

verus! {

/// What an answered request asks the editor to do next.
#[derive(Clone, Debug, PartialEq)]
pub enum ExternalEffect {
    Applied { revision: u64, changes: Vec<String> },
    Transport { action: TransportAction, position_frames: u64 },
}

/// Why the command engine refused a batch.
#[derive(Clone, Copy, Debug, PartialEq, Eq, Structural)]
pub enum CommandFailureCode {
    /// The batch was written against another revision.
    RevisionConflict,
    /// Anything else the engine refuses.
    Other,
}

/// A refusal from the command engine.
#[derive(Clone, Debug)]
pub struct CommandFailure {
    pub code: CommandFailureCode,
    pub message: String,
    pub expected_revision: Option<u64>,
    pub actual_revision: Option<u64>,
}

/// A command failure as it crosses the wire: a stale writer gets both
/// revisions back so it can re-read and retry.
pub fn command_error(error: &CommandFailure) -> (e: SessionError)
    ensures
        e.code == (if error.code == CommandFailureCode::RevisionConflict {
            SessionErrorCode::RevisionConflict
        } else {
            SessionErrorCode::CommandFailed
        }),
        e.message@ == error.message@,
        e.expected_revision == error.expected_revision,
        e.actual_revision == error.actual_revision,
{
    let code = if error.code == CommandFailureCode::RevisionConflict {
        SessionErrorCode::RevisionConflict
    } else {
        SessionErrorCode::CommandFailed
    };
    SessionError {
        code,
        message: error.message.clone(),
        expected_revision: error.expected_revision,
        actual_revision: error.actual_revision,
    }
}

/// What the host does with one request.
pub enum HostStep {
    /// Answer with this, and have the editor do `effect` if there is one.
    Respond { response: SessionResponse, effect: Option<ExternalEffect> },
    /// Hand the batch to the command engine under `command_id` (the request
    /// ID's UUID), expecting `expected_revision`; then call `applied`.
    Apply { request_id: RequestId, command_id: u128, expected_revision: u64, commands: Vec<String> },
}

/// Decides a request for the project at `project_path` named `project_name`,
/// whose engine stands at `revision`. A status answer reports them; a
/// transport request is acknowledged and passed to the editor; a batch goes to
/// the engine, against the revision it names or else the current one.
pub fn answer(
    request: &SessionRequest,
    project_path: &str,
    project_name: &str,
    revision: u64,
    unsaved: bool,
) -> (step: HostStep)
    ensures
        match request.payload {
            RequestPayload::Status => step matches HostStep::Respond { response, effect }
                && effect.is_none() && (response matches SessionResponse::Answered {
                protocol_version,
                request_id,
                payload: ResponsePayload::Status { project_path: p, project_name: n, revision: r, unsaved: u },
            } && protocol_version == SESSION_PROTOCOL_VERSION && request_id == request.request_id
                && (p matches Some(path) && path@ == project_path@) && n@ == project_name@ && r == revision
                && u == unsaved),
            RequestPayload::Apply { expected_revision, commands } => step matches HostStep::Apply {
                request_id,
                command_id,
                expected_revision: e,
                commands: c,
            } && request_id == request.request_id && command_id == request.request_id.0 && e == (
            match expected_revision {
                Some(x) => x,
                None => revision,
            }) && c@ == commands@,
            RequestPayload::Transport { action, position_frames } => step == (HostStep::Respond {
                response: SessionResponse::Answered {
                    protocol_version: SESSION_PROTOCOL_VERSION,
                    request_id: request.request_id,
                    payload: ResponsePayload::TransportAck { action, position_frames },
                },
                effect: Some(ExternalEffect::Transport { action, position_frames }),
            }),
        },
{
    let request_id = request.request_id;
    match &request.payload {
        RequestPayload::Status => HostStep::Respond {
            response: SessionResponse::ok(
                request_id,
                ResponsePayload::Status {
                    project_path: Some(String::from_str(project_path)),
                    project_name: String::from_str(project_name),
                    revision,
                    unsaved,
                },
            ),
            effect: None,
        },
        RequestPayload::Apply { expected_revision, commands } => HostStep::Apply {
            request_id,
            command_id: request_id.as_uuid(),
            expected_revision: match expected_revision {
                Some(x) => *x,
                None => revision,
            },
            commands: copy_strings(commands),
        },
        RequestPayload::Transport { action, position_frames } => HostStep::Respond {
            response: SessionResponse::ok(
                request_id,
                ResponsePayload::TransportAck { action: *action, position_frames: *position_frames },
            ),
            effect: Some(
                ExternalEffect::Transport { action: *action, position_frames: *position_frames },
            ),
        },
    }
}

/// The answer to an applied batch: the new revision and its changes, fresh
/// (not a replay), and the same for the editor to act on; or the engine's
/// refusal as a session error.
pub fn applied(request_id: RequestId, outcome: Result<(u64, Vec<String>), CommandFailure>) -> (answered: (
    SessionResponse,
    Option<ExternalEffect>,
))
    ensures
        match outcome {
            Ok((revision, changes)) => answered.0 matches SessionResponse::Answered {
                protocol_version,
                request_id: id,
                payload: ResponsePayload::Applied { revision: r, changes: c, replayed },
            } && protocol_version == SESSION_PROTOCOL_VERSION && id == request_id && r == revision
                && c@ == changes@ && !replayed && (answered.1 matches Some(
                ExternalEffect::Applied { revision: r2, changes: c2 },
            ) && r2 == revision && c2@ == changes@),
            Err(failure) => answered.0 matches SessionResponse::Error {
                protocol_version,
                request_id: id,
                error,
            } && protocol_version == SESSION_PROTOCOL_VERSION && id == request_id && error.code == (
            if failure.code == CommandFailureCode::RevisionConflict {
                SessionErrorCode::RevisionConflict
            } else {
                SessionErrorCode::CommandFailed
            }) && error.message@ == failure.message@ && error.expected_revision
                == failure.expected_revision && error.actual_revision == failure.actual_revision
                && answered.1.is_none(),
        },
{
    match outcome {
        Ok((revision, changes)) => {
            let reported = copy_strings(&changes);
            (
                SessionResponse::ok(
                    request_id,
                    ResponsePayload::Applied { revision, changes: reported, replayed: false },
                ),
                Some(ExternalEffect::Applied { revision, changes }),
            )
        },
        Err(failure) => (SessionResponse::failed(request_id, command_error(&failure)), None),
    }
}

// ---------------------------------------------------------------------------
// The command line's side
// ---------------------------------------------------------------------------

/// Which route an operation took: through the editor that has the project
/// open, or under the write lock with no editor running.
#[derive(Clone, Copy, Debug, PartialEq, Eq, Structural)]
pub enum Delivery {
    Session,
    Offline,
}

#[derive(Clone, Debug, PartialEq, Eq, Structural)]
pub struct Applied {
    pub revision: u64,
    pub delivery: Delivery,
}

/// How the command line reports a session's refusal: a revision conflict
/// exits 5, a failed command 4, anything else 5 as an unavailable session.
pub open spec fn refusal_code(code: SessionErrorCode) -> (i32, Seq<char>) {
    match code {
        SessionErrorCode::RevisionConflict => (5, "revision_conflict"@),
        SessionErrorCode::CommandFailed => (4, "command_failed"@),
        _ => (5, "session_unavailable"@),
    }
}

/// What the command line makes of a session's answer: its payload, or the
/// failure it reports.
pub fn session_result(response: SessionResponse) -> (result: Result<
    ResponsePayload,
    (i32, &'static str, String),
>)
    ensures
        match response {
            SessionResponse::Answered { payload, .. } => result == Ok::<
                ResponsePayload,
                (i32, &'static str, String),
            >(payload),
            SessionResponse::Error { error, .. } => result matches Err((exit, label, message))
                && (exit, label@) == refusal_code(error.code) && message@ == error.message@,
        },
{
    match response {
        SessionResponse::Answered { payload, .. } => Ok(payload),
        SessionResponse::Error { error, .. } => {
            let (exit_code, code): (i32, &'static str) = match error.code {
                SessionErrorCode::RevisionConflict => (5, "revision_conflict"),
                SessionErrorCode::CommandFailed => (4, "command_failed"),
                _ => (5, "session_unavailable"),
            };
            Err((exit_code, code, error.message))
        },
    }
}

/// A failure to reach the session, as the command line reports it.
pub fn client_error(error: ClientError) -> (failure: (i32, &'static str, String))
    ensures
        failure.0 == 5,
        failure.1@ == "session_unavailable"@,
        failure.2@ == error.message@,
{
    (5, "session_unavailable", error.message)
}

/// Where a transport action went: with no session (`None`) nothing is
/// playing, so it is acknowledged and dropped; otherwise the session's answer
/// decides.
pub fn transport(answer: Option<SessionResponse>) -> (delivered: Result<
    Delivery,
    (i32, &'static str, String),
>)
    ensures
        match answer {
            None => delivered == Ok::<Delivery, (i32, &'static str, String)>(Delivery::Offline),
            Some(SessionResponse::Answered { .. }) => delivered == Ok::<
                Delivery,
                (i32, &'static str, String),
            >(Delivery::Session),
            Some(SessionResponse::Error { error, .. }) => delivered matches Err(
                (exit, label, message),
            ) && (exit, label@) == refusal_code(error.code) && message@ == error.message@,
        },
{
    match answer {
        None => Ok(Delivery::Offline),
        Some(response) => match session_result(response) {
            Ok(_) => Ok(Delivery::Session),
            Err(failure) => Err(failure),
        },
    }
}

/// The revision a session reports for an applied batch, when the answer is
/// one; an answer of another kind is for the caller to report.
pub fn applied_revision(payload: &ResponsePayload) -> (revision: Option<u64>)
    ensures
        revision == match *payload {
            ResponsePayload::Applied { revision, .. } => Some(revision),
            _ => None,
        },
{
    match payload {
        ResponsePayload::Applied { revision, .. } => Some(*revision),
        _ => None,
    }
}

} // verus!
