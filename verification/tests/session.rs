use jutsu_audio::paths::lock_file_path;
use jutsu_audio::session::client::{answer_of, session_to_dial, ClientErrorCode};
use jutsu_audio::session::discovery::{new_token, PublishedSession, SessionDescriptor};
use jutsu_audio::session::lock::{
    is_stale, next_step, CreateOutcome, HolderRecord, LockErrorCode, LockStep, STALE_AFTER_MILLIS,
};
use jutsu_audio::session::protocol::{
    RequestId, RequestPayload, ResponsePayload, SessionErrorCode, SessionRequest, SessionResponse,
    SESSION_PROTOCOL_VERSION,
};
use jutsu_audio::session::server::{
    closed, replayed, screen, settle, Admission, ReplayHistory, REPLAY_HISTORY,
};

fn applied(id: RequestId, revision: u64) -> SessionResponse {
    SessionResponse::ok(
        id,
        ResponsePayload::Applied { revision, changes: vec!["change".into()], replayed: false },
    )
}

#[test]
fn a_repeated_request_id_is_answered_from_the_history() {
    let mut history = ReplayHistory::new();
    let request = SessionRequest::new(
        "secret",
        RequestPayload::Apply { expected_revision: None, commands: vec!["{}".into()] },
    );
    assert!(matches!(screen(&request, "secret", &history), Admission::Dispatch));

    let first = settle(&mut history, request.request_id, Some(applied(request.request_id, 3)));
    assert_eq!(first, applied(request.request_id, 3));

    match screen(&request, "secret", &history) {
        Admission::Answer(SessionResponse::Answered { payload, .. }) => assert_eq!(
            payload,
            ResponsePayload::Applied { revision: 3, changes: vec!["change".into()], replayed: true }
        ),
        _ => panic!("the second send is a replay"),
    }
}

#[test]
fn a_wrong_token_or_version_is_refused_before_anything_else() {
    let history = ReplayHistory::new();
    let mut request = SessionRequest::new("wrong", RequestPayload::Status);
    match screen(&request, "secret", &history) {
        Admission::Answer(SessionResponse::Error { error, request_id, .. }) => {
            assert_eq!(request_id, request.request_id);
            assert_eq!(error.code, SessionErrorCode::Unauthorized);
            assert_eq!(error.message, "request token does not match this session");
        }
        _ => panic!("refused"),
    }
    request.protocol_version = 9;
    match screen(&request, "secret", &history) {
        Admission::Answer(SessionResponse::Error { error, .. }) => {
            assert_eq!(error.code, SessionErrorCode::UnsupportedProtocolVersion);
            assert_eq!(error.message, "session protocol version 9 is unsupported; expected 1");
        }
        _ => panic!("refused"),
    }
}

#[test]
fn an_owner_that_never_answers_closes_the_request() {
    let mut history = ReplayHistory::new();
    let id = RequestId::from_uuid(42);
    let response = settle(&mut history, id, None);
    match &response {
        SessionResponse::Error { error, protocol_version, .. } => {
            assert_eq!(*protocol_version, SESSION_PROTOCOL_VERSION);
            assert_eq!(error.code, SessionErrorCode::SessionClosed);
            assert_eq!(error.message, "the session owner did not answer");
        }
        _ => panic!("closed"),
    }
    assert_eq!(closed(id), response);
    assert_eq!(history.find(id), Some(response));
}

#[test]
fn the_history_remembers_only_the_most_recent_answers() {
    let mut history = ReplayHistory::new();
    for n in 0..(REPLAY_HISTORY as u128 + 1) {
        settle(&mut history, RequestId::from_uuid(n), Some(applied(RequestId::from_uuid(n), 1)));
    }
    assert_eq!(history.len(), REPLAY_HISTORY);
    assert!(history.find(RequestId::from_uuid(0)).is_none(), "the oldest is forgotten");
    assert!(history.find(RequestId::from_uuid(1)).is_some());
    assert!(matches!(
        replayed(&closed(RequestId::from_uuid(3))),
        SessionResponse::Error { .. }
    ));
}

#[test]
fn a_second_writer_waits_then_is_refused() {
    let path = lock_file_path("/p/song.json");
    let fresh = HolderRecord::Acquired { unix_millis: 1_000 };
    assert!(matches!(
        next_step(&path, CreateOutcome::AlreadyExists { holder: fresh }, 2_000, 5_000),
        LockStep::WaitAndRetry
    ));
    match next_step(&path, CreateOutcome::AlreadyExists { holder: fresh }, 5_000, 5_000) {
        LockStep::Refused(error) => {
            assert_eq!(error.code, LockErrorCode::Busy);
            assert_eq!(error.path, "/p/song.json.lock");
            assert_eq!(error.message, "another process is editing this project");
        }
        _ => panic!("busy"),
    }
    match next_step(&path, CreateOutcome::Created, 0, 0) {
        LockStep::Held(lock) => assert_eq!(lock.path(), "/p/song.json.lock"),
        _ => panic!("held"),
    }
    match next_step(&path, CreateOutcome::Failed { error: "denied".into() }, 0, 0) {
        LockStep::Refused(error) => {
            assert_eq!(error.code, LockErrorCode::Io);
            assert_eq!(error.message, "failed to take project lock: denied");
        }
        _ => panic!("io"),
    }
}

#[test]
fn a_lock_left_behind_by_a_dead_process_is_broken_rather_than_honoured() {
    let old = HolderRecord::Acquired { unix_millis: 0 };
    assert!(is_stale(old, STALE_AFTER_MILLIS + 1));
    assert!(!is_stale(old, STALE_AFTER_MILLIS));
    assert!(matches!(
        next_step("x.lock", CreateOutcome::AlreadyExists { holder: old }, 61_000, 0),
        LockStep::BreakAndRetry
    ));
    // A clock that went backwards never makes a lock look old.
    assert!(!is_stale(HolderRecord::Acquired { unix_millis: 10_000 }, 0));
}

#[test]
fn a_corrupt_lock_file_does_not_strand_the_project() {
    assert!(is_stale(HolderRecord::Corrupt, 0));
    assert!(!is_stale(HolderRecord::Unreadable, u128::MAX));
}

#[test]
fn a_client_dials_only_a_session_it_can_talk_to() {
    assert!(matches!(session_to_dial(None), Ok(None)));
    let current = SessionDescriptor::new("/p/song.json", 40_000, "secret", 7);
    assert_eq!(current.protocol_version, SESSION_PROTOCOL_VERSION);
    let dial = session_to_dial(Some(current.clone())).expect("dialled").expect("a session");
    assert_eq!(dial.port, 40_000);
    let mut older = current;
    older.protocol_version = 0;
    let refused = session_to_dial(Some(older)).unwrap_err();
    assert_eq!(refused.code, ClientErrorCode::IncompatibleSession);
    assert_eq!(
        refused.message,
        "the open session speaks protocol version 0; this build speaks 1"
    );
    let hung_up = answer_of(Ok(None)).unwrap_err();
    assert_eq!(hung_up.message, "the session closed before answering");
    assert_eq!(answer_of(Err("reset".into())).unwrap_err().code, ClientErrorCode::Transport);
}

#[test]
fn a_published_session_lives_in_the_session_sidecar() {
    let descriptor = SessionDescriptor::new("/p/song.jutsu-audio.json", 1, "t", 2);
    let published = PublishedSession::new(descriptor.clone());
    assert_eq!(published.path(), "/p/song.jutsu-audio.json.session");
    assert_eq!(published.descriptor(), &descriptor);
    let token = new_token();
    assert_eq!(token.len(), 36);
    assert_eq!(token.as_bytes()[14], b'4', "a version 4 UUID: {token}");
    assert_ne!(new_token(), token);
}

// ---------------------------------------------------------------------------
// A hosted project: the server's screening and replay history in front of the
// host's decisions, with a small engine that renames the project.
// ---------------------------------------------------------------------------

use jutsu_audio::editor::host::{
    answer, applied as host_applied, CommandFailure, CommandFailureCode, ExternalEffect, HostStep,
};

struct Hosted {
    token: String,
    history: ReplayHistory,
    path: String,
    name: String,
    revision: u64,
    effects: Vec<ExternalEffect>,
}

impl Hosted {
    fn new(name: &str) -> Self {
        Hosted {
            token: new_token(),
            history: ReplayHistory::new(),
            path: "/projects/song.jutsu-audio.json".into(),
            name: name.into(),
            revision: 0,
            effects: Vec::new(),
        }
    }

    /// The engine: each command renames the project, against one revision.
    fn apply(&mut self, expected: u64, commands: Vec<String>) -> Result<(u64, Vec<String>), CommandFailure> {
        if expected != self.revision {
            return Err(CommandFailure {
                code: CommandFailureCode::RevisionConflict,
                message: "the project has moved on".into(),
                expected_revision: Some(expected),
                actual_revision: Some(self.revision),
            });
        }
        for command in &commands {
            self.name = command.clone();
        }
        self.revision += 1;
        Ok((self.revision, vec!["project_renamed".into()]))
    }

    fn send(&mut self, request: &SessionRequest) -> SessionResponse {
        match screen(request, &self.token, &self.history) {
            Admission::Answer(response) => response,
            Admission::Dispatch => {
                let step = answer(request, &self.path, &self.name, self.revision, false);
                let (response, effect) = match step {
                    HostStep::Respond { response, effect } => (response, effect),
                    HostStep::Apply { request_id, expected_revision, commands, .. } => {
                        host_applied(request_id, self.apply(expected_revision, commands))
                    }
                };
                self.effects.extend(effect);
                settle(&mut self.history, request.request_id, Some(response))
            }
        }
    }

    fn request(&mut self, payload: RequestPayload) -> SessionResponse {
        let request = SessionRequest::new(&self.token.clone(), payload);
        self.send(&request)
    }
}

#[test]
fn an_external_batch_applies_through_the_same_engine_the_user_edits_with() {
    let mut host = Hosted::new("Before");
    let response = host.request(RequestPayload::Apply {
        expected_revision: Some(0),
        commands: vec!["After".into()],
    });
    let SessionResponse::Answered { payload, .. } = response else {
        panic!("expected the batch to apply, got {response:?}");
    };
    assert!(matches!(payload, ResponsePayload::Applied { revision: 1, replayed: false, .. }));
    assert_eq!(host.name, "After");
    assert_eq!(host.revision, 1);
    assert!(matches!(host.effects.as_slice(), [ExternalEffect::Applied { revision: 1, .. }]));
}

#[test]
fn a_repeated_request_id_applies_once_and_replays_its_answer() {
    let mut host = Hosted::new("Before");
    let request = SessionRequest {
        protocol_version: SESSION_PROTOCOL_VERSION,
        token: host.token.clone(),
        request_id: RequestId::new(),
        payload: RequestPayload::Apply { expected_revision: Some(0), commands: vec!["After".into()] },
    };
    host.send(&request);
    let second = host.send(&request);
    let SessionResponse::Answered { payload, .. } = second else {
        panic!("a replay must succeed, got {second:?}");
    };
    assert!(
        matches!(payload, ResponsePayload::Applied { revision: 1, replayed: true, .. }),
        "got {payload:?}"
    );
    assert_eq!(host.revision, 1, "the batch applied exactly once");
    assert_eq!(host.effects.len(), 1);
}

#[test]
fn a_stale_writer_is_told_both_revisions_and_changes_nothing() {
    let mut host = Hosted::new("Before");
    host.request(RequestPayload::Apply { expected_revision: Some(0), commands: vec!["First".into()] });
    let response = host
        .request(RequestPayload::Apply { expected_revision: Some(0), commands: vec!["Stale".into()] });
    let SessionResponse::Error { error, .. } = response else {
        panic!("a stale revision must be refused, got {response:?}");
    };
    assert_eq!(error.code, SessionErrorCode::RevisionConflict);
    assert_eq!(error.expected_revision, Some(0));
    assert_eq!(error.actual_revision, Some(1));
    assert_eq!(host.name, "First");
    assert_eq!(host.revision, 1);
    assert_eq!(host.effects.len(), 1, "the refused batch produced no effect");
}

#[test]
fn a_wrong_token_is_refused_before_the_payload_is_looked_at() {
    let mut host = Hosted::new("Before");
    let request = SessionRequest {
        protocol_version: SESSION_PROTOCOL_VERSION,
        token: "not the session token".into(),
        request_id: RequestId::new(),
        payload: RequestPayload::Apply { expected_revision: Some(0), commands: vec!["Intruder".into()] },
    };
    let response = host.send(&request);
    let SessionResponse::Error { error, .. } = response else {
        panic!("a bad token must be refused, got {response:?}");
    };
    assert_eq!(error.code, SessionErrorCode::Unauthorized);
    assert_eq!(host.name, "Before");
    assert_eq!(host.revision, 0);
    assert!(host.effects.is_empty());
}

#[test]
fn status_reports_the_hosted_project_without_touching_it() {
    let mut host = Hosted::new("Reported");
    let response = host.request(RequestPayload::Status);
    let SessionResponse::Answered { payload, .. } = response else {
        panic!("status must succeed, got {response:?}");
    };
    let ResponsePayload::Status { project_name, revision, unsaved, project_path } = payload else {
        panic!("expected a status payload, got {payload:?}");
    };
    assert_eq!(project_name, "Reported");
    assert_eq!(revision, 0);
    assert!(!unsaved);
    assert!(project_path.is_some_and(|path| path.ends_with("song.jutsu-audio.json")));
    assert_eq!(host.revision, 0);
    assert!(host.effects.is_empty());
}

#[test]
fn a_fresh_request_id_is_a_version_4_rfc_4122_uuid() {
    let id = RequestId::new().as_uuid();
    assert_eq!((id >> 76) & 0xf, 4);
    assert_eq!((id >> 62) & 0x3, 2);
}
