//! What the owner of a session decides about each request.
//!
//! Every request is checked for the protocol version and the token; one that
//! passes is answered from the replay history when its ID was answered
//! before, and otherwise handed to the owner. The owner's answer (or the lack
//! of one) is then recorded, so the same ID is never applied twice while it
//! is remembered. The listener, the threads and the owner's queue stay
//! outside; they hand these functions plain values.

use vstd::prelude::*;

use crate::session::protocol::{
    copy_response, same_response, RequestId, ResponsePayload, SessionError, SessionErrorCode, SessionRequest,
    SessionResponse, SESSION_PROTOCOL_VERSION,
};
use crate::text::{decimal, push_decimal, same_text};

verus! {

/// How many recent request IDs are remembered for replay.
pub const REPLAY_HISTORY: usize = 64;

/// A cached answer marked as a replay, so a client can tell it apart from a
/// fresh application. Only an applied batch carries the mark.
pub open spec fn replay_of(response: SessionResponse) -> SessionResponse {
    match response {
        SessionResponse::Answered {
            protocol_version,
            request_id,
            payload: ResponsePayload::Applied { revision, changes, .. },
        } => SessionResponse::Answered {
            protocol_version,
            request_id,
            payload: ResponsePayload::Applied { revision, changes, replayed: true },
        },
        other => other,
    }
}

/// The first entry of `entries` with `id`, from the oldest.
pub open spec fn first_with(entries: Seq<(RequestId, SessionResponse)>, id: RequestId) -> Option<
    int,
>
    decreases entries.len(),
{
    if entries.len() == 0 {
        None
    } else if entries[0].0 == id {
        Some(0)
    } else {
        match first_with(entries.drop_first(), id) {
            Some(i) => Some(i + 1),
            None => None,
        }
    }
}

/// The cached answer for `id`, if it is remembered.
pub open spec fn cached(entries: Seq<(RequestId, SessionResponse)>, id: RequestId) -> Option<
    SessionResponse,
> {
    match first_with(entries, id) {
        Some(i) => Some(entries[i].1),
        None => None,
    }
}

/// The history after remembering `response` for `id`: appended at the new
/// end, with the oldest entry forgotten once there are more than
/// `REPLAY_HISTORY`.
pub open spec fn remembered(
    entries: Seq<(RequestId, SessionResponse)>,
    id: RequestId,
    response: SessionResponse,
) -> Seq<(RequestId, SessionResponse)> {
    let longer = entries.push((id, response));
    if longer.len() > REPLAY_HISTORY {
        longer.drop_first()
    } else {
        longer
    }
}

/// The recent answers, oldest first.
pub struct ReplayHistory {
    entries: Vec<(RequestId, SessionResponse)>,
}

impl View for ReplayHistory {
    type V = Seq<(RequestId, SessionResponse)>;

    closed spec fn view(&self) -> Seq<(RequestId, SessionResponse)> {
        self.entries@
    }
}

impl ReplayHistory {
    /// The history never holds more than `REPLAY_HISTORY` answers.
    pub closed spec fn wf(&self) -> bool {
        self.entries@.len() <= REPLAY_HISTORY
    }

    pub fn new() -> (history: Self)
        ensures
            history.wf(),
            history@ == Seq::<(RequestId, SessionResponse)>::empty(),
    {
        ReplayHistory { entries: Vec::new() }
    }

    /// How many answers are remembered.
    pub fn len(&self) -> (n: usize)
        requires
            self.wf(),
        ensures
            n == self@.len(),
            n <= REPLAY_HISTORY,
    {
        self.entries.len()
    }

    /// The cached answer for `id`, marked as a replay.
    pub fn find(&self, id: RequestId) -> (found: Option<SessionResponse>)
        ensures
            match cached(self@, id) {
                Some(r) => found.is_some() && same_response(found.unwrap(), replay_of(r)),
                None => found.is_none(),
            },
    {
        let mut i: usize = 0;
        while i < self.entries.len()
            invariant
                i <= self.entries@.len(),
                forall|j: int| 0 <= j < i ==> self.entries@[j].0 != id,
            decreases self.entries.len() - i,
        {
            if self.entries[i].0 == id {
                proof {
                    lemma_first_with_at(self.entries@, id, i as int);
                }
                return Some(replayed(&self.entries[i].1));
            }
            i = i + 1;
        }
        proof {
            lemma_first_with_none(self.entries@, id);
        }
        None
    }

    /// Remembers `response` as the answer for `id`, forgetting the oldest
    /// answer once more than `REPLAY_HISTORY` are held.
    pub fn record(&mut self, id: RequestId, response: SessionResponse)
        requires
            old(self).wf(),
        ensures
            final(self).wf(),
            final(self)@ == remembered(old(self)@, id, response),
    {
        self.entries.push((id, response));
        if self.entries.len() > REPLAY_HISTORY {
            self.entries.remove(0);
        }
        assert(self.entries@ =~= remembered(old(self)@, id, response));
    }
}

proof fn lemma_first_with_at(entries: Seq<(RequestId, SessionResponse)>, id: RequestId, i: int)
    requires
        0 <= i < entries.len(),
        entries[i].0 == id,
        forall|j: int| 0 <= j < i ==> entries[j].0 != id,
    ensures
        first_with(entries, id) == Some(i),
    decreases entries.len(),
{
    if i > 0 {
        lemma_first_with_at(entries.drop_first(), id, i - 1);
    }
}

proof fn lemma_first_with_none(entries: Seq<(RequestId, SessionResponse)>, id: RequestId)
    requires
        forall|j: int| 0 <= j < entries.len() ==> entries[j].0 != id,
    ensures
        first_with(entries, id).is_none(),
    decreases entries.len(),
{
    if entries.len() > 0 {
        lemma_first_with_none(entries.drop_first(), id);
    }
}

/// Where `first_with` points, the ID matches and nothing earlier does.
proof fn lemma_first_with_found(entries: Seq<(RequestId, SessionResponse)>, id: RequestId)
    ensures
        match first_with(entries, id) {
            Some(i) => 0 <= i < entries.len() && entries[i].0 == id && forall|j: int|
                0 <= j < i ==> entries[j].0 != id,
            None => forall|j: int| 0 <= j < entries.len() ==> entries[j].0 != id,
        },
    decreases entries.len(),
{
    if entries.len() > 0 {
        lemma_first_with_found(entries.drop_first(), id);
        assert forall|j: int| 1 <= j < entries.len() implies entries[j] == entries.drop_first()[j
            - 1] by {}
    }
}

/// A cached answer marked as a replay.
pub fn replayed(response: &SessionResponse) -> (marked: SessionResponse)
    ensures
        same_response(marked, replay_of(*response)),
{
    match response {
        SessionResponse::Answered {
            protocol_version,
            request_id,
            payload: ResponsePayload::Applied { revision, changes, .. },
        } => SessionResponse::Answered {
            protocol_version: *protocol_version,
            request_id: *request_id,
            payload: ResponsePayload::Applied {
                revision: *revision,
                changes: crate::session::protocol::copy_strings(changes),
                replayed: true,
            },
        },
        other => copy_response(other),
    }
}

pub open spec fn closed_response(request_id: RequestId) -> SessionResponse {
    SessionResponse::Error {
        protocol_version: SESSION_PROTOCOL_VERSION,
        request_id,
        error: SessionError {
            code: SessionErrorCode::SessionClosed,
            message: arbitrary(),
            expected_revision: None,
            actual_revision: None,
        },
    }
}

/// The answer for a request its owner never answered.
pub fn closed(request_id: RequestId) -> (response: SessionResponse)
    ensures
        response matches SessionResponse::Error { protocol_version, request_id: id, error }
            && protocol_version == SESSION_PROTOCOL_VERSION && id == request_id && error.code
            == SessionErrorCode::SessionClosed && error.message@
            == "the session owner did not answer"@ && error.expected_revision.is_none()
            && error.actual_revision.is_none(),
{
    SessionResponse::failed(
        request_id,
        SessionError::new(SessionErrorCode::SessionClosed, "the session owner did not answer"),
    )
}

/// What the server does with a request before the owner sees it.
pub enum Admission {
    /// Answer at once with this; the owner never sees the request.
    Answer(SessionResponse),
    /// Hand the request to the owner, then `settle` its answer.
    Dispatch,
}

pub open spec fn version_message(version: u32) -> Seq<char> {
    "session protocol version "@ + decimal(version as nat) + " is unsupported; expected "@
        + decimal(SESSION_PROTOCOL_VERSION as nat)
}

/// A refusal of `request_id` with `code`.
pub open spec fn refusal(
    response: SessionResponse,
    request_id: RequestId,
    code: SessionErrorCode,
    message: Seq<char>,
) -> bool {
    response matches SessionResponse::Error { protocol_version, request_id: id, error }
        && protocol_version == SESSION_PROTOCOL_VERSION && id == request_id && error.code == code
        && error.message@ == message && error.expected_revision.is_none()
        && error.actual_revision.is_none()
}

/// Decides what happens to a request at a session whose secret is `token`:
/// a request at another protocol version is refused, then one with the wrong
/// token; a request whose ID is remembered is answered with its first answer,
/// marked as a replay; anything else goes to the owner.
pub fn screen(request: &SessionRequest, token: &str, history: &ReplayHistory) -> (admission:
    Admission)
    ensures
        request.protocol_version != SESSION_PROTOCOL_VERSION ==> (admission matches Admission::Answer(
            r,
        ) && refusal(
            r,
            request.request_id,
            SessionErrorCode::UnsupportedProtocolVersion,
            version_message(request.protocol_version),
        )),
        request.protocol_version == SESSION_PROTOCOL_VERSION && request.token@ != token@
            ==> (admission matches Admission::Answer(r) && refusal(
            r,
            request.request_id,
            SessionErrorCode::Unauthorized,
            "request token does not match this session"@,
        )),
        request.protocol_version == SESSION_PROTOCOL_VERSION && request.token@ == token@ ==> match cached(
            history@,
            request.request_id,
        ) {
            Some(first) => (admission matches Admission::Answer(r) && same_response(
                r,
                replay_of(first),
            )),
            None => admission is Dispatch,
        },
{
    let request_id = request.request_id;
    if request.protocol_version != SESSION_PROTOCOL_VERSION {
        let mut message = String::from_str("session protocol version ");
        push_decimal(&mut message, request.protocol_version as u64);
        message.append(" is unsupported; expected ");
        push_decimal(&mut message, SESSION_PROTOCOL_VERSION as u64);
        assert(message@ =~= version_message(request.protocol_version));
        return Admission::Answer(
            SessionResponse::failed(
                request_id,
                SessionError {
                    code: SessionErrorCode::UnsupportedProtocolVersion,
                    message,
                    expected_revision: None,
                    actual_revision: None,
                },
            ),
        );
    }
    if !same_text(request.token.as_str(), token) {
        return Admission::Answer(
            SessionResponse::failed(
                request_id,
                SessionError::new(
                    SessionErrorCode::Unauthorized,
                    "request token does not match this session",
                ),
            ),
        );
    }
    match history.find(request_id) {
        Some(response) => Admission::Answer(response),
        None => Admission::Dispatch,
    }
}

/// Settles a dispatched request: the owner's answer, or `closed` when it gave
/// none in time, which is also what is remembered for the ID.
pub fn settle(history: &mut ReplayHistory, request_id: RequestId, answer: Option<SessionResponse>) -> (response: SessionResponse)
    requires
        old(history).wf(),
    ensures
        final(history).wf(),
        match answer {
            Some(r) => response == r,
            None => refusal(
                response,
                request_id,
                SessionErrorCode::SessionClosed,
                "the session owner did not answer"@,
            ),
        },
        exists|kept: SessionResponse|
            same_response(kept, response) && final(history)@ == remembered(
                old(history)@,
                request_id,
                kept,
            ),
{
    let response = match answer {
        Some(r) => r,
        None => closed(request_id),
    };
    let kept = copy_response(&response);
    history.record(request_id, kept);
    assert(same_response(kept, response));
    response
}

// ---------------------------------------------------------------------------
// Laws
// ---------------------------------------------------------------------------

/// A request ID answered once is answered the same way when it comes again:
/// right after its answer is remembered, the history gives back that answer
/// for the ID (which `screen` then hands out, marked as a replay).
pub proof fn lemma_replay_returns_first_answer(
    entries: Seq<(RequestId, SessionResponse)>,
    id: RequestId,
    response: SessionResponse,
)
    requires
        entries.len() <= REPLAY_HISTORY,
        cached(entries, id).is_none(),
    ensures
        cached(remembered(entries, id, response), id) == Some(response),
{
    lemma_first_with_found(entries, id);
    let after = remembered(entries, id, response);
    let k = after.len() - 1;
    assert(after[k] == (id, response));
    assert forall|j: int| 0 <= j < k implies after[j].0 != id by {
        if entries.push((id, response)).len() > REPLAY_HISTORY {
            assert(after[j] == entries[j + 1]);
        } else {
            assert(after[j] == entries[j]);
        }
    }
    lemma_first_with_at(after, id, k);
}

/// A remembered answer stays the one given back while other IDs are
/// remembered after it, as long as it has not yet been pushed out: with `n`
/// answers before it in a history of at most `REPLAY_HISTORY`, it survives
/// each new one that leaves it inside the window.
pub proof fn lemma_replay_survives_other_requests(
    entries: Seq<(RequestId, SessionResponse)>,
    id: RequestId,
    other: RequestId,
    response: SessionResponse,
)
    requires
        entries.len() <= REPLAY_HISTORY,
        other != id,
        cached(entries, id).is_some(),
        entries.len() < REPLAY_HISTORY || first_with(entries, id) != Some(0int),
    ensures
        cached(remembered(entries, other, response), id) == cached(entries, id),
{
    lemma_first_with_found(entries, id);
    let i = first_with(entries, id).unwrap();
    let after = remembered(entries, other, response);
    if entries.push((other, response)).len() > REPLAY_HISTORY {
        assert(i >= 1);
        assert(after[i - 1] == entries[i]);
        assert forall|j: int| 0 <= j < i - 1 implies after[j].0 != id by {
            assert(after[j] == entries[j + 1]);
        }
        lemma_first_with_at(after, id, i - 1);
    } else {
        assert(after[i] == entries[i]);
        assert forall|j: int| 0 <= j < i implies after[j].0 != id by {
            assert(after[j] == entries[j]);
        }
        lemma_first_with_at(after, id, i);
    }
}

/// The history after remembering each of `answers` in turn.
pub open spec fn remembered_all(
    entries: Seq<(RequestId, SessionResponse)>,
    answers: Seq<(RequestId, SessionResponse)>,
) -> Seq<(RequestId, SessionResponse)>
    decreases answers.len(),
{
    if answers.len() == 0 {
        entries
    } else {
        let before = remembered_all(entries, answers.drop_last());
        remembered(before, answers.last().0, answers.last().1)
    }
}

/// One more answer for another ID moves an entry that had `k` answers after
/// it one place nearer the front, keeping it, while `k + 1` stays inside the
/// window.
proof fn lemma_entry_moves_back(
    entries: Seq<(RequestId, SessionResponse)>,
    id: RequestId,
    other: RequestId,
    response: SessionResponse,
    k: int,
)
    requires
        entries.len() <= REPLAY_HISTORY,
        0 <= k,
        k + 1 < REPLAY_HISTORY,
        other != id,
        first_with(entries, id) == Some(entries.len() - 1 - k),
    ensures
        remembered(entries, other, response).len() <= REPLAY_HISTORY,
        first_with(remembered(entries, other, response), id) == Some(
            remembered(entries, other, response).len() - 1 - (k + 1),
        ),
        remembered(entries, other, response)[remembered(entries, other, response).len() - 1 - (k
            + 1)] == entries[entries.len() - 1 - k],
{
    lemma_first_with_found(entries, id);
    let i = entries.len() - 1 - k;
    let after = remembered(entries, other, response);
    if entries.push((other, response)).len() > REPLAY_HISTORY {
        assert(i >= 1);
        assert(after[i - 1] == entries[i]);
        assert forall|j: int| 0 <= j < i - 1 implies after[j].0 != id by {
            assert(after[j] == entries[j + 1]);
        }
        lemma_first_with_at(after, id, i - 1);
    } else {
        assert(after[i] == entries[i]);
        assert forall|j: int| 0 <= j < i implies after[j].0 != id by {
            assert(after[j] == entries[j]);
        }
        lemma_first_with_at(after, id, i);
    }
}

proof fn lemma_entry_kept_through(
    entries: Seq<(RequestId, SessionResponse)>,
    id: RequestId,
    response: SessionResponse,
    others: Seq<(RequestId, SessionResponse)>,
)
    requires
        entries.len() <= REPLAY_HISTORY,
        cached(entries, id).is_none(),
        others.len() < REPLAY_HISTORY,
        forall|j: int| 0 <= j < others.len() ==> #[trigger] others[j].0 != id,
    ensures
        ({
            let h = remembered_all(remembered(entries, id, response), others);
            &&& h.len() <= REPLAY_HISTORY
            &&& first_with(h, id) == Some(h.len() - 1 - others.len())
            &&& h[h.len() - 1 - others.len()] == (id, response)
        }),
    decreases others.len(),
{
    let start = remembered(entries, id, response);
    if others.len() == 0 {
        lemma_replay_returns_first_answer(entries, id, response);
        lemma_first_with_found(start, id);
        let k = start.len() - 1;
        assert(start[k] == (id, response));
        assert forall|j: int| 0 <= j < k implies start[j].0 != id by {
            lemma_first_with_found(entries, id);
            if entries.push((id, response)).len() > REPLAY_HISTORY {
                assert(start[j] == entries[j + 1]);
            } else {
                assert(start[j] == entries[j]);
            }
        }
        lemma_first_with_at(start, id, k);
    } else {
        let rest = others.drop_last();
        assert forall|j: int| 0 <= j < rest.len() implies #[trigger] rest[j].0 != id by {
            assert(rest[j] == others[j]);
        }
        lemma_entry_kept_through(entries, id, response, rest);
        let h = remembered_all(start, rest);
        assert(others.last() == others[others.len() - 1]);
        lemma_entry_moves_back(h, id, others.last().0, others.last().1, rest.len() as int);
    }
}

/// A request answered once is answered the same way when it comes again,
/// however many other requests were answered after it, as long as fewer than
/// `REPLAY_HISTORY` were: their answers never push it out of the history.
pub proof fn lemma_replay_after_other_answers(
    entries: Seq<(RequestId, SessionResponse)>,
    id: RequestId,
    response: SessionResponse,
    others: Seq<(RequestId, SessionResponse)>,
)
    requires
        entries.len() <= REPLAY_HISTORY,
        cached(entries, id).is_none(),
        others.len() < REPLAY_HISTORY,
        forall|j: int| 0 <= j < others.len() ==> #[trigger] others[j].0 != id,
    ensures
        cached(remembered_all(remembered(entries, id, response), others), id) == Some(response),
{
    lemma_entry_kept_through(entries, id, response, others);
}

/// Marking a replay twice is marking it once.
pub proof fn lemma_replay_mark_is_idempotent(response: SessionResponse)
    ensures
        replay_of(replay_of(response)) == replay_of(response),
{
}

/// Remembering an answer never grows the history past `REPLAY_HISTORY`.
pub proof fn lemma_history_stays_bounded(
    entries: Seq<(RequestId, SessionResponse)>,
    id: RequestId,
    response: SessionResponse,
)
    requires
        entries.len() <= REPLAY_HISTORY,
    ensures
        remembered(entries, id, response).len() <= REPLAY_HISTORY,
        remembered(entries, id, response).last() == (id, response),
{
}

} // verus!
