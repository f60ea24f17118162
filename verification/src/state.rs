//! The session and turn state behind the control plane, and the steering
//! decisions taken against it.
//!
//! Steering awaits an outside delegate between two decisions, so it is two
//! steps here: [`ControlPlaneState::begin_apply_steer`] checks a request
//! and, when it may go through, reserves its idempotency key and hands back
//! the call to make; [`ControlPlaneState::finish_apply_steer`] takes what
//! the delegate answered, releases the reservation on failure and builds
//! the payload.
use crate::protocol::{
    bare_payload, opt_view, ApplySteerPayload, ApplySteerPayloadView, ApplySteerRequest,
    ApplySteerResult, CurrentSessionPayload, CurrentTurnPayload, LaunchKind, Request, Response,
    StatusPayload, TurnStatus,
};
use crate::protocol::{
    ends_with, joined_onto, lemma_socket_file_name_not_dots, socket_file_name_spec, socket_path,
    verbatim_prefixed, SOCKET_ID_CHARS,
};
use crate::text::str_equal;
use vstd::prelude::*;

verus! {

/// How a control plane starts.
#[derive(Debug, Clone)]
pub struct ControlPlaneConfig {
    pub feature_enabled: bool,
    pub consent_accepted: bool,
    pub steering_enabled: bool,
    /// The directory that holds the instances' sockets.
    pub ipc_dir: String,
    pub launch_kind: LaunchKind,
}

/// The registered session, as a snapshot.
#[derive(Debug, Clone, PartialEq, Eq)]
pub struct SessionSnapshot {
    pub thread_id: String,
    pub thread_name: Option<String>,
    pub cwd: String,
    pub launch_kind: LaunchKind,
}

/// The active turn, as a snapshot.
#[derive(Debug, Clone, PartialEq, Eq)]
pub struct TurnSnapshot {
    pub turn_id: String,
    pub status: TurnStatus,
}

/// Everything the control plane knows, as a snapshot.
#[derive(Debug, Clone, PartialEq, Eq)]
pub struct ControlPlaneSnapshot {
    pub instance_id: String,
    pub socket_path: String,
    pub feature_enabled: bool,
    pub consent_accepted: bool,
    pub steering_enabled: bool,
    pub launch_kind: LaunchKind,
    pub session: Option<SessionSnapshot>,
    pub active_turn: Option<TurnSnapshot>,
}

/// How a turn ended.
#[derive(Debug, Clone, Copy, PartialEq, Eq, Structural)]
pub enum FinishedTurnStatus {
    Completed,
    Aborted,
    Interrupted,
}

/// Why the steering delegate did not apply a steer.
#[derive(Debug, Clone, PartialEq, Eq)]
pub enum SteerError {
    NoActiveTurn,
    ExpectedTurnMismatch { actual_turn_id: String },
    Error(String),
}

/// The registered session.
#[derive(Debug)]
struct SessionState {
    thread_id: String,
    thread_name: Option<String>,
    cwd: String,
}

/// The mathematical content of the registered session.
pub struct SessionView {
    pub thread_id: Seq<char>,
    pub thread_name: Option<Seq<char>>,
    pub cwd: Seq<char>,
}

/// The mathematical content of a [`ControlPlaneState`].
pub struct ControlPlaneView {
    pub instance_id: Seq<char>,
    pub socket_path: Seq<char>,
    pub feature_enabled: bool,
    pub consent_accepted: bool,
    pub steering_enabled: bool,
    pub launch_kind: LaunchKind,
    pub session: Option<SessionView>,
    pub active_turn: Option<Seq<char>>,
    /// The `(turn id, idempotency key)` pairs that were accepted for
    /// steering and not released.
    pub seen_keys: Set<(Seq<char>, Seq<char>)>,
}

impl ControlPlaneView {
    /// What every state keeps: finitely many reservations, all of them for
    /// the active turn.
    pub open spec fn inv(self) -> bool {
        &&& self.seen_keys.finite()
        &&& forall|r: (Seq<char>, Seq<char>)| #[trigger]
            self.seen_keys.contains(r) ==> self.active_turn == Some(r.0)
    }

    /// A session registered: no turn, no reservations.
    pub open spec fn with_session(self, session: SessionView) -> ControlPlaneView {
        ControlPlaneView {
            session: Some(session),
            active_turn: None,
            seen_keys: Set::empty(),
            ..self
        }
    }

    /// The session cleared: no session, no turn, no reservations.
    pub open spec fn without_session(self) -> ControlPlaneView {
        ControlPlaneView { session: None, active_turn: None, seen_keys: Set::empty(), ..self }
    }

    /// A turn started: it is the active one, no reservations.
    pub open spec fn with_turn(self, turn_id: Seq<char>) -> ControlPlaneView {
        ControlPlaneView { active_turn: Some(turn_id), seen_keys: Set::empty(), ..self }
    }

    /// Whether a "turn finished" notice for `turn_id` ends the active turn:
    /// a notice without an id always does, one with an id only when it names
    /// the active turn.
    pub open spec fn finish_clears(self, turn_id: Option<Seq<char>>) -> bool {
        match turn_id {
            None => true,
            Some(t) => self.active_turn == Some(t),
        }
    }

    /// A turn finished.
    pub open spec fn after_turn_finished(self, turn_id: Option<Seq<char>>) -> ControlPlaneView {
        if self.finish_clears(turn_id) {
            ControlPlaneView { active_turn: None, seen_keys: Set::empty(), ..self }
        } else {
            self
        }
    }

    /// A reservation taken.
    pub open spec fn reserve(self, turn_id: Seq<char>, key: Seq<char>) -> ControlPlaneView {
        ControlPlaneView { seen_keys: self.seen_keys.insert((turn_id, key)), ..self }
    }

    /// A reservation released.
    pub open spec fn release(self, turn_id: Seq<char>, key: Seq<char>) -> ControlPlaneView {
        ControlPlaneView { seen_keys: self.seen_keys.remove((turn_id, key)), ..self }
    }
}

/// A change to the state, as the operations make it: registering or
/// clearing the session, a turn starting or finishing, a steering request
/// (which reserves its key when admitted), and the delegate's answer to an
/// admitted one (which releases the key unless the steer applied).
pub enum StateChange {
    SessionRegistered(SessionView),
    SessionCleared,
    TurnStarted(Seq<char>),
    TurnFinished(Option<Seq<char>>),
    SteerRequested { expected_turn_id: Seq<char>, idempotency_key: Seq<char>, text: Seq<char> },
    SteerAnswered { turn_id: Seq<char>, idempotency_key: Seq<char>, applied: bool },
}

/// The state after change `c`.
pub open spec fn apply_change(s: ControlPlaneView, c: StateChange) -> ControlPlaneView {
    match c {
        StateChange::SessionRegistered(session) => s.with_session(session),
        StateChange::SessionCleared => s.without_session(),
        StateChange::TurnStarted(turn_id) => s.with_turn(turn_id),
        StateChange::TurnFinished(turn_id) => s.after_turn_finished(turn_id),
        StateChange::SteerRequested { expected_turn_id, idempotency_key, text } => if steer_decision(
            s,
            expected_turn_id,
            idempotency_key,
            text,
        ) is Admitted {
            s.reserve(expected_turn_id, idempotency_key)
        } else {
            s
        },
        StateChange::SteerAnswered { turn_id, idempotency_key, applied } => if applied {
            s
        } else {
            s.release(turn_id, idempotency_key)
        },
    }
}

/// The state after `changes`, in order.
pub open spec fn apply_changes(s: ControlPlaneView, changes: Seq<StateChange>) -> ControlPlaneView
    decreases changes.len(),
{
    if changes.len() == 0 {
        s
    } else {
        apply_changes(apply_change(s, changes[0]), changes.drop_first())
    }
}

/// What the `status` request reports.
pub struct StatusView {
    pub instance_id: Seq<char>,
    pub socket_path: Seq<char>,
    pub launch_kind: LaunchKind,
    pub feature_enabled: bool,
    pub consent_accepted: bool,
    pub steering_enabled: bool,
    pub session_known: bool,
    pub active_turn_present: bool,
}

impl View for StatusPayload {
    type V = StatusView;

    open spec fn view(&self) -> StatusView {
        StatusView {
            instance_id: self.instance_id@,
            socket_path: self.socket_path@,
            launch_kind: self.launch_kind,
            feature_enabled: self.feature_enabled,
            consent_accepted: self.consent_accepted,
            steering_enabled: self.steering_enabled,
            session_known: self.session_known,
            active_turn_present: self.active_turn_present,
        }
    }
}

/// What the `current-session` request reports.
pub struct CurrentSessionView {
    pub thread_id: Seq<char>,
    pub thread_name: Option<Seq<char>>,
    pub cwd: Seq<char>,
    pub launch_kind: LaunchKind,
}

impl View for CurrentSessionPayload {
    type V = CurrentSessionView;

    open spec fn view(&self) -> CurrentSessionView {
        CurrentSessionView {
            thread_id: self.thread_id@,
            thread_name: opt_view(self.thread_name),
            cwd: self.cwd@,
            launch_kind: self.launch_kind,
        }
    }
}

/// What the `current-turn` request reports.
pub struct CurrentTurnView {
    pub thread_id: Seq<char>,
    pub turn_id: Seq<char>,
    pub status: TurnStatus,
}

impl View for CurrentTurnPayload {
    type V = CurrentTurnView;

    open spec fn view(&self) -> CurrentTurnView {
        CurrentTurnView {
            thread_id: self.thread_id@,
            turn_id: self.turn_id@,
            status: self.status,
        }
    }
}

/// The status of a state.
pub open spec fn status_of(s: ControlPlaneView) -> StatusView {
    StatusView {
        instance_id: s.instance_id,
        socket_path: s.socket_path,
        launch_kind: s.launch_kind,
        feature_enabled: s.feature_enabled,
        consent_accepted: s.consent_accepted,
        steering_enabled: s.steering_enabled,
        session_known: s.session is Some,
        active_turn_present: s.active_turn is Some,
    }
}

/// The session of a state, if one is registered.
pub open spec fn session_of(s: ControlPlaneView) -> Option<CurrentSessionView> {
    match s.session {
        Some(session) => Some(
            CurrentSessionView {
                thread_id: session.thread_id,
                thread_name: session.thread_name,
                cwd: session.cwd,
                launch_kind: s.launch_kind,
            },
        ),
        None => None,
    }
}

/// The turn of a state: present only when both a session and an active
/// turn are.
pub open spec fn turn_of(s: ControlPlaneView) -> Option<CurrentTurnView> {
    match (s.session, s.active_turn) {
        (Some(session), Some(turn_id)) => Some(
            CurrentTurnView {
                thread_id: session.thread_id,
                turn_id,
                status: TurnStatus::InProgress,
            },
        ),
        _ => None,
    }
}

pub open spec fn opt_session_view(o: Option<CurrentSessionPayload>) -> Option<CurrentSessionView> {
    match o {
        Some(p) => Some(p@),
        None => None,
    }
}

pub open spec fn opt_turn_view(o: Option<CurrentTurnPayload>) -> Option<CurrentTurnView> {
    match o {
        Some(p) => Some(p@),
        None => None,
    }
}

/// What `apply-steer` decides before the delegate is called, in the order
/// of its checks.
pub enum SteerDecision {
    NotEnabled,
    NotAuthorized,
    NoSession,
    NoActiveTurn,
    StaleTurn { actual_turn_id: Seq<char> },
    Duplicate,
    EmptyText,
    /// The request goes to the delegate for the session's thread.
    Admitted { thread_id: Seq<char> },
}

/// The decision for a steering request on state `s`: feature enabled,
/// then consent and steering allowed, then a session, then an active
/// turn, then the expected turn is the active one, then the
/// `(turn, key)` pair is new, then the text is not empty.
pub open spec fn steer_decision(
    s: ControlPlaneView,
    expected_turn_id: Seq<char>,
    idempotency_key: Seq<char>,
    text: Seq<char>,
) -> SteerDecision {
    if !s.feature_enabled {
        SteerDecision::NotEnabled
    } else if !s.consent_accepted || !s.steering_enabled {
        SteerDecision::NotAuthorized
    } else if s.session is None {
        SteerDecision::NoSession
    } else if s.active_turn is None {
        SteerDecision::NoActiveTurn
    } else if expected_turn_id != s.active_turn->0 {
        SteerDecision::StaleTurn { actual_turn_id: s.active_turn->0 }
    } else if s.seen_keys.contains((expected_turn_id, idempotency_key)) {
        SteerDecision::Duplicate
    } else if text.len() == 0 {
        SteerDecision::EmptyText
    } else {
        SteerDecision::Admitted { thread_id: s.session->0.thread_id }
    }
}

/// The answer to a request that was not admitted.
pub open spec fn rejection_payload(d: SteerDecision, expected_turn_id: Seq<char>) -> ApplySteerPayloadView {
    match d {
        SteerDecision::NotEnabled => bare_payload(ApplySteerResult::RejectedNotEnabled),
        SteerDecision::NotAuthorized => bare_payload(ApplySteerResult::RejectedNotAuthorized),
        SteerDecision::NoSession => bare_payload(ApplySteerResult::RejectedNoActiveTurn),
        SteerDecision::NoActiveTurn => bare_payload(ApplySteerResult::RejectedNoActiveTurn),
        SteerDecision::StaleTurn { actual_turn_id } => ApplySteerPayloadView {
            outcome: ApplySteerResult::RejectedStaleTurn,
            turn_id: None,
            actual_turn_id: Some(actual_turn_id),
            message: None,
        },
        SteerDecision::Duplicate => ApplySteerPayloadView {
            outcome: ApplySteerResult::Duplicate,
            turn_id: Some(expected_turn_id),
            actual_turn_id: None,
            message: None,
        },
        SteerDecision::EmptyText => ApplySteerPayloadView {
            outcome: ApplySteerResult::Error,
            turn_id: Some(expected_turn_id),
            actual_turn_id: None,
            message: Some("text must not be empty"@),
        },
        SteerDecision::Admitted { .. } => bare_payload(ApplySteerResult::Error),
    }
}

/// The answer once the delegate has answered `result` for a call on
/// `turn_id`.
pub open spec fn completion_payload(result: Result<String, SteerError>, turn_id: Seq<char>) -> ApplySteerPayloadView {
    match result {
        Ok(applied) => ApplySteerPayloadView {
            outcome: ApplySteerResult::Applied,
            turn_id: Some(applied@),
            actual_turn_id: None,
            message: None,
        },
        Err(SteerError::NoActiveTurn) => bare_payload(ApplySteerResult::RejectedNoActiveTurn),
        Err(SteerError::ExpectedTurnMismatch { actual_turn_id }) => ApplySteerPayloadView {
            outcome: ApplySteerResult::RejectedStaleTurn,
            turn_id: None,
            actual_turn_id: Some(actual_turn_id@),
            message: None,
        },
        Err(SteerError::Error(message)) => ApplySteerPayloadView {
            outcome: ApplySteerResult::Error,
            turn_id: Some(turn_id),
            actual_turn_id: None,
            message: Some(message@),
        },
    }
}

/// A steering call for the delegate: steer `thread_id`'s turn
/// `expected_turn_id` with `text`. `(expected_turn_id, idempotency_key)` is
/// the reservation it holds.
#[derive(Debug, Clone, PartialEq, Eq)]
pub struct SteerCall {
    pub thread_id: String,
    pub expected_turn_id: String,
    pub text: String,
    pub idempotency_key: String,
}

/// What [`ControlPlaneState::begin_apply_steer`] decided.
#[derive(Debug, Clone, PartialEq)]
pub enum SteerStep {
    /// The request is answered without the delegate.
    Respond(ApplySteerPayload),
    /// The delegate is to be called.
    Delegate(SteerCall),
}

/// What [`ControlPlaneState::handle_request`] decided.
#[derive(Debug, Clone, PartialEq)]
pub enum RequestOutcome {
    /// The response to send.
    Respond(Response),
    /// A steering call to make; its answer goes to
    /// [`ControlPlaneState::finish_apply_steer`].
    Steer(SteerCall),
}

/// Whether `c` is a lowercase hexadecimal digit.
pub open spec fn is_lower_hex(c: char) -> bool {
    ('0' <= c <= '9') || ('a' <= c <= 'f')
}

/// The shape of a generated instance id: a UUID in its hyphenated,
/// lowercase form (`xxxxxxxx-xxxx-xxxx-xxxx-xxxxxxxxxxxx`).
pub open spec fn is_instance_id(id: Seq<char>) -> bool {
    &&& id.len() == 36
    &&& forall|i: int|
        0 <= i < 36 ==> if i == 8 || i == 13 || i == 18 || i == 23 {
            #[trigger] id[i] == '-'
        } else {
            is_lower_hex(id[i])
        }
}

/// A new random instance id.
///
/// Trusted: calls `uuid::Uuid::new_v4` and renders the UUID with its
/// `Display`, which the uuid crate writes in the hyphenated lowercase form.
/// The value itself is random; only its shape is stated.
#[verifier::external_body]
fn new_instance_id() -> (id: String)
    ensures
        is_instance_id(id@),
{
    uuid::Uuid::new_v4().to_string()
}

/// What `apply-steer` answers, read from a response: an `apply-steer`
/// response gives its payload, an error response an error payload with its
/// message, any other response an error payload saying it was unexpected.
pub fn apply_steer_payload_from_response(response: Response) -> (payload: ApplySteerPayload)
    ensures
        match response {
            Response::ApplySteer { payload: p } => payload == p,
            Response::Error { payload: e } => payload@ == (ApplySteerPayloadView {
                outcome: ApplySteerResult::Error,
                turn_id: None,
                actual_turn_id: None,
                message: Some(e.message@),
            }),
            _ => payload@ == (ApplySteerPayloadView {
                outcome: ApplySteerResult::Error,
                turn_id: None,
                actual_turn_id: None,
                message: Some("unexpected control-plane response"@),
            }),
        },
{
    match response {
        Response::ApplySteer { payload } => payload,
        Response::Error { payload } => ApplySteerPayload {
            outcome: ApplySteerResult::Error,
            turn_id: None,
            actual_turn_id: None,
            message: Some(payload.message),
        },
        _ => ApplySteerPayload {
            outcome: ApplySteerResult::Error,
            turn_id: None,
            actual_turn_id: None,
            message: Some("unexpected control-plane response".to_string()),
        },
    }
}

/// The state behind one control-plane instance.
#[derive(Debug)]
pub struct ControlPlaneState {
    instance_id: String,
    socket_path: String,
    feature_enabled: bool,
    consent_accepted: bool,
    steering_enabled: bool,
    launch_kind: LaunchKind,
    session: Option<SessionState>,
    active_turn: Option<String>,
    seen_idempotency_keys: Vec<(String, String)>,
}

/// The characters of a reservation.
pub open spec fn key_view(k: (String, String)) -> (Seq<char>, Seq<char>) {
    (k.0@, k.1@)
}

impl View for ControlPlaneState {
    type V = ControlPlaneView;

    closed spec fn view(&self) -> ControlPlaneView {
        ControlPlaneView {
            instance_id: self.instance_id@,
            socket_path: self.socket_path@,
            feature_enabled: self.feature_enabled,
            consent_accepted: self.consent_accepted,
            steering_enabled: self.steering_enabled,
            launch_kind: self.launch_kind,
            session: match self.session {
                Some(s) => Some(
                    SessionView { thread_id: s.thread_id@, thread_name: opt_view(s.thread_name), cwd: s.cwd@ },
                ),
                None => None,
            },
            active_turn: opt_view(self.active_turn),
            seen_keys: self.seen_idempotency_keys@.map_values(|k: (String, String)| key_view(k)).to_set(),
        }
    }
}

/// The characters of each reservation.
pub open spec fn keys_of(v: Seq<(String, String)>) -> Seq<(Seq<char>, Seq<char>)> {
    v.map_values(|k: (String, String)| key_view(k))
}

/// No reservation is held twice, and every one is for the active turn.
pub open spec fn reservations_ok(keys: Seq<(Seq<char>, Seq<char>)>, active_turn: Option<Seq<char>>) -> bool {
    &&& keys.no_duplicates()
    &&& forall|i: int| 0 <= i < keys.len() ==> active_turn == Some(#[trigger] keys[i].0)
}

impl ControlPlaneState {
    spec fn keys_seq(&self) -> Seq<(Seq<char>, Seq<char>)> {
        keys_of(self.seen_idempotency_keys@)
    }

    /// No reservation is held twice, and every one is for the active turn.
    #[verifier::type_invariant]
    spec fn wf(self) -> bool {
        reservations_ok(keys_of(self.seen_idempotency_keys@), opt_view(self.active_turn))
    }

    /// A well-formed state's view keeps the invariant.
    proof fn lemma_view_inv(&self)
        requires
            self.wf(),
        ensures
            self@.inv(),
    {
        let ks = self.keys_seq();
        assert(self@.seen_keys == ks.to_set());
        vstd::seq_lib::seq_to_set_is_finite(ks);
        assert forall|r: (Seq<char>, Seq<char>)| #[trigger] self@.seen_keys.contains(r) implies self@.active_turn
            == Some(r.0) by {
            let i = choose|i: int| 0 <= i < ks.len() && ks[i] == r;
            assert(ks[i].0 == r.0);
        }
    }

    /// A fresh state for `config`, named `instance_id` and listening at
    /// `socket_path`: no session, no turn, no reservations.
    pub fn new(config: ControlPlaneConfig, instance_id: String, socket_path: String) -> (state: Self)
        ensures
            state@ == (ControlPlaneView {
                instance_id: instance_id@,
                socket_path: socket_path@,
                feature_enabled: config.feature_enabled,
                consent_accepted: config.consent_accepted,
                steering_enabled: config.steering_enabled,
                launch_kind: config.launch_kind,
                session: None,
                active_turn: None,
                seen_keys: Set::empty(),
            }),
            state@.inv(),
    {
        let state = ControlPlaneState {
            instance_id,
            socket_path,
            feature_enabled: config.feature_enabled,
            consent_accepted: config.consent_accepted,
            steering_enabled: config.steering_enabled,
            launch_kind: config.launch_kind,
            session: None,
            active_turn: None,
            seen_idempotency_keys: Vec::new(),
        };
        assert(state.keys_seq() =~= Seq::empty());
        assert(state@.seen_keys =~= Set::empty());
        proof {
            use_type_invariant(&state);
            state.lemma_view_inv();
        }
        state
    }

    /// The instance's id.
    pub fn instance_id(&self) -> (id: &String)
        ensures
            id@ == self@.instance_id,
    {
        &self.instance_id
    }

    /// The instance's socket path.
    pub fn socket_path(&self) -> (path: &String)
        ensures
            path@ == self@.socket_path,
    {
        &self.socket_path
    }

    /// The `status` payload.
    pub fn status_payload(&self) -> (payload: StatusPayload)
        ensures
            payload@ == status_of(self@),
    {
        StatusPayload {
            instance_id: self.instance_id.clone(),
            socket_path: self.socket_path.clone(),
            launch_kind: self.launch_kind,
            feature_enabled: self.feature_enabled,
            consent_accepted: self.consent_accepted,
            steering_enabled: self.steering_enabled,
            session_known: self.session.is_some(),
            active_turn_present: self.active_turn.is_some(),
        }
    }

    /// The `current-session` payload: the registered session, if any.
    pub fn current_session_payload(&self) -> (payload: Option<CurrentSessionPayload>)
        ensures
            opt_session_view(payload) == session_of(self@),
    {
        match &self.session {
            Some(session) => Some(
                CurrentSessionPayload {
                    thread_id: session.thread_id.clone(),
                    thread_name: session.thread_name.clone(),
                    cwd: session.cwd.clone(),
                    launch_kind: self.launch_kind,
                },
            ),
            None => None,
        }
    }

    /// The `current-turn` payload: present when a session is registered
    /// and a turn is active.
    pub fn current_turn_payload(&self) -> (payload: Option<CurrentTurnPayload>)
        ensures
            opt_turn_view(payload) == turn_of(self@),
    {
        match (&self.session, &self.active_turn) {
            (Some(session), Some(turn_id)) => Some(
                CurrentTurnPayload {
                    thread_id: session.thread_id.clone(),
                    turn_id: turn_id.clone(),
                    status: TurnStatus::InProgress,
                },
            ),
            _ => None,
        }
    }

    /// The active turn of the registered session, if any.
    pub fn current_turn(&self) -> (payload: Option<CurrentTurnPayload>)
        ensures
            opt_turn_view(payload) == turn_of(self@),
    {
        self.current_turn_payload()
    }

    /// Everything the state knows, as a snapshot.
    pub fn snapshot(&self) -> (snapshot: ControlPlaneSnapshot)
        ensures
            snapshot.instance_id@ == self@.instance_id,
            snapshot.socket_path@ == self@.socket_path,
            snapshot.feature_enabled == self@.feature_enabled,
            snapshot.consent_accepted == self@.consent_accepted,
            snapshot.steering_enabled == self@.steering_enabled,
            snapshot.launch_kind == self@.launch_kind,
            match (snapshot.session, session_of(self@)) {
                (Some(s), Some(v)) => s.thread_id@ == v.thread_id && opt_view(s.thread_name)
                    == v.thread_name && s.cwd@ == v.cwd && s.launch_kind == v.launch_kind,
                (None, None) => true,
                _ => false,
            },
            match (snapshot.active_turn, turn_of(self@)) {
                (Some(t), Some(v)) => t.turn_id@ == v.turn_id && t.status == v.status,
                (None, None) => true,
                _ => false,
            },
    {
        let session = match self.current_session_payload() {
            Some(s) => Some(
                SessionSnapshot {
                    thread_id: s.thread_id,
                    thread_name: s.thread_name,
                    cwd: s.cwd,
                    launch_kind: s.launch_kind,
                },
            ),
            None => None,
        };
        let active_turn = match self.current_turn_payload() {
            Some(t) => Some(TurnSnapshot { turn_id: t.turn_id, status: t.status }),
            None => None,
        };
        ControlPlaneSnapshot {
            instance_id: self.instance_id.clone(),
            socket_path: self.socket_path.clone(),
            feature_enabled: self.feature_enabled,
            consent_accepted: self.consent_accepted,
            steering_enabled: self.steering_enabled,
            launch_kind: self.launch_kind,
            session,
            active_turn,
        }
    }

    /// Forgets every reservation.
    fn clear_keys(&mut self)
        ensures
            final(self)@ == (ControlPlaneView { seen_keys: Set::empty(), ..old(self)@ }),
            final(self).keys_seq().len() == 0,
            final(self).active_turn == old(self).active_turn,
            final(self).session == old(self).session,
    {
        self.seen_idempotency_keys = Vec::new();
        proof {
            assert(self.keys_seq() =~= Seq::empty());
            assert(self@.seen_keys =~= Set::empty());
        }
    }

    /// Registers the primary session; any turn and reservations are gone.
    pub fn register_session(&mut self, thread_id: String, thread_name: Option<String>, cwd: String)
        ensures
            final(self)@ == old(self)@.with_session(
                SessionView { thread_id: thread_id@, thread_name: opt_view(thread_name), cwd: cwd@ },
            ),
            final(self)@ == apply_change(
                old(self)@,
                StateChange::SessionRegistered(
                    SessionView { thread_id: thread_id@, thread_name: opt_view(thread_name), cwd: cwd@ },
                ),
            ),
            final(self)@.inv(),
    {
        self.clear_keys();
        self.active_turn = None;
        self.session = Some(SessionState { thread_id, thread_name, cwd });
        proof {
            use_type_invariant(&*self);
            self.lemma_view_inv();
        }
    }

    /// Clears the session; `reason` says why. No session, turn or
    /// reservation remains.
    pub fn clear_session(&mut self, reason: &str)
        ensures
            final(self)@ == old(self)@.without_session(),
            final(self)@ == apply_change(old(self)@, StateChange::SessionCleared),
            final(self)@.inv(),
    {
        self.clear_keys();
        self.active_turn = None;
        self.session = None;
        proof {
            use_type_invariant(&*self);
            self.lemma_view_inv();
        }
    }

    /// Notes that `turn_id` started: it is the active turn, and no
    /// reservation remains.
    pub fn note_turn_started(&mut self, turn_id: &str)
        ensures
            final(self)@ == old(self)@.with_turn(turn_id@),
            final(self)@ == apply_change(old(self)@, StateChange::TurnStarted(turn_id@)),
            final(self)@.inv(),
    {
        self.clear_keys();
        self.active_turn = Some(turn_id.to_string());
        proof {
            use_type_invariant(&*self);
            self.lemma_view_inv();
        }
    }

    /// Notes that a turn finished. A notice without an id, or one naming
    /// the active turn, ends the active turn and forgets the reservations;
    /// any other notice changes nothing.
    pub fn note_turn_finished(&mut self, turn_id: Option<&str>, status: FinishedTurnStatus)
        ensures
            final(self)@ == old(self)@.after_turn_finished(
                match turn_id {
                    Some(t) => Some(t@),
                    None => None,
                },
            ),
            final(self)@ == apply_change(
                old(self)@,
                StateChange::TurnFinished(
                    match turn_id {
                        Some(t) => Some(t@),
                        None => None,
                    },
                ),
            ),
            final(self)@.inv(),
    {
        let should_clear = match (&self.active_turn, turn_id) {
            (_, None) => true,
            (Some(active), Some(t)) => str_equal(active.as_str(), t),
            (None, Some(_)) => false,
        };
        if should_clear {
            self.clear_keys();
            self.active_turn = None;
        }
        proof {
            use_type_invariant(&*self);
            self.lemma_view_inv();
        }
    }

    /// Where `(turn_id, key)` is reserved, if it is.
    fn find_key(&self, turn_id: &String, key: &String) -> (found: Option<usize>)
        ensures
            match found {
                Some(i) => i < self.keys_seq().len() && self.keys_seq()[i as int] == (turn_id@, key@),
                None => !self@.seen_keys.contains((turn_id@, key@)),
            },
    {
        let mut i: usize = 0;
        while i < self.seen_idempotency_keys.len()
            invariant
                i <= self.keys_seq().len(),
                self.keys_seq().len() == self.seen_idempotency_keys@.len(),
                forall|j: int| 0 <= j < i ==> self.keys_seq()[j] != (turn_id@, key@),
            decreases self.seen_idempotency_keys.len() - i,
        {
            let entry = &self.seen_idempotency_keys[i];
            if entry.0 == *turn_id && entry.1 == *key {
                assert(self.keys_seq()[i as int] == key_view(self.seen_idempotency_keys@[i as int]));
                return Some(i);
            }
            assert(self.keys_seq()[i as int] == key_view(self.seen_idempotency_keys@[i as int]));
            i += 1;
        }
        proof {
            if self@.seen_keys.contains((turn_id@, key@)) {
                let j = choose|j: int| 0 <= j < self.keys_seq().len() && self.keys_seq()[j] == (turn_id@, key@);
                assert(self.keys_seq()[j] != (turn_id@, key@));
            }
        }
        None
    }

    /// Reserves `(turn_id, key)`, which is for the active turn and not
    /// reserved yet.
    fn reserve_key(&mut self, turn_id: String, key: String)
        requires
            old(self)@.active_turn == Some(turn_id@),
            !old(self)@.seen_keys.contains((turn_id@, key@)),
        ensures
            final(self)@ == old(self)@.reserve(turn_id@, key@),
    {
        proof {
            use_type_invariant(&*self);
        }
        let ghost k = (turn_id@, key@);
        let ghost before = self.keys_seq();
        let mut keys: Vec<(String, String)> = Vec::new();
        std::mem::swap(&mut keys, &mut self.seen_idempotency_keys);
        keys.push((turn_id, key));
        proof {
            let after = keys_of(keys@);
            assert(after =~= before.push(k));
            assert(!before.contains(k));
            assert forall|i: int, j: int|
                0 <= i < after.len() && 0 <= j < after.len() && i != j implies after[i] != after[j] by {
                if i < before.len() && j < before.len() {
                    assert(before[i] != before[j]);
                } else if i < before.len() {
                    assert(before[i] != k);
                } else if j < before.len() {
                    assert(before[j] != k);
                }
            }
            assert forall|i: int| 0 <= i < after.len() implies opt_view(self.active_turn) == Some(
                #[trigger] after[i].0,
            ) by {
                if i < before.len() {
                    assert(after[i] == before[i]);
                }
            }
        }
        self.seen_idempotency_keys = keys;
        proof {
            assert(self.keys_seq() =~= before.push(k));
            assert forall|x: (Seq<char>, Seq<char>)|
                #![trigger self@.seen_keys.contains(x)]
                self@.seen_keys.contains(x) == old(self)@.seen_keys.insert(k).contains(x) by {
                if self.keys_seq().contains(x) {
                    let j = choose|j: int| 0 <= j < self.keys_seq().len() && self.keys_seq()[j] == x;
                    if j < before.len() {
                        assert(before[j] == x);
                    }
                }
                if before.contains(x) {
                    let j = choose|j: int| 0 <= j < before.len() && before[j] == x;
                    assert(self.keys_seq()[j] == x);
                }
                if x == k {
                    assert(self.keys_seq()[before.len() as int] == k);
                }
            }
            assert(self@.seen_keys =~= old(self)@.seen_keys.insert(k));
        }
    }

    /// Releases `(turn_id, key)` if it is reserved.
    fn remove_idempotency_reservation(&mut self, turn_id: &String, key: &String)
        ensures
            final(self)@ == old(self)@.release(turn_id@, key@),
    {
        proof {
            use_type_invariant(&*self);
        }
        match self.find_key(turn_id, key) {
            Some(i) => {
                let ghost k = (turn_id@, key@);
                let ghost before = self.keys_seq();
                let mut keys: Vec<(String, String)> = Vec::new();
                std::mem::swap(&mut keys, &mut self.seen_idempotency_keys);
                keys.remove(i);
                proof {
                    let after = keys_of(keys@);
                    assert(after =~= before.remove(i as int));
                    assert forall|a: int, b: int|
                        0 <= a < after.len() && 0 <= b < after.len() && a != b implies after[a]
                        != after[b] by {
                        let a0 = if a < i { a } else { a + 1 };
                        let b0 = if b < i { b } else { b + 1 };
                        assert(after[a] == before[a0]);
                        assert(after[b] == before[b0]);
                        assert(before[a0] != before[b0]);
                    }
                    assert forall|a: int| 0 <= a < after.len() implies opt_view(self.active_turn) == Some(
                        #[trigger] after[a].0,
                    ) by {
                        let a0 = if a < i { a } else { a + 1 };
                        assert(after[a] == before[a0]);
                    }
                }
                self.seen_idempotency_keys = keys;
                proof {
                    assert(self.keys_seq() =~= before.remove(i as int));
                    assert forall|x: (Seq<char>, Seq<char>)|
                        #![trigger self@.seen_keys.contains(x)]
                        self@.seen_keys.contains(x) == old(self)@.seen_keys.remove(k).contains(x) by {
                        if self@.seen_keys.contains(x) {
                            let j = choose|j: int| 0 <= j < self.keys_seq().len() && self.keys_seq()[j] == x;
                            if j < i {
                                assert(before[j] == x);
                                assert(j != i);
                            } else {
                                assert(before[j + 1] == x);
                                assert(j + 1 != i);
                            }
                            assert(before.contains(x));
                        }
                        if old(self)@.seen_keys.remove(k).contains(x) {
                            let j = choose|j: int| 0 <= j < before.len() && before[j] == x;
                            assert(j != i);
                            if j < i {
                                assert(self.keys_seq()[j] == x);
                            } else {
                                assert(self.keys_seq()[j - 1] == x);
                            }
                        }
                    }
                    assert(self@.seen_keys =~= old(self)@.seen_keys.remove(k));
                }
            },
            None => {
                proof {
                    assert(self@.seen_keys =~= old(self)@.seen_keys.remove((turn_id@, key@)));
                }
            },
        }
    }

    /// Checks a steering request in order (feature enabled; consent and
    /// steering allowed; a session; an active turn; the expected turn is
    /// the active one; the `(turn, key)` pair is new; the text is not
    /// empty). A request that passes reserves its pair and becomes a call
    /// for the delegate on the session's thread and the active turn; any
    /// other is answered here and changes nothing.
    pub fn begin_apply_steer(&mut self, request: ApplySteerRequest) -> (step: SteerStep)
        ensures
            final(self)@.inv(),
            final(self)@ == apply_change(
                old(self)@,
                StateChange::SteerRequested {
                    expected_turn_id: request.expected_turn_id@,
                    idempotency_key: request.idempotency_key@,
                    text: request.text@,
                },
            ),
            match steer_decision(
                old(self)@,
                request.expected_turn_id@,
                request.idempotency_key@,
                request.text@,
            ) {
                SteerDecision::Admitted { thread_id } => {
                    &&& step matches SteerStep::Delegate(call)
                    &&& call.thread_id@ == thread_id
                    &&& call.expected_turn_id@ == request.expected_turn_id@
                    &&& call.text@ == request.text@
                    &&& call.idempotency_key@ == request.idempotency_key@
                    &&& final(self)@ == old(self)@.reserve(
                        request.expected_turn_id@,
                        request.idempotency_key@,
                    )
                },
                d => {
                    &&& step matches SteerStep::Respond(payload)
                    &&& payload@ == rejection_payload(d, request.expected_turn_id@)
                    &&& final(self)@ == old(self)@
                },
            },
    {
        proof {
            use_type_invariant(&*self);
            self.lemma_view_inv();
        }
        if !self.feature_enabled {
            return SteerStep::Respond(ApplySteerPayload::new(ApplySteerResult::RejectedNotEnabled));
        }
        if !self.consent_accepted || !self.steering_enabled {
            return SteerStep::Respond(
                ApplySteerPayload::new(ApplySteerResult::RejectedNotAuthorized),
            );
        }
        let thread_id = match &self.session {
            Some(session) => session.thread_id.clone(),
            None => {
                return SteerStep::Respond(
                    ApplySteerPayload::new(ApplySteerResult::RejectedNoActiveTurn),
                );
            },
        };
        let active_turn_id = match &self.active_turn {
            Some(turn_id) => turn_id.clone(),
            None => {
                return SteerStep::Respond(
                    ApplySteerPayload::new(ApplySteerResult::RejectedNoActiveTurn),
                );
            },
        };
        if !(request.expected_turn_id == active_turn_id) {
            return SteerStep::Respond(
                ApplySteerPayload {
                    outcome: ApplySteerResult::RejectedStaleTurn,
                    turn_id: None,
                    actual_turn_id: Some(active_turn_id),
                    message: None,
                },
            );
        }
        if self.find_key(&request.expected_turn_id, &request.idempotency_key).is_some() {
            return SteerStep::Respond(
                ApplySteerPayload {
                    outcome: ApplySteerResult::Duplicate,
                    turn_id: Some(request.expected_turn_id),
                    actual_turn_id: None,
                    message: None,
                },
            );
        }
        if request.text.as_str().is_empty() {
            return SteerStep::Respond(
                ApplySteerPayload {
                    outcome: ApplySteerResult::Error,
                    turn_id: Some(request.expected_turn_id),
                    actual_turn_id: None,
                    message: Some("text must not be empty".to_string()),
                },
            );
        }
        self.reserve_key(request.expected_turn_id.clone(), request.idempotency_key.clone());
        proof {
            use_type_invariant(&*self);
            self.lemma_view_inv();
        }
        SteerStep::Delegate(
            SteerCall {
                thread_id,
                expected_turn_id: request.expected_turn_id,
                text: request.text,
                idempotency_key: request.idempotency_key,
            },
        )
    }

    /// Takes the delegate's answer to `call`: a steer that did not apply
    /// releases the call's reservation, so the same key can be tried again;
    /// an applied one keeps it.
    pub fn finish_apply_steer(&mut self, call: &SteerCall, result: Result<String, SteerError>) -> (payload: ApplySteerPayload)
        ensures
            final(self)@.inv(),
            payload@ == completion_payload(result, call.expected_turn_id@),
            final(self)@ == apply_change(
                old(self)@,
                StateChange::SteerAnswered {
                    turn_id: call.expected_turn_id@,
                    idempotency_key: call.idempotency_key@,
                    applied: result is Ok,
                },
            ),
            final(self)@ == (if result is Ok {
                old(self)@
            } else {
                old(self)@.release(call.expected_turn_id@, call.idempotency_key@)
            }),
    {
        proof {
            use_type_invariant(&*self);
            self.lemma_view_inv();
        }
        let payload = match result {
            Ok(turn_id) => {
                return ApplySteerPayload {
                    outcome: ApplySteerResult::Applied,
                    turn_id: Some(turn_id),
                    actual_turn_id: None,
                    message: None,
                };
            },
            Err(SteerError::NoActiveTurn) => ApplySteerPayload::new(
                ApplySteerResult::RejectedNoActiveTurn,
            ),
            Err(SteerError::ExpectedTurnMismatch { actual_turn_id }) => ApplySteerPayload {
                outcome: ApplySteerResult::RejectedStaleTurn,
                turn_id: None,
                actual_turn_id: Some(actual_turn_id),
                message: None,
            },
            Err(SteerError::Error(message)) => ApplySteerPayload {
                outcome: ApplySteerResult::Error,
                turn_id: Some(call.expected_turn_id.clone()),
                actual_turn_id: None,
                message: Some(message),
            },
        };
        self.remove_idempotency_reservation(&call.expected_turn_id, &call.idempotency_key);
        proof {
            use_type_invariant(&*self);
            self.lemma_view_inv();
        }
        payload
    }

    /// Answers a request. Reads answer from the state and change nothing;
    /// a steering request goes through [`Self::begin_apply_steer`] and is
    /// either answered or becomes a call for the delegate.
    pub fn handle_request(&mut self, request: Request) -> (outcome: RequestOutcome)
        ensures
            final(self)@.inv(),
            request matches Request::ApplySteer(r) ==> final(self)@ == apply_change(
                old(self)@,
                StateChange::SteerRequested {
                    expected_turn_id: r.expected_turn_id@,
                    idempotency_key: r.idempotency_key@,
                    text: r.text@,
                },
            ),
            match request {
                Request::Status => {
                    &&& outcome matches RequestOutcome::Respond(Response::Status { payload })
                    &&& payload@ == status_of(old(self)@)
                    &&& final(self)@ == old(self)@
                },
                Request::CurrentSession => {
                    &&& outcome matches RequestOutcome::Respond(
                        Response::CurrentSession { payload },
                    )
                    &&& opt_session_view(payload) == session_of(old(self)@)
                    &&& final(self)@ == old(self)@
                },
                Request::CurrentTurn => {
                    &&& outcome matches RequestOutcome::Respond(Response::CurrentTurn { payload })
                    &&& opt_turn_view(payload) == turn_of(old(self)@)
                    &&& final(self)@ == old(self)@
                },
                Request::ApplySteer(r) => match steer_decision(
                    old(self)@,
                    r.expected_turn_id@,
                    r.idempotency_key@,
                    r.text@,
                ) {
                    SteerDecision::Admitted { thread_id } => {
                        &&& outcome matches RequestOutcome::Steer(call)
                        &&& call.thread_id@ == thread_id
                        &&& call.expected_turn_id@ == r.expected_turn_id@
                        &&& call.text@ == r.text@
                        &&& call.idempotency_key@ == r.idempotency_key@
                        &&& final(self)@ == old(self)@.reserve(
                            r.expected_turn_id@,
                            r.idempotency_key@,
                        )
                    },
                    d => {
                        &&& outcome matches RequestOutcome::Respond(
                            Response::ApplySteer { payload },
                        )
                        &&& payload@ == rejection_payload(d, r.expected_turn_id@)
                        &&& final(self)@ == old(self)@
                    },
                },
            },
    {
        proof {
            use_type_invariant(&*self);
            self.lemma_view_inv();
        }
        match request {
            Request::Status => RequestOutcome::Respond(
                Response::Status { payload: self.status_payload() },
            ),
            Request::CurrentSession => RequestOutcome::Respond(
                Response::CurrentSession { payload: self.current_session_payload() },
            ),
            Request::CurrentTurn => RequestOutcome::Respond(
                Response::CurrentTurn { payload: self.current_turn_payload() },
            ),
            Request::ApplySteer(r) => match self.begin_apply_steer(r) {
                SteerStep::Respond(payload) => RequestOutcome::Respond(
                    Response::ApplySteer { payload },
                ),
                SteerStep::Delegate(call) => RequestOutcome::Steer(call),
            },
        }
    }

    /// A fresh state for `config` under a newly generated instance id, with
    /// its socket in `config.ipc_dir` (see [`socket_path`]).
    pub fn for_new_instance(config: ControlPlaneConfig) -> (state: Self)
        ensures
            state@.inv(),
            is_instance_id(state@.instance_id),
            state@.feature_enabled == config.feature_enabled,
            state@.consent_accepted == config.consent_accepted,
            state@.steering_enabled == config.steering_enabled,
            state@.launch_kind == config.launch_kind,
            state@.session is None,
            state@.active_turn is None,
            state@.seen_keys == Set::<(Seq<char>, Seq<char>)>::empty(),
            ends_with(state@.socket_path, socket_file_name_spec(state@.instance_id)),
            !verbatim_prefixed(config.ipc_dir@) ==> joined_onto(
                state@.socket_path,
                config.ipc_dir@,
                socket_file_name_spec(state@.instance_id),
            ),
    {
        let instance_id = new_instance_id();
        proof {
            reveal_strlit(".sock");
            let name = socket_file_name_spec(instance_id@);
            let id = instance_id@.take(SOCKET_ID_CHARS as int);
            assert(name == id + ".sock"@);
            assert forall|i: int| 0 <= i < name.len() implies #[trigger] name[i] != '/' && name[i] != '\\'
                && name[i] != ':' by {
                if i < 12 {
                    assert(name[i] == instance_id@[i]);
                    if !(i == 8) {
                        assert(is_lower_hex(instance_id@[i]));
                    }
                } else {
                    assert(name[i] == ".sock"@[i - 12]);
                }
            }
            lemma_socket_file_name_not_dots(instance_id@);
        }
        let socket_path = socket_path(config.ipc_dir.as_str(), instance_id.as_str());
        ControlPlaneState::new(config, instance_id, socket_path)
    }
}

} // verus!
