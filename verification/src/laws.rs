//! Properties of the control plane that span several operations.
use crate::state::{
    apply_change, apply_changes, session_of, status_of, steer_decision, turn_of, ControlPlaneView,
    completion_payload, rejection_payload, CurrentSessionView, CurrentTurnView, SessionView,
    StateChange, SteerDecision, SteerError,
};
use crate::protocol::{ApplySteerResult, TurnStatus};
use crate::headers::{header_name_ok, header_value_ok, headers_from, is_reserved_header};
use crate::relay::{
    backoff_after, outage_warning, outage_warnings, relay_run, relay_step, waits_over, RelayEvent,
    RelayView, next_backoff, quote_line, quoted_message, template_check, CHANNEL_PLACEHOLDER, CONTENTS_PLACEHOLDER,
    INITIAL_BACKOFF_MS, MAX_BACKOFF_MS,
};
use crate::setup::{channel_char_ok, normalized_channel_name};
use crate::text::{
    ascii_lower, ascii_lowercase, contains_seq, is_white_space, join_lines, lemma_seq_lt_irreflexive,
    lemma_split_lines_nonempty, split_lines,
    lemma_seq_lt_transitive, seq_lt, strictly_sorted, trim, trim_end, trim_start,
};
use vstd::prelude::*;

verus! {

/// A steer that got through holds its `(turn, key)` reservation; repeating
/// the request (with any text) is then answered as a duplicate.
pub proof fn law_accepted_key_is_duplicate_on_retry(
    s: ControlPlaneView,
    turn_id: Seq<char>,
    key: Seq<char>,
    text: Seq<char>,
    retry_text: Seq<char>,
)
    requires
        steer_decision(s, turn_id, key, text) is Admitted,
    ensures
        steer_decision(s.reserve(turn_id, key), turn_id, key, retry_text) == SteerDecision::Duplicate,
{
    assert(s.reserve(turn_id, key).seen_keys.contains((turn_id, key)));
}

/// A steer that got through but that the delegate did not apply leaves the
/// state as it was before the request: releasing the reservation undoes
/// taking it.
pub proof fn law_failed_steer_restores_state(
    s: ControlPlaneView,
    turn_id: Seq<char>,
    key: Seq<char>,
    text: Seq<char>,
)
    requires
        steer_decision(s, turn_id, key, text) is Admitted,
    ensures
        s.reserve(turn_id, key).release(turn_id, key) == s,
{
    assert(s.reserve(turn_id, key).release(turn_id, key).seen_keys =~= s.seen_keys);
}

/// A request only gets through for the active turn of the registered
/// session, and goes to that session's thread.
pub proof fn law_admitted_steer_targets_active_turn(
    s: ControlPlaneView,
    turn_id: Seq<char>,
    key: Seq<char>,
    text: Seq<char>,
)
    requires
        steer_decision(s, turn_id, key, text) is Admitted,
    ensures
        s.feature_enabled && s.consent_accepted && s.steering_enabled,
        s.active_turn == Some(turn_id),
        s.session is Some,
        steer_decision(s, turn_id, key, text) == (SteerDecision::Admitted {
            thread_id: s.session->0.thread_id,
        }),
        text.len() > 0,
{
}

/// Every transition keeps the invariant: all reservations are for the
/// active turn.
pub proof fn law_transitions_keep_invariant(
    s: ControlPlaneView,
    session: SessionView,
    turn_id: Seq<char>,
    finished: Option<Seq<char>>,
    key: Seq<char>,
    text: Seq<char>,
)
    requires
        s.inv(),
    ensures
        s.with_session(session).inv(),
        s.without_session().inv(),
        s.with_turn(turn_id).inv(),
        s.after_turn_finished(finished).inv(),
        s.release(turn_id, key).inv(),
        steer_decision(s, turn_id, key, text) is Admitted ==> s.reserve(turn_id, key).inv(),
{
}

/// Once a new turn starts, earlier keys are forgotten: on an enabled,
/// authorized control plane with a session, a request with non-empty text
/// for the new turn gets through whatever its key.
pub proof fn law_new_turn_forgets_keys(
    s: ControlPlaneView,
    turn_id: Seq<char>,
    key: Seq<char>,
    text: Seq<char>,
)
    requires
        s.feature_enabled,
        s.consent_accepted,
        s.steering_enabled,
        s.session is Some,
        text.len() > 0,
    ensures
        steer_decision(s.with_turn(turn_id), turn_id, key, text) is Admitted,
{
}

/// The reported turn follows the lifecycle: after a session is registered
/// and a turn starts, that turn is reported for the session's thread; when
/// the turn finishes, or the session is cleared, none is.
pub proof fn law_current_turn_follows_lifecycle(
    s: ControlPlaneView,
    session: SessionView,
    turn_id: Seq<char>,
)
    ensures
        turn_of(s.with_session(session).with_turn(turn_id)) == Some(
            CurrentTurnView {
                thread_id: session.thread_id,
                turn_id,
                status: TurnStatus::InProgress,
            },
        ),
        turn_of(s.with_session(session).with_turn(turn_id).after_turn_finished(Some(turn_id)))
            is None,
        turn_of(s.with_session(session).with_turn(turn_id).without_session()) is None,
        session_of(s.with_session(session).with_turn(turn_id).without_session()) is None,
        turn_of(s.with_session(session)) is None,
{
}

/// A notice that some other turn finished leaves the active turn and its
/// reservations alone.
pub proof fn law_other_turn_finishing_changes_nothing(s: ControlPlaneView, other: Seq<char>)
    requires
        s.active_turn != Some(other),
    ensures
        s.after_turn_finished(Some(other)) == s,
{
}


/// Whatever happens to a control plane (sessions registered and cleared,
/// turns started and finished, steering requested and answered, in any
/// order), it keeps its identity (instance id, socket path, the three
/// flags, the launch kind) and its invariant, reports a turn only together
/// with a session and always as in progress, and reports the session under
/// the launch kind it started with. Each operation of `ControlPlaneState`
/// states its effect as the matching [`StateChange`], so this holds after
/// any run of calls, as its snapshot reports.
pub proof fn law_identity_and_invariant_survive_changes(s: ControlPlaneView, changes: Seq<StateChange>)
    requires
        s.inv(),
    ensures
        apply_changes(s, changes).inv(),
        apply_changes(s, changes).instance_id == s.instance_id,
        apply_changes(s, changes).socket_path == s.socket_path,
        apply_changes(s, changes).feature_enabled == s.feature_enabled,
        apply_changes(s, changes).consent_accepted == s.consent_accepted,
        apply_changes(s, changes).steering_enabled == s.steering_enabled,
        apply_changes(s, changes).launch_kind == s.launch_kind,
        turn_of(apply_changes(s, changes)) is Some ==> session_of(apply_changes(s, changes)) is Some,
        turn_of(apply_changes(s, changes)) matches Some(t) ==> t.status == TurnStatus::InProgress,
        session_of(apply_changes(s, changes)) matches Some(x) ==> x.launch_kind == s.launch_kind,
    decreases changes.len(),
{
    if changes.len() > 0 {
        let next = apply_change(s, changes[0]);
        assert(next.inv());
        law_identity_and_invariant_survive_changes(next, changes.drop_first());
    }
}

/// A reservation blocks only its own key: a request admitted on a state is
/// still admitted once another key of the same turn has been reserved (for
/// example by an earlier steer that the delegate applied).
pub proof fn law_reservation_blocks_only_its_key(
    s: ControlPlaneView,
    turn_id: Seq<char>,
    reserved_key: Seq<char>,
    key: Seq<char>,
    text: Seq<char>,
)
    requires
        steer_decision(s, turn_id, key, text) is Admitted,
        reserved_key != key,
    ensures
        steer_decision(s.reserve(turn_id, reserved_key), turn_id, key, text) == steer_decision(
            s,
            turn_id,
            key,
            text,
        ),
{
    assert(!s.reserve(turn_id, reserved_key).seen_keys.contains((turn_id, key)));
}

/// When a steer gets through, by the request and the state's fields alone:
/// the feature is on, consent and steering are allowed, a session is
/// registered, the request names the active turn, its key is not reserved
/// for that turn, and its text is not empty; it then goes to the session's
/// thread.
pub proof fn law_when_a_steer_is_admitted(
    s: ControlPlaneView,
    turn_id: Seq<char>,
    key: Seq<char>,
    text: Seq<char>,
)
    ensures
        (steer_decision(s, turn_id, key, text) is Admitted) <==> (s.feature_enabled
            && s.consent_accepted && s.steering_enabled && s.session is Some && s.active_turn
            == Some(turn_id) && !s.seen_keys.contains((turn_id, key)) && text.len() > 0),
        steer_decision(s, turn_id, key, text) matches SteerDecision::Admitted { thread_id }
            ==> s.session matches Some(session) && thread_id == session.thread_id,
{
}

/// How a steer that does not get through is answered, check by check in
/// order: a disabled feature, then missing consent or steering permission,
/// then no session or no active turn, then a request for another turn
/// (answered with the active one), then a reserved key (answered as a
/// duplicate of the requested turn), then empty text.
pub proof fn law_rejected_steers_are_answered_in_order(
    s: ControlPlaneView,
    turn_id: Seq<char>,
    key: Seq<char>,
    text: Seq<char>,
)
    ensures
        ({
            let p = rejection_payload(steer_decision(s, turn_id, key, text), turn_id);
            &&& !s.feature_enabled ==> p.outcome == ApplySteerResult::RejectedNotEnabled
            &&& s.feature_enabled && !(s.consent_accepted && s.steering_enabled) ==> p.outcome
                == ApplySteerResult::RejectedNotAuthorized
            &&& s.feature_enabled && s.consent_accepted && s.steering_enabled && (s.session is None
                || s.active_turn is None) ==> p.outcome == ApplySteerResult::RejectedNoActiveTurn
            &&& s.feature_enabled && s.consent_accepted && s.steering_enabled && s.session is Some
                && s.active_turn is Some && s.active_turn != Some(turn_id) ==> p.outcome
                == ApplySteerResult::RejectedStaleTurn && p.actual_turn_id == s.active_turn
            &&& s.feature_enabled && s.consent_accepted && s.steering_enabled && s.session is Some
                && s.active_turn == Some(turn_id) && s.seen_keys.contains((turn_id, key))
                ==> p.outcome == ApplySteerResult::Duplicate && p.turn_id == Some(turn_id)
            &&& s.feature_enabled && s.consent_accepted && s.steering_enabled && s.session is Some
                && s.active_turn == Some(turn_id) && !s.seen_keys.contains((turn_id, key))
                && text.len() == 0 ==> p.outcome == ApplySteerResult::Error && p.message == Some(
                "text must not be empty"@,
            )
        }),
{
}

/// How the delegate's answer is reported: an applied steer with the turn
/// it applied to; a missing turn or a changed turn (with the turn now
/// active) as rejections; any other failure as an error carrying the
/// failure's message and the requested turn.
pub proof fn law_delegate_answers_are_reported(result: Result<String, SteerError>, turn_id: Seq<char>)
    ensures
        ({
            let p = completion_payload(result, turn_id);
            match result {
                Ok(applied) => p.outcome == ApplySteerResult::Applied && p.turn_id == Some(applied@),
                Err(SteerError::NoActiveTurn) => p.outcome == ApplySteerResult::RejectedNoActiveTurn,
                Err(SteerError::ExpectedTurnMismatch { actual_turn_id }) => p.outcome
                    == ApplySteerResult::RejectedStaleTurn && p.actual_turn_id == Some(
                    actual_turn_id@,
                ),
                Err(SteerError::Error(message)) => p.outcome == ApplySteerResult::Error
                    && p.message == Some(message@) && p.turn_id == Some(turn_id),
            }
        }),
{
}

/// The reported turn does not depend on reservations: taking or releasing
/// one leaves it as it was.
pub proof fn law_turn_ignores_reservations(s: ControlPlaneView, turn_id: Seq<char>, key: Seq<char>)
    ensures
        turn_of(s.reserve(turn_id, key)) == turn_of(s),
        turn_of(s.release(turn_id, key)) == turn_of(s),
{
}

/// A turn is reported exactly when a session is registered and a turn is
/// active: the session's thread, the active turn, in progress.
pub proof fn law_turn_reports_the_active_turn(s: ControlPlaneView)
    ensures
        (turn_of(s) is Some) <==> (s.session is Some && s.active_turn is Some),
        turn_of(s) matches Some(t) ==> s.session matches Some(session) && t.thread_id
            == session.thread_id && s.active_turn == Some(t.turn_id) && t.status
            == TurnStatus::InProgress,
{
}

/// A registered session is reported whatever the turn or reservations:
/// right after registration, after a turn starts or finishes, and after a
/// reservation is taken or released.
pub proof fn law_session_reported_once_registered(
    s: ControlPlaneView,
    v: SessionView,
    turn_id: Seq<char>,
    finished: Option<Seq<char>>,
    key: Seq<char>,
)
    ensures
        session_of(s.with_session(v)) == Some(
            CurrentSessionView {
                thread_id: v.thread_id,
                thread_name: v.thread_name,
                cwd: v.cwd,
                launch_kind: s.launch_kind,
            },
        ),
        session_of(s.with_turn(turn_id)) == session_of(s),
        session_of(s.after_turn_finished(finished)) == session_of(s),
        session_of(s.reserve(turn_id, key)) == session_of(s),
        session_of(s.release(turn_id, key)) == session_of(s),
        (session_of(s) is Some) <==> (s.session is Some),
        session_of(s.without_session()) is None,
{
}

/// The status tells whether a session is registered and whether a turn is
/// active, as the session and turn requests report them.
pub proof fn law_status_agrees_with_session_and_turn(s: ControlPlaneView, v: SessionView, turn_id: Seq<char>)
    ensures
        status_of(s).session_known == (s.session is Some),
        status_of(s).session_known == (session_of(s) is Some),
        status_of(s).active_turn_present == (s.active_turn is Some),
        status_of(s.with_session(v)).session_known,
        !status_of(s.with_session(v)).active_turn_present,
        status_of(s.with_session(v).with_turn(turn_id)).session_known,
        status_of(s.with_session(v).with_turn(turn_id)).active_turn_present,
        !status_of(s.without_session()).session_known,
        status_of(s).instance_id == s.instance_id && status_of(s).socket_path == s.socket_path,
        status_of(s).launch_kind == s.launch_kind,
        status_of(s).feature_enabled == s.feature_enabled && status_of(s).consent_accepted
            == s.consent_accepted && status_of(s).steering_enabled == s.steering_enabled,
{
}

/// A channel name already made of lowercase letters, digits, `.`, `_` and
/// `-` is accepted as it is; and every accepted name is made of those.
pub proof fn law_channel_names_of_allowed_characters(name: Seq<char>, input: Seq<char>)
    ensures
        name.len() > 0 && (forall|i: int|
            0 <= i < name.len() ==> {
                let c = #[trigger] name[i];
                ('a' <= c && c <= 'z') || ('0' <= c && c <= '9') || c == '.' || c == '_' || c
                    == '-'
            }) ==> normalized_channel_name(name) == Ok::<Seq<char>, Seq<char>>(name),
        normalized_channel_name(input) matches Ok(n) ==> n.len() > 0 && forall|i: int|
            0 <= i < n.len() ==> {
                let c = #[trigger] n[i];
                ('a' <= c && c <= 'z') || ('0' <= c && c <= '9') || c == '.' || c == '_' || c
                    == '-'
            },
{
    if name.len() > 0 && (forall|i: int|
        0 <= i < name.len() ==> {
            let c = #[trigger] name[i];
            ('a' <= c && c <= 'z') || ('0' <= c && c <= '9') || c == '.' || c == '_' || c == '-'
        }) {
        assert forall|i: int| 0 <= i < name.len() implies !is_white_space(#[trigger] name[i])
            && ascii_lower(name[i]) == name[i] && channel_char_ok(name[i]) by {
            let c = name[i];
            assert(('a' <= c && c <= 'z') || ('0' <= c && c <= '9') || c == '.' || c == '_' || c == '-');
        }
        lemma_trim_keeps(name);
        assert(ascii_lowercase(trim(name)) =~= name);
    }
    if normalized_channel_name(input) is Ok {
        let n = normalized_channel_name(input)->Ok_0;
        assert forall|i: int| 0 <= i < n.len() implies {
            let c = #[trigger] n[i];
            ('a' <= c && c <= 'z') || ('0' <= c && c <= '9') || c == '.' || c == '_' || c == '-'
        } by {
            assert(channel_char_ok(n[i]));
        }
    }
}

/// A normalized channel name normalizes to itself.
pub proof fn law_normalized_channel_name_is_stable(input: Seq<char>)
    requires
        normalized_channel_name(input) is Ok,
    ensures
        normalized_channel_name(normalized_channel_name(input)->Ok_0) == normalized_channel_name(input),
{
    let n = normalized_channel_name(input)->Ok_0;
    assert forall|i: int| 0 <= i < n.len() implies !is_white_space(#[trigger] n[i]) && ascii_lower(n[i]) == n[i] by {
        assert(channel_char_ok(n[i]));
    }
    lemma_trim_keeps(n);
    assert(ascii_lowercase(trim(n)) =~= n);
}

proof fn lemma_trim_keeps(n: Seq<char>)
    requires
        n.len() > 0,
        forall|i: int| 0 <= i < n.len() ==> !is_white_space(#[trigger] n[i]),
    ensures
        trim(n) == n,
{
    assert(trim_start(n) == n);
    assert(trim_end(n) == n);
}

/// Two strictly sorted lists with the same elements are the same list:
/// the merged channel list depends only on the set of channels, not on
/// how they were given.
pub proof fn law_sorted_lists_with_equal_sets_are_equal(v: Seq<Seq<char>>, w: Seq<Seq<char>>)
    requires
        strictly_sorted(v),
        strictly_sorted(w),
        v.to_set() == w.to_set(),
    ensures
        v == w,
    decreases v.len() + w.len(),
{
    if v.len() == 0 && w.len() == 0 {
        assert(v =~= w);
    } else if v.len() == 0 {
        assert(w.to_set().contains(w[0]));
        assert(v.to_set().contains(w[0]));
    } else if w.len() == 0 {
        assert(v.to_set().contains(v[0]));
        assert(w.to_set().contains(v[0]));
    } else {
        assert(w.to_set().contains(v[0]));
        let k = choose|k: int| 0 <= k < w.len() && w[k] == v[0];
        assert(v.to_set().contains(w[0]));
        let m = choose|m: int| 0 <= m < v.len() && v[m] == w[0];
        if k > 0 {
            assert(seq_lt(w[0], w[k]));
            if m == 0 {
                lemma_seq_lt_irreflexive(v[0]);
            } else {
                assert(seq_lt(v[0], v[m]));
                lemma_seq_lt_transitive(v[0], v[m], v[0]);
                lemma_seq_lt_irreflexive(v[0]);
            }
        }
        assert(v[0] == w[0]);
        let v1 = v.drop_first();
        let w1 = w.drop_first();
        assert forall|x: Seq<char>| #[trigger] v1.to_set().contains(x) == w1.to_set().contains(x) by {
            if v1.contains(x) {
                let i = choose|i: int| 0 <= i < v1.len() && v1[i] == x;
                assert(seq_lt(v[0], v[i + 1]));
                assert(v.to_set().contains(x));
                let j = choose|j: int| 0 <= j < w.len() && w[j] == x;
                if j == 0 {
                    lemma_seq_lt_irreflexive(v[0]);
                }
                assert(w1[j - 1] == x);
            }
            if w1.contains(x) {
                let i = choose|i: int| 0 <= i < w1.len() && w1[i] == x;
                assert(seq_lt(w[0], w[i + 1]));
                assert(w.to_set().contains(x));
                let j = choose|j: int| 0 <= j < v.len() && v[j] == x;
                if j == 0 {
                    lemma_seq_lt_irreflexive(w[0]);
                }
                assert(v1[j - 1] == x);
            }
        }
        assert(v1.to_set() =~= w1.to_set());
        law_sorted_lists_with_equal_sets_are_equal(v1, w1);
        assert(v =~= seq![v[0]] + v1);
        assert(w =~= seq![w[0]] + w1);
    }
}

/// A strictly sorted list holds each element once.
pub proof fn law_sorted_list_has_no_duplicates(v: Seq<Seq<char>>)
    requires
        strictly_sorted(v),
    ensures
        v.no_duplicates(),
{
    assert forall|i: int, j: int| 0 <= i < v.len() && 0 <= j < v.len() && i != j implies v[i] != v[j] by {
        if i < j {
            assert(seq_lt(v[i], v[j]));
            if v[i] == v[j] {
                lemma_seq_lt_irreflexive(v[i]);
            }
        } else {
            assert(seq_lt(v[j], v[i]));
            if v[i] == v[j] {
                lemma_seq_lt_irreflexive(v[i]);
            }
        }
    }
}

/// Headers built from configuration never set a reserved header
/// (`authorization`, `content-type`, `host`), whatever the entries.
pub proof fn law_configured_headers_never_reserved(
    entries: Seq<(Seq<char>, Seq<char>)>,
    acc: Map<Seq<char>, Seq<char>>,
)
    requires
        forall|n: Seq<char>| #[trigger] acc.contains_key(n) ==> !is_reserved_header(n),
    ensures
        headers_from(entries, acc) matches Ok(m) ==> forall|n: Seq<char>|
            #[trigger] m.contains_key(n) ==> !is_reserved_header(n),
    decreases entries.len(),
{
    if entries.len() > 0 {
        let (name, value) = entries[0];
        if header_name_ok(name) {
            let c = ascii_lowercase(name);
            if !is_reserved_header(c) && header_value_ok(value) {
                law_configured_headers_never_reserved(entries.drop_first(), acc.insert(c, value));
            }
        }
    }
}

/// A template that resolves holds both placeholders.
pub proof fn law_resolved_template_has_placeholders(t: Seq<char>)
    requires
        template_check(t) is Ok,
    ensures
        contains_seq(t, CHANNEL_PLACEHOLDER@),
        contains_seq(t, CONTENTS_PLACEHOLDER@),
{
}

/// The reconnect wait stays between its first value and its cap, never
/// shrinks while retrying, and reaches the cap.
pub proof fn law_backoff_bounded_and_growing(backoff_ms: u64)
    requires
        INITIAL_BACKOFF_MS <= backoff_ms <= MAX_BACKOFF_MS,
    ensures
        INITIAL_BACKOFF_MS <= next_backoff(backoff_ms) <= MAX_BACKOFF_MS,
        backoff_ms <= next_backoff(backoff_ms),
        backoff_ms < MAX_BACKOFF_MS ==> backoff_ms < next_backoff(backoff_ms),
        next_backoff(next_backoff(next_backoff(next_backoff(next_backoff(INITIAL_BACKOFF_MS)))))
            == MAX_BACKOFF_MS,
{
}


/// The first wait doubled `k` times, with no cap.
pub open spec fn doubled_backoff(k: nat) -> int
    decreases k,
{
    if k == 0 {
        INITIAL_BACKOFF_MS as int
    } else {
        2 * doubled_backoff((k - 1) as nat)
    }
}

/// The wait after `k` earlier waits is `min(250 * 2^k, 5000)` milliseconds.
pub proof fn law_backoff_closed_form(k: nat)
    ensures
        backoff_after(k) == if doubled_backoff(k) <= MAX_BACKOFF_MS {
            doubled_backoff(k)
        } else {
            MAX_BACKOFF_MS as int
        },
    decreases k,
{
    if k > 0 {
        law_backoff_closed_form((k - 1) as nat);
    }
}

/// Between connections the wait only grows by the waits that ended: after
/// `j` earlier waits, a run of events without a connection leaves the wait
/// for the `j + n`-th, where `n` waits ended in the run.
pub proof fn law_backoff_follows_waits(v: RelayView, j: nat, events: Seq<RelayEvent>)
    requires
        v.backoff_ms == backoff_after(j),
        forall|i: int| 0 <= i < events.len() ==> !(#[trigger] events[i] is Connected),
    ensures
        relay_run(v, events).backoff_ms == backoff_after(j + waits_over(events)),
    decreases events.len(),
{
    if events.len() > 0 {
        let e = events[0];
        let next = relay_step(v, e);
        let rest = events.drop_first();
        assert forall|i: int| 0 <= i < rest.len() implies !(#[trigger] rest[i] is Connected) by {
            assert(rest[i] == events[i + 1]);
        }
        if e is Retried || e is HelloFailed {
            assert(backoff_after(j + 1) == next_backoff(backoff_after(j)));
            law_backoff_follows_waits(next, j + 1, rest);
        } else {
            law_backoff_follows_waits(next, j, rest);
        }
    }
}

/// A connection resets the wait: after it, and `k` ended waits without
/// another connection, the wait is `min(250 * 2^k, 5000)` milliseconds.
pub proof fn law_wait_after_connection(v: RelayView, events: Seq<RelayEvent>)
    requires
        forall|i: int| 0 <= i < events.len() ==> !(#[trigger] events[i] is Connected),
    ensures
        relay_run(relay_step(v, RelayEvent::Connected), events).backoff_ms == backoff_after(
            waits_over(events),
        ),
        relay_run(relay_step(v, RelayEvent::Connected), events).backoff_ms == if doubled_backoff(
            waits_over(events),
        ) <= MAX_BACKOFF_MS {
            doubled_backoff(waits_over(events))
        } else {
            MAX_BACKOFF_MS as int
        },
{
    law_backoff_follows_waits(relay_step(v, RelayEvent::Connected), 0, events);
    law_backoff_closed_form(waits_over(events));
}

/// Between two connections the relay warns about the outage at most once:
/// a run of events without a connection makes no outage warning once one
/// was sent, and at most one otherwise; right after a connection, at most
/// one.
pub proof fn law_one_outage_warning_between_connections(v: RelayView, events: Seq<RelayEvent>)
    requires
        forall|i: int| 0 <= i < events.len() ==> !(#[trigger] events[i] is Connected),
    ensures
        outage_warnings(v, events) <= if v.warning_sent {
            0nat
        } else {
            1nat
        },
        v.warning_sent ==> relay_run(v, events).warning_sent,
        outage_warnings(relay_step(v, RelayEvent::Connected), events) <= 1,
    decreases events.len(),
{
    if events.len() > 0 {
        let e = events[0];
        let next = relay_step(v, e);
        let rest = events.drop_first();
        assert forall|i: int| 0 <= i < rest.len() implies !(#[trigger] rest[i] is Connected) by {
            assert(rest[i] == events[i + 1]);
        }
        law_one_outage_warning_between_connections(next, rest);
        if outage_warning(v, e) {
            assert(next.warning_sent);
        }
    }
    let connected = relay_step(v, RelayEvent::Connected);
    if events.len() > 0 {
        let rest = events.drop_first();
        assert forall|i: int| 0 <= i < rest.len() implies !(#[trigger] rest[i] is Connected) by {
            assert(rest[i] == events[i + 1]);
        }
        law_one_outage_warning_between_connections(relay_step(connected, events[0]), rest);
    }
}

/// `s` holds no line break.
pub open spec fn single_line(s: Seq<char>) -> bool {
    forall|i: int| 0 <= i < s.len() ==> s[i] != '\n'
}

proof fn lemma_split_lines_single(s: Seq<char>)
    ensures
        forall|k: int| 0 <= k < split_lines(s).len() ==> single_line(#[trigger] split_lines(s)[k]),
    decreases s.len(),
{
    lemma_split_lines_nonempty(s);
    if s.len() > 0 {
        lemma_split_lines_single(s.drop_last());
        lemma_split_lines_nonempty(s.drop_last());
        let prev = split_lines(s.drop_last());
        if s.last() != '\n' {
            assert forall|k: int| 0 <= k < split_lines(s).len() implies single_line(#[trigger] split_lines(s)[k]) by {
                if k == prev.len() - 1 {
                    assert(single_line(prev[k]));
                    assert forall|i: int| 0 <= i < split_lines(s)[k].len() implies split_lines(s)[k][i] != '\n' by {
                        if i < prev[k].len() {
                            assert(split_lines(s)[k][i] == prev[k][i]);
                        }
                    }
                } else {
                    assert(split_lines(s)[k] == prev[k]);
                }
            }
        } else {
            assert forall|k: int| 0 <= k < split_lines(s).len() implies single_line(#[trigger] split_lines(s)[k]) by {
                if k < prev.len() {
                    assert(split_lines(s)[k] == prev[k]);
                }
            }
        }
    }
}

proof fn lemma_split_lines_append_single(x: Seq<char>, b: Seq<char>)
    requires
        single_line(b),
    ensures
        split_lines(x + b) == split_lines(x).update(
            split_lines(x).len() - 1,
            split_lines(x).last() + b,
        ),
    decreases b.len(),
{
    lemma_split_lines_nonempty(x);
    if b.len() == 0 {
        assert(x + b =~= x);
        assert(split_lines(x).last() + b =~= split_lines(x).last());
        assert(split_lines(x).update(split_lines(x).len() - 1, split_lines(x).last()) =~= split_lines(x));
    } else {
        let b1 = b.drop_last();
        lemma_split_lines_append_single(x, b1);
        assert((x + b).drop_last() =~= x + b1);
        assert((x + b).last() == b.last());
        assert(b.last() != '\n');
        let prev = split_lines(x + b1);
        lemma_split_lines_nonempty(x + b1);
        assert(prev.last() == split_lines(x).last() + b1);
        assert(prev.last().push(b.last()) =~= split_lines(x).last() + b);
        assert(split_lines(x + b) =~= split_lines(x).update(
            split_lines(x).len() - 1,
            split_lines(x).last() + b,
        ));
    }
}

proof fn lemma_split_join(ls: Seq<Seq<char>>)
    requires
        ls.len() >= 1,
        forall|k: int| 0 <= k < ls.len() ==> single_line(#[trigger] ls[k]),
    ensures
        split_lines(join_lines(ls)) == ls,
    decreases ls.len(),
{
    if ls.len() == 1 {
        lemma_split_lines_append_single(Seq::<char>::empty(), ls[0]);
        assert(Seq::<char>::empty() + ls[0] =~= ls[0]);
        assert(split_lines(ls[0]) =~= ls);
    } else {
        let dl = ls.drop_last();
        assert forall|k: int| 0 <= k < dl.len() implies single_line(#[trigger] dl[k]) by {
            assert(dl[k] == ls[k]);
        }
        lemma_split_join(dl);
        let head = join_lines(dl) + seq!['\n'];
        assert(head.drop_last() =~= join_lines(dl));
        assert(split_lines(head) == dl.push(Seq::<char>::empty()));
        assert(single_line(ls.last()));
        lemma_split_lines_append_single(head, ls.last());
        assert(join_lines(ls) =~= head + ls.last());
        assert(Seq::<char>::empty() + ls.last() =~= ls.last());
        assert(split_lines(join_lines(ls)) =~= ls);
    }
}

/// Quoting keeps the message's lines: the quoted text has exactly one line
/// per line of the message, each the quoted form of that line.
pub proof fn law_quoting_keeps_lines(text: Seq<char>)
    ensures
        split_lines(quoted_message(text)) == split_lines(text).map_values(|l: Seq<char>| quote_line(l)),
{
    let lines = split_lines(text);
    let quoted = lines.map_values(|l: Seq<char>| quote_line(l));
    lemma_split_lines_nonempty(text);
    lemma_split_lines_single(text);
    assert forall|k: int| 0 <= k < quoted.len() implies single_line(#[trigger] quoted[k]) by {
        assert(single_line(lines[k]));
        let q = quote_line(lines[k]);
        assert forall|i: int| 0 <= i < q.len() implies q[i] != '\n' by {
            if lines[k].len() > 0 && i >= 2 {
                assert(q[i] == lines[k][i - 2]);
            }
        }
    }
    lemma_split_join(quoted);
}
} // verus!
