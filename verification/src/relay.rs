//! The channel relay: the steering text that a channel message becomes,
//! the template it is written with, the receipt sent back for a message,
//! and the reconnect policy of the relay's connection.
use crate::text::{
    chars_of, contains_exec, contains_seq, join_lines, occurs_at, occurs_at_exec,
    replace_all, replace_all_exec, split_lines, str_equal, strings_view, string_from_chars, string_from_range,
    lemma_split_lines_nonempty,
};
use crate::protocol::{
    opt_view, ApplySteerPayload, ApplySteerPayloadView, ApplySteerRequest, ApplySteerResult,
    CurrentTurnPayload,
};
use vstd::prelude::*;

verus! {

/// The placeholder for the channel's name.
pub const CHANNEL_PLACEHOLDER: &'static str = "{channel}";

/// The placeholder for the message's contents.
pub const CONTENTS_PLACEHOLDER: &'static str = "{contents}";

/// The template used when none is configured.
pub const DEFAULT_CHANNEL_STEER_MESSAGE_TEMPLATE: &'static str = "You have received a message from another Codex instance in the channel #{channel}. Please continue working after reading this message. You do not need to stop.\n\nContents of the message:\n{contents}";

/// The first `'}'` in `t` at or after `j`.
pub open spec fn first_close_from(t: Seq<char>, j: int) -> Option<int>
    decreases t.len() - j,
{
    if j < 0 || j >= t.len() {
        None
    } else if t[j] == '}' {
        Some(j)
    } else {
        first_close_from(t, j + 1)
    }
}

pub proof fn lemma_first_close_from(t: Seq<char>, j: int)
    requires
        0 <= j,
    ensures
        match first_close_from(t, j) {
            Some(k) => j <= k < t.len() && t[k] == '}' && forall|m: int| j <= m < k ==> t[m] != '}',
            None => forall|m: int| j <= m < t.len() ==> t[m] != '}',
        },
    decreases t.len() - j,
{
    if j < t.len() && t[j] != '}' {
        lemma_first_close_from(t, j + 1);
    }
}

/// The error for a placeholder that no `'}'` closes.
pub open spec fn unterminated_message() -> Seq<char> {
    "unterminated placeholder in steer_message_template"@
}

/// The error for a `'}'` that closes nothing.
pub open spec fn unmatched_message() -> Seq<char> {
    "unmatched `}` in steer_message_template"@
}

/// The error for a placeholder other than the two known ones.
pub open spec fn unsupported_message(placeholder: Seq<char>) -> Seq<char> {
    "unsupported placeholder `"@ + placeholder + "` in steer_message_template"@
}

/// The error for a placeholder that the template lacks.
pub open spec fn missing_message(placeholder: Seq<char>) -> Seq<char> {
    "missing required placeholder `"@ + placeholder + "`"@
}

/// Reads the template from position `i` on: each `'{'` opens a placeholder
/// that runs to the next `'}'` and must be one of the two known ones; a
/// `'}'` outside a placeholder, an unclosed `'{'` or an unknown placeholder
/// is the error, the first one met from the left.
pub open spec fn scan_template(t: Seq<char>, i: int) -> Result<(), Seq<char>>
    decreases t.len() - i,
{
    if i < 0 || i >= t.len() {
        Ok(())
    } else if t[i] == '{' {
        match first_close_from(t, i + 1) {
            None => Err(unterminated_message()),
            Some(end) => {
                let placeholder = t.subrange(i, end + 1);
                if placeholder != CHANNEL_PLACEHOLDER@ && placeholder != CONTENTS_PLACEHOLDER@ {
                    Err(unsupported_message(placeholder))
                } else {
                    proof {
                        lemma_first_close_from(t, i + 1);
                    }
                    scan_template(t, end + 1)
                }
            },
        }
    } else if t[i] == '}' {
        Err(unmatched_message())
    } else {
        scan_template(t, i + 1)
    }
}

/// Whether a template is usable, and the error if not: it must contain
/// `{channel}`, then `{contents}`, then read cleanly (see
/// [`scan_template`]).
pub open spec fn template_check(t: Seq<char>) -> Result<(), Seq<char>> {
    if !contains_seq(t, CHANNEL_PLACEHOLDER@) {
        Err(missing_message(CHANNEL_PLACEHOLDER@))
    } else if !contains_seq(t, CONTENTS_PLACEHOLDER@) {
        Err(missing_message(CONTENTS_PLACEHOLDER@))
    } else {
        scan_template(t, 0)
    }
}

/// Checks a steering-message template (see [`template_check`]).
pub fn validate_channel_steer_message_template(template: &str) -> (r: Result<(), String>)
    ensures
        match (r, template_check(template@)) {
            (Ok(()), Ok(())) => true,
            (Err(e), Err(m)) => e@ == m,
            _ => false,
        },
{
    let t = chars_of(template);
    let channel = chars_of(CHANNEL_PLACEHOLDER);
    let contents = chars_of(CONTENTS_PLACEHOLDER);
    if !contains_exec(&t, &channel) {
        let mut e = "missing required placeholder `".to_string();
        e.append(CHANNEL_PLACEHOLDER);
        e.append("`");
        return Err(e);
    }
    if !contains_exec(&t, &contents) {
        let mut e = "missing required placeholder `".to_string();
        e.append(CONTENTS_PLACEHOLDER);
        e.append("`");
        return Err(e);
    }
    let n = t.len();
    let mut index: usize = 0;
    while index < n
        invariant
            n == t@.len(),
            index <= n,
            channel@ == CHANNEL_PLACEHOLDER@,
            contents@ == CONTENTS_PLACEHOLDER@,
            scan_template(t@, 0) == scan_template(t@, index as int),
            t@ == template@,
            contains_seq(t@, CHANNEL_PLACEHOLDER@),
            contains_seq(t@, CONTENTS_PLACEHOLDER@),
        decreases n - index,
    {
        if t[index] == '{' {
            let mut end = index + 1;
            while end < n && t[end] != '}'
                invariant
                    index < n == t@.len(),
                    index + 1 <= end <= n,
                    first_close_from(t@, index + 1) == first_close_from(t@, end as int),
                decreases n - end,
            {
                end += 1;
            }
            if end == n {
                assert(first_close_from(t@, n as int) is None);
                assert(scan_template(t@, index as int) == Err::<(), Seq<char>>(unterminated_message()));
                return Err("unterminated placeholder in steer_message_template".to_string());
            }
            proof {
                lemma_first_close_from(t@, index + 1);
            }
            let is_channel = end + 1 - index == channel.len() && occurs_at_exec(&t, &channel, index);
            let is_contents = end + 1 - index == contents.len() && occurs_at_exec(&t, &contents, index);
            proof {
                let p = t@.subrange(index as int, end + 1);
                if p == CHANNEL_PLACEHOLDER@ {
                    assert(occurs_at(t@, channel@, index as int));
                }
                if p == CONTENTS_PLACEHOLDER@ {
                    assert(occurs_at(t@, contents@, index as int));
                }
            }
            if !is_channel && !is_contents {
                let mut e = "unsupported placeholder `".to_string();
                let placeholder = string_from_range(&t, index, end + 1);
                e.append(placeholder.as_str());
                e.append("` in steer_message_template");
                return Err(e);
            }
            index = end + 1;
        } else if t[index] == '}' {
            assert(scan_template(t@, index as int) == Err::<(), Seq<char>>(unmatched_message()));
            return Err("unmatched `}` in steer_message_template".to_string());
        } else {
            index += 1;
        }
    }
    Ok(())
}

/// The template to use: the configured one, or the default when none is
/// configured, provided it passes [`template_check`]; otherwise the error.
pub fn resolve_channel_steer_message_template(template: Option<&str>) -> (r: Result<String, String>)
    ensures
        ({
            let t = match template {
                Some(t) => t@,
                None => DEFAULT_CHANNEL_STEER_MESSAGE_TEMPLATE@,
            };
            match (r, template_check(t)) {
                (Ok(s), Ok(())) => s@ == t,
                (Err(e), Err(m)) => e@ == m,
                _ => false,
            }
        }),
{
    let template = match template {
        Some(t) => t,
        None => DEFAULT_CHANNEL_STEER_MESSAGE_TEMPLATE,
    };
    match validate_channel_steer_message_template(template) {
        Ok(()) => Ok(template.to_string()),
        Err(e) => Err(e),
    }
}

/// A line of the message as quoted in the steering text: `>` for an empty
/// line, `> ` and the line otherwise.
pub open spec fn quote_line(line: Seq<char>) -> Seq<char> {
    if line.len() == 0 {
        seq!['>']
    } else {
        seq!['>', ' '] + line
    }
}

/// The message quoted line by line (lines split at `'\n'`, rejoined with
/// `'\n'`).
pub open spec fn quoted_message(text: Seq<char>) -> Seq<char> {
    join_lines(split_lines(text).map_values(|l: Seq<char>| quote_line(l)))
}

/// The steering text for a channel message: the template with
/// `{channel}` replaced by the channel's name, then `{contents}` replaced by
/// the quoted message.
pub open spec fn steer_message(template: Seq<char>, channel: Seq<char>, text: Seq<char>) -> Seq<char> {
    replace_all(
        replace_all(template, CHANNEL_PLACEHOLDER@, channel),
        CONTENTS_PLACEHOLDER@,
        quoted_message(text),
    )
}

spec fn lines_view(lines: Seq<Vec<char>>) -> Seq<Seq<char>> {
    lines.map_values(|l: Vec<char>| l@)
}

/// The lines of `text`.
fn split_text_lines(text: &Vec<char>) -> (lines: Vec<Vec<char>>)
    ensures
        lines_view(lines@) == split_lines(text@),
{
    let mut lines: Vec<Vec<char>> = Vec::new();
    lines.push(Vec::new());
    assert(text@.take(0) =~= Seq::<char>::empty());
    assert(lines_view(lines@) =~= split_lines(text@.take(0)));
    let mut i: usize = 0;
    while i < text.len()
        invariant
            i <= text@.len(),
            lines_view(lines@) == split_lines(text@.take(i as int)),
            lines@.len() >= 1,
        decreases text.len() - i,
    {
        let c = text[i];
        let ghost prefix = text@.take(i + 1);
        assert(prefix.drop_last() =~= text@.take(i as int));
        assert(prefix.last() == c);
        proof {
            lemma_split_lines_nonempty(text@.take(i as int));
        }
        if c == '\n' {
            lines.push(Vec::new());
            assert(lines_view(lines@) =~= split_lines(prefix));
        } else {
            let mut last = lines.pop().unwrap();
            last.push(c);
            lines.push(last);
            assert(lines_view(lines@) =~= split_lines(prefix));
        }
        i += 1;
    }
    assert(text@.take(text@.len() as int) =~= text@);
    lines
}

/// The message quoted line by line.
pub fn quote_message(text: &str) -> (quoted: Vec<char>)
    ensures
        quoted@ == quoted_message(text@),
{
    let chars = chars_of(text);
    let lines = split_text_lines(&chars);
    let ghost quoted_lines = split_lines(text@).map_values(|l: Seq<char>| quote_line(l));
    let mut out: Vec<char> = Vec::new();
    let mut k: usize = 0;
    assert(quoted_lines.take(0) =~= Seq::<Seq<char>>::empty());
    while k < lines.len()
        invariant
            k <= lines@.len(),
            lines_view(lines@) == split_lines(text@),
            quoted_lines == split_lines(text@).map_values(|l: Seq<char>| quote_line(l)),
            out@ == join_lines(quoted_lines.take(k as int)),
        decreases lines.len() - k,
    {
        let ghost before = out@;
        if k > 0 {
            out.push('\n');
        }
        let line = &lines[k];
        assert(line@ == split_lines(text@)[k as int]);
        if line.len() == 0 {
            out.push('>');
        } else {
            out.push('>');
            out.push(' ');
            let mut m: usize = 0;
            let ghost mid = out@;
            while m < line.len()
                invariant
                    m <= line@.len(),
                    out@ == mid + line@.take(m as int),
                decreases line.len() - m,
            {
                out.push(line[m]);
                assert(line@.take(m + 1) =~= line@.take(m as int).push(line@[m as int]));
                m += 1;
            }
            assert(line@.take(line@.len() as int) =~= line@);
        }
        let ghost next = quoted_lines.take(k + 1);
        assert(next.drop_last() =~= quoted_lines.take(k as int));
        assert(next.last() == quote_line(line@));
        if k == 0 {
            assert(next =~= seq![quote_line(line@)]);
        }
        assert(out@ =~= join_lines(next));
        k += 1;
    }
    assert(quoted_lines.take(lines@.len() as int) =~= quoted_lines);
    out
}

/// The steering text for a message `text` posted to `channel` (see
/// [`steer_message`]).
pub fn format_channel_steer_message(template: &str, channel: &str, text: &str) -> (message: String)
    ensures
        message@ == steer_message(template@, channel@, text@),
{
    proof {
        reveal_strlit("{channel}");
        reveal_strlit("{contents}");
    }
    let t = chars_of(template);
    let channel_chars = chars_of(channel);
    let channel_placeholder = chars_of(CHANNEL_PLACEHOLDER);
    let contents_placeholder = chars_of(CONTENTS_PLACEHOLDER);
    let quoted = quote_message(text);
    let with_channel = replace_all_exec(&t, &channel_placeholder, &channel_chars);
    let full = replace_all_exec(&with_channel, &contents_placeholder, &quoted);
    string_from_chars(&full)
}


/// The receipt sent back for a channel message.
#[derive(Debug, Clone, PartialEq, Eq)]
pub struct MessageResult {
    /// Always `message_result`.
    pub kind: String,
    pub message_id: String,
    /// `steered`, `skipped_no_active_turn`, `skipped_stale_turn` or `error`.
    pub outcome: String,
    pub turn_id: Option<String>,
    pub detail: Option<String>,
}

/// The mathematical content of a [`MessageResult`].
pub struct MessageResultView {
    pub kind: Seq<char>,
    pub message_id: Seq<char>,
    pub outcome: Seq<char>,
    pub turn_id: Option<Seq<char>>,
    pub detail: Option<Seq<char>>,
}

impl View for MessageResult {
    type V = MessageResultView;

    open spec fn view(&self) -> MessageResultView {
        MessageResultView {
            kind: self.kind@,
            message_id: self.message_id@,
            outcome: self.outcome@,
            turn_id: opt_view(self.turn_id),
            detail: opt_view(self.detail),
        }
    }
}

/// A receipt for `message_id`.
pub open spec fn receipt(
    message_id: Seq<char>,
    outcome: Seq<char>,
    turn_id: Option<Seq<char>>,
    detail: Option<Seq<char>>,
) -> MessageResultView {
    MessageResultView { kind: "message_result"@, message_id, outcome, turn_id, detail }
}

/// The receipt for a message that steered the turn `turn_id`, or tried to,
/// and got `payload` back: applied and duplicate steers count as steered
/// (on the turn the payload names, else `turn_id`); a missing turn and a
/// stale one are skips; anything else is an error with the payload's
/// message.
pub open spec fn receipt_for_payload(
    message_id: Seq<char>,
    turn_id: Seq<char>,
    payload: ApplySteerPayloadView,
) -> MessageResultView {
    match payload.outcome {
        ApplySteerResult::Applied | ApplySteerResult::Duplicate => receipt(
            message_id,
            "steered"@,
            match payload.turn_id {
                Some(t) => Some(t),
                None => Some(turn_id),
            },
            None,
        ),
        ApplySteerResult::RejectedNoActiveTurn => receipt(
            message_id,
            "skipped_no_active_turn"@,
            None,
            None,
        ),
        ApplySteerResult::RejectedStaleTurn => receipt(
            message_id,
            "skipped_stale_turn"@,
            payload.actual_turn_id,
            payload.message,
        ),
        _ => receipt(message_id, "error"@, None, payload.message),
    }
}

/// What to do with a channel message.
#[derive(Debug)]
pub enum ReceiptStep {
    /// Answer with this receipt now.
    Done(MessageResult),
    /// Steer with `request`; the turn it was written for is `turn_id`. The
    /// answer goes to [`finish_receipt`].
    Steer { request: ApplySteerRequest, turn_id: String },
}

/// Plans the handling of channel message `message_id` with `text`, posted
/// to `channel`, given the current turn: without one the message is
/// skipped; with one it becomes a steering request for that turn whose
/// text is [`steer_message`] and whose idempotency key is the message id.
pub fn plan_receipt(
    current_turn: Option<CurrentTurnPayload>,
    template: &str,
    message_id: &str,
    channel: &str,
    text: &str,
    metadata: Option<serde_json::Value>,
) -> (step: ReceiptStep)
    ensures
        match current_turn {
            None => step matches ReceiptStep::Done(r) && r@ == receipt(
                message_id@,
                "skipped_no_active_turn"@,
                None,
                None,
            ),
            Some(turn) => step matches ReceiptStep::Steer { request, turn_id } && turn_id@
                == turn.turn_id@ && request.expected_turn_id@ == turn.turn_id@ && request.text@
                == steer_message(template@, channel@, text@) && request.idempotency_key@
                == message_id@ && request.metadata == metadata,
        },
{
    match current_turn {
        None => ReceiptStep::Done(
            MessageResult {
                kind: "message_result".to_string(),
                message_id: message_id.to_string(),
                outcome: "skipped_no_active_turn".to_string(),
                turn_id: None,
                detail: None,
            },
        ),
        Some(turn) => {
            let steer_text = format_channel_steer_message(template, channel, text);
            let request = ApplySteerRequest {
                expected_turn_id: turn.turn_id.clone(),
                text: steer_text,
                idempotency_key: message_id.to_string(),
                metadata,
            };
            ReceiptStep::Steer { request, turn_id: turn.turn_id }
        },
    }
}

/// The receipt for message `message_id`, steered for turn `turn_id`, once
/// the control plane answered `payload` (see [`receipt_for_payload`]).
pub fn finish_receipt(message_id: &str, turn_id: String, payload: ApplySteerPayload) -> (result: MessageResult)
    ensures
        result@ == receipt_for_payload(message_id@, turn_id@, payload@),
{
    let (outcome, receipt_turn, detail) = match payload.outcome {
        ApplySteerResult::Applied | ApplySteerResult::Duplicate => {
            let t = match payload.turn_id {
                Some(t) => t,
                None => turn_id,
            };
            ("steered".to_string(), Some(t), None)
        },
        ApplySteerResult::RejectedNoActiveTurn => (
            "skipped_no_active_turn".to_string(),
            None,
            None,
        ),
        ApplySteerResult::RejectedStaleTurn => (
            "skipped_stale_turn".to_string(),
            payload.actual_turn_id,
            payload.message,
        ),
        _ => ("error".to_string(), None, payload.message),
    };
    MessageResult {
        kind: "message_result".to_string(),
        message_id: message_id.to_string(),
        outcome,
        turn_id: receipt_turn,
        detail,
    }
}

/// The warning when the relay cannot start: the template is invalid.
pub fn relay_start(template: Option<&str>) -> (r: Result<String, String>)
    ensures
        ({
            let t = match template {
                Some(t) => t@,
                None => DEFAULT_CHANNEL_STEER_MESSAGE_TEMPLATE@,
            };
            match (r, template_check(t)) {
                (Ok(s), Ok(())) => s@ == t,
                (Err(w), Err(m)) => w@
                    == "channel wrapper disabled because control_plane.steer_message_template is invalid: "@
                    + m,
                _ => false,
            }
        }),
{
    match resolve_channel_steer_message_template(template) {
        Ok(t) => Ok(t),
        Err(e) => {
            let mut w =
                "channel wrapper disabled because control_plane.steer_message_template is invalid: ".to_string();
            w.append(e.as_str());
            Err(w)
        },
    }
}

/// The first wait before reconnecting, in milliseconds.
pub const INITIAL_BACKOFF_MS: u64 = 250;

/// The longest wait before reconnecting, in milliseconds.
pub const MAX_BACKOFF_MS: u64 = 5000;

/// The wait after `backoff_ms`: doubled, at most [`MAX_BACKOFF_MS`].
pub open spec fn next_backoff(backoff_ms: u64) -> u64 {
    if 2 * backoff_ms <= MAX_BACKOFF_MS {
        (2 * backoff_ms) as u64
    } else {
        MAX_BACKOFF_MS
    }
}

/// The mathematical content of a [`RelayConnection`].
pub struct RelayView {
    pub channels: Seq<Seq<char>>,
    pub backoff_ms: u64,
    pub warning_sent: bool,
    pub subscribed: bool,
}

impl RelayView {
    /// The wait stays between its first value and its cap.
    pub open spec fn backoff_in_range(self) -> bool {
        INITIAL_BACKOFF_MS <= self.backoff_ms <= MAX_BACKOFF_MS
    }
}

/// Something that happens to the relay's connection.
pub enum RelayEvent {
    /// A connection was made.
    Connected,
    /// The server confirmed the subscription.
    Subscribed,
    /// The wait before reconnecting is over.
    Retried,
    /// Sending the hello failed; the relay waits and reconnects.
    HelloFailed,
    /// Connecting failed.
    ConnectFailed,
    /// The connection failed.
    StreamError,
    /// The server closed the connection.
    StreamClosed,
    /// The channel list changed.
    ChannelsUpdated(Seq<Seq<char>>),
}

/// The relay after `e`.
pub open spec fn relay_step(v: RelayView, e: RelayEvent) -> RelayView {
    match e {
        RelayEvent::Connected => RelayView {
            backoff_ms: INITIAL_BACKOFF_MS,
            warning_sent: false,
            subscribed: false,
            ..v
        },
        RelayEvent::Subscribed => RelayView { subscribed: true, ..v },
        RelayEvent::Retried => RelayView { backoff_ms: next_backoff(v.backoff_ms), ..v },
        RelayEvent::HelloFailed => RelayView { backoff_ms: next_backoff(v.backoff_ms), ..v },
        RelayEvent::ConnectFailed => RelayView { warning_sent: true, ..v },
        RelayEvent::StreamError => RelayView { warning_sent: true, ..v },
        RelayEvent::StreamClosed => if v.subscribed {
            RelayView { warning_sent: true, ..v }
        } else {
            v
        },
        RelayEvent::ChannelsUpdated(channels) => RelayView { channels, ..v },
    }
}

/// Whether `e` makes the relay warn about an outage (a failed connect, a
/// failed connection, or a subscribed connection closed by the server).
pub open spec fn outage_warning(v: RelayView, e: RelayEvent) -> bool {
    match e {
        RelayEvent::ConnectFailed => !v.warning_sent,
        RelayEvent::StreamError => !v.warning_sent,
        RelayEvent::StreamClosed => v.subscribed && !v.warning_sent,
        _ => false,
    }
}

/// The relay after `events`, in order.
pub open spec fn relay_run(v: RelayView, events: Seq<RelayEvent>) -> RelayView
    decreases events.len(),
{
    if events.len() == 0 {
        v
    } else {
        relay_run(relay_step(v, events[0]), events.drop_first())
    }
}

/// How many outage warnings `events` make, in order, from `v`.
pub open spec fn outage_warnings(v: RelayView, events: Seq<RelayEvent>) -> nat
    decreases events.len(),
{
    if events.len() == 0 {
        0
    } else {
        (if outage_warning(v, events[0]) {
            1nat
        } else {
            0nat
        }) + outage_warnings(relay_step(v, events[0]), events.drop_first())
    }
}

/// How many waits `events` end (each doubles the next one).
pub open spec fn waits_over(events: Seq<RelayEvent>) -> nat
    decreases events.len(),
{
    if events.len() == 0 {
        0
    } else {
        (if events[0] is Retried || events[0] is HelloFailed {
            1nat
        } else {
            0nat
        }) + waits_over(events.drop_first())
    }
}

/// The wait after `k` waits since the last connection: the first wait
/// doubled `k` times, up to the cap.
pub open spec fn backoff_after(k: nat) -> u64
    decreases k,
{
    if k == 0 {
        INITIAL_BACKOFF_MS
    } else {
        next_backoff(backoff_after((k - 1) as nat))
    }
}

/// The relay's connection policy: which channels it subscribes to, how long
/// it waits before reconnecting, and whether it has already warned about the
/// current outage.
#[derive(Debug)]
pub struct RelayConnection {
    channels: Vec<String>,
    backoff_ms: u64,
    warning_sent: bool,
    subscribed: bool,
}

impl View for RelayConnection {
    type V = RelayView;

    closed spec fn view(&self) -> RelayView {
        RelayView {
            channels: strings_view(self.channels@),
            backoff_ms: self.backoff_ms,
            warning_sent: self.warning_sent,
            subscribed: self.subscribed,
        }
    }
}

impl RelayConnection {
    #[verifier::type_invariant]
    spec fn backoff_bounded(&self) -> bool {
        INITIAL_BACKOFF_MS <= self.backoff_ms <= MAX_BACKOFF_MS
    }

    /// A relay for `channels` that has not connected yet.
    pub fn new(channels: Vec<String>) -> (relay: Self)
        ensures
            relay@ == (RelayView {
                channels: strings_view(channels@),
                backoff_ms: INITIAL_BACKOFF_MS,
                warning_sent: false,
                subscribed: false,
            }),
    {
        RelayConnection { channels, backoff_ms: INITIAL_BACKOFF_MS, warning_sent: false, subscribed: false }
    }

    /// The channels to subscribe to.
    pub fn channels(&self) -> (channels: &Vec<String>)
        ensures
            strings_view(channels@) == self@.channels,
    {
        &self.channels
    }

    /// How long to wait before the next attempt, in milliseconds.
    pub fn retry_delay_ms(&self) -> (ms: u64)
        ensures
            ms == self@.backoff_ms,
            INITIAL_BACKOFF_MS <= ms <= MAX_BACKOFF_MS,
    {
        proof {
            use_type_invariant(self);
        }
        self.backoff_ms
    }

    /// The channel list changed; the next hello subscribes to `channels`.
    pub fn update_channels(&mut self, channels: Vec<String>)
        ensures
            final(self)@ == relay_step(old(self)@, RelayEvent::ChannelsUpdated(strings_view(channels@))),
            final(self)@.backoff_in_range(),
    {
        proof {
            use_type_invariant(&*self);
        }
        self.channels = channels;
    }

    /// A connection was made: the wait and the warning are reset and no
    /// subscription is confirmed yet.
    pub fn on_connected(&mut self)
        ensures
            final(self)@ == relay_step(old(self)@, RelayEvent::Connected),
            final(self)@.backoff_in_range(),
    {
        self.backoff_ms = INITIAL_BACKOFF_MS;
        self.warning_sent = false;
        self.subscribed = false;
    }

    /// The server confirmed the subscription.
    pub fn on_subscribed(&mut self)
        ensures
            final(self)@ == relay_step(old(self)@, RelayEvent::Subscribed),
            final(self)@.backoff_in_range(),
    {
        proof {
            use_type_invariant(&*self);
        }
        self.subscribed = true;
    }

    /// The wait before the next attempt is over: the next one is doubled, up
    /// to the cap.
    pub fn on_retry(&mut self)
        ensures
            final(self)@ == relay_step(old(self)@, RelayEvent::Retried),
            final(self)@.backoff_in_range(),
    {
        proof {
            use_type_invariant(&*self);
        }
        self.backoff_ms = if self.backoff_ms <= MAX_BACKOFF_MS / 2 {
            self.backoff_ms * 2
        } else {
            MAX_BACKOFF_MS
        };
    }

    /// Sending the hello failed with `error`: the warning to show and the
    /// wait before reconnecting; the next wait is doubled, up to the cap.
    pub fn on_hello_failed(&mut self, error: &str) -> (r: (String, u64))
        ensures
            r.0@ == "failed to send wrapper hello: "@ + error@,
            r.1 == old(self)@.backoff_ms,
            final(self)@ == relay_step(old(self)@, RelayEvent::HelloFailed),
            final(self)@.backoff_in_range(),
    {
        let mut warning = "failed to send wrapper hello: ".to_string();
        warning.append(error);
        let wait = self.retry_delay_ms();
        self.on_retry();
        (warning, wait)
    }

    /// Warns once per outage: `warning` when none was sent since the last
    /// connection, nothing otherwise.
    fn warn_once(&mut self, warning: String) -> (r: Option<String>)
        ensures
            r == (if old(self)@.warning_sent {
                None
            } else {
                Some(warning)
            }),
            final(self)@ == (RelayView { warning_sent: true, ..old(self)@ }),
            final(self)@.backoff_in_range(),
    {
        proof {
            use_type_invariant(&*self);
        }
        if self.warning_sent {
            None
        } else {
            self.warning_sent = true;
            Some(warning)
        }
    }

    /// Connecting failed with `error`.
    pub fn on_connect_failed(&mut self, error: &str) -> (warning: Option<String>)
        ensures
            match warning {
                Some(w) => !old(self)@.warning_sent && w@ == "failed to connect channel wrapper: "@
                    + error@,
                None => old(self)@.warning_sent,
            },
            warning is Some <==> outage_warning(old(self)@, RelayEvent::ConnectFailed),
            final(self)@ == relay_step(old(self)@, RelayEvent::ConnectFailed),
            final(self)@.backoff_in_range(),
    {
        let mut w = "failed to connect channel wrapper: ".to_string();
        w.append(error);
        self.warn_once(w)
    }

    /// The connection failed with `error`.
    pub fn on_stream_error(&mut self, error: &str) -> (warning: Option<String>)
        ensures
            match warning {
                Some(w) => !old(self)@.warning_sent && w@ == "channel wrapper websocket error: "@
                    + error@,
                None => old(self)@.warning_sent,
            },
            warning is Some <==> outage_warning(old(self)@, RelayEvent::StreamError),
            final(self)@ == relay_step(old(self)@, RelayEvent::StreamError),
            final(self)@.backoff_in_range(),
    {
        let mut w = "channel wrapper websocket error: ".to_string();
        w.append(error);
        self.warn_once(w)
    }

    /// The server closed the connection: a subscribed relay warns once that
    /// it reconnects; one that never got subscribed stays quiet.
    pub fn on_stream_closed(&mut self) -> (warning: Option<String>)
        ensures
            match warning {
                Some(w) => old(self)@.subscribed && !old(self)@.warning_sent && w@
                    == "channel wrapper disconnected; reconnecting in background"@,
                None => !old(self)@.subscribed || old(self)@.warning_sent,
            },
            warning is Some <==> outage_warning(old(self)@, RelayEvent::StreamClosed),
            final(self)@ == relay_step(old(self)@, RelayEvent::StreamClosed),
            final(self)@.backoff_in_range(),
    {
        proof {
            use_type_invariant(&*self);
        }
        if self.subscribed {
            self.warn_once("channel wrapper disconnected; reconnecting in background".to_string())
        } else {
            None
        }
    }
}

/// The warning when a receipt could not be sent.
pub fn receipt_send_failed_warning(error: &str) -> (warning: String)
    ensures
        warning@ == "failed to send wrapper receipt: "@ + error@,
{
    let mut w = "failed to send wrapper receipt: ".to_string();
    w.append(error);
    w
}

/// The warning when a server message could not be decoded.
pub fn decode_failed_warning(error: &str) -> (warning: String)
    ensures
        warning@ == "failed to decode wrapper message: "@ + error@,
{
    let mut w = "failed to decode wrapper message: ".to_string();
    w.append(error);
    w
}

/// The scheme of the relay's websocket URL for a server URL with
/// `scheme`: `http` becomes `ws`, `https` becomes `wss`, `ws` and `wss`
/// stay (`Ok(None)`); any other scheme is the error.
pub fn websocket_scheme(scheme: &str) -> (r: Result<Option<String>, String>)
    ensures
        scheme@ == "http"@ ==> (r matches Ok(Some(s)) && s@ == "ws"@),
        scheme@ == "https"@ ==> (r matches Ok(Some(s)) && s@ == "wss"@),
        scheme@ == "ws"@ || scheme@ == "wss"@ ==> r matches Ok(None),
        !(scheme@ == "http"@ || scheme@ == "https"@ || scheme@ == "ws"@ || scheme@ == "wss"@)
            ==> (r matches Err(e) && e@ == "unsupported server URL scheme `"@ + scheme@ + "`"@),
{
    proof {
        reveal_strlit("http");
        reveal_strlit("https");
        reveal_strlit("ws");
        reveal_strlit("wss");
        assert("http"@.len() == 4 && "https"@.len() == 5 && "ws"@.len() == 2 && "wss"@.len() == 3);
        assert("http"@ != "https"@ && "http"@ != "ws"@ && "http"@ != "wss"@);
        assert("https"@ != "ws"@ && "https"@ != "wss"@);
    }
    if str_equal(scheme, "http") {
        Ok(Some("ws".to_string()))
    } else if str_equal(scheme, "https") {
        Ok(Some("wss".to_string()))
    } else if str_equal(scheme, "ws") || str_equal(scheme, "wss") {
        Ok(None)
    } else {
        let mut e = "unsupported server URL scheme `".to_string();
        e.append(scheme);
        e.append("`");
        Err(e)
    }
}

/// The `Authorization` value for the channel server's bearer `token`.
pub fn bearer_authorization(token: &str) -> (value: String)
    ensures
        value@ == "Bearer "@ + token@,
{
    let mut value = "Bearer ".to_string();
    value.append(token);
    value
}

} // verus!
