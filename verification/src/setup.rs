//! Setting the control plane up from the user's configuration: consent,
//! the channel server prompts, and the channel selection.
use crate::protocol::LaunchKind;
use crate::state::ControlPlaneConfig;
use crate::text::{
    ascii_lower_char, ascii_lowercase, chars_of, insert_sorted, lemma_push_to_set, string_from_chars,
    strictly_sorted, strings_view, trim, trim_whitespace,
};
use vstd::prelude::*;

verus! {

/// The user's answer to the consent prompt.
#[derive(Debug, Clone, Copy, PartialEq, Eq, Structural)]
pub enum ControlPlaneConsent {
    Accepted,
    Declined,
}

/// The `[control_plane]` section of the user's configuration.
#[derive(Debug, Clone)]
pub struct ControlPlaneSettings {
    pub enabled: bool,
    pub consent: Option<ControlPlaneConsent>,
    pub steering_enabled: bool,
    pub ipc_dir: String,
    pub server_url: Option<String>,
    pub server_token: Option<String>,
}

/// Whether consent was given.
pub open spec fn consent_accepted(consent: Option<ControlPlaneConsent>) -> bool {
    consent == Some(ControlPlaneConsent::Accepted)
}

/// The consent prompt is shown when the feature is enabled and consent was
/// not given.
pub fn should_prompt_for_control_plane_consent(settings: &ControlPlaneSettings) -> (b: bool)
    ensures
        b == (settings.enabled && !consent_accepted(settings.consent)),
{
    settings.enabled && !matches!(settings.consent, Some(ControlPlaneConsent::Accepted))
}

/// The channel server setup is asked for when the feature is enabled,
/// consent was given, and the server URL or token is missing.
pub fn should_prompt_for_control_plane_setup(settings: &ControlPlaneSettings) -> (b: bool)
    ensures
        b == (settings.enabled && consent_accepted(settings.consent) && (settings.server_url is None
            || settings.server_token is None)),
{
    settings.enabled && matches!(settings.consent, Some(ControlPlaneConsent::Accepted)) && (
    settings.server_url.is_none() || settings.server_token.is_none())
}

/// How the control plane starts under `settings` for a session launched as
/// `launch_kind`.
pub fn control_plane_config(settings: &ControlPlaneSettings, launch_kind: LaunchKind) -> (config:
    ControlPlaneConfig)
    ensures
        config.feature_enabled == settings.enabled,
        config.consent_accepted == consent_accepted(settings.consent),
        config.steering_enabled == settings.steering_enabled,
        config.ipc_dir@ == settings.ipc_dir@,
        config.launch_kind == launch_kind,
{
    ControlPlaneConfig {
        feature_enabled: settings.enabled,
        consent_accepted: matches!(settings.consent, Some(ControlPlaneConsent::Accepted)),
        steering_enabled: settings.steering_enabled,
        ipc_dir: settings.ipc_dir.clone(),
        launch_kind,
    }
}

/// What the user chose at startup.
#[derive(Debug, Clone, Copy, PartialEq, Eq, Structural)]
pub enum SessionSelectionKind {
    StartFresh,
    Resume,
    Fork,
    Exit,
}

/// The launch kind of a session: resumed and forked sessions say so; a
/// fresh start, or an exit, counts as fresh.
pub fn launch_kind_from_session_selection(selection: SessionSelectionKind) -> (kind: LaunchKind)
    ensures
        kind == match selection {
            SessionSelectionKind::Resume => LaunchKind::Resume,
            SessionSelectionKind::Fork => LaunchKind::Fork,
            _ => LaunchKind::Fresh,
        },
{
    match selection {
        SessionSelectionKind::StartFresh | SessionSelectionKind::Exit => LaunchKind::Fresh,
        SessionSelectionKind::Resume => LaunchKind::Resume,
        SessionSelectionKind::Fork => LaunchKind::Fork,
    }
}

/// The characters a channel name may hold: lowercase ASCII letters,
/// digits, `.`, `_` and `-`.
pub open spec fn channel_char_ok(c: char) -> bool {
    ('a' <= c <= 'z') || ('0' <= c <= '9') || c == '.' || c == '_' || c == '-'
}

/// A channel name as typed, normalized: trimmed and lowercased; it must not
/// be empty and may only hold the allowed characters.
pub open spec fn normalized_channel_name(input: Seq<char>) -> Result<Seq<char>, Seq<char>> {
    let n = ascii_lowercase(trim(input));
    if n.len() == 0 {
        Err("Channel name cannot be empty."@)
    } else if forall|i: int| 0 <= i < n.len() ==> channel_char_ok(#[trigger] n[i]) {
        Ok(n)
    } else {
        Err("Channel names may only contain lowercase letters, numbers, '.', '_' and '-'."@)
    }
}

/// Normalizes a typed channel name (see [`normalized_channel_name`]).
pub fn normalize_channel_name(input: &str) -> (r: Result<String, String>)
    ensures
        match (r, normalized_channel_name(input@)) {
            (Ok(s), Ok(n)) => s@ == n,
            (Err(e), Err(m)) => e@ == m,
            _ => false,
        },
{
    let trimmed = trim_whitespace(input);
    let chars = chars_of(trimmed.as_str());
    let mut lowered: Vec<char> = Vec::new();
    let mut all_ok = true;
    let mut i: usize = 0;
    while i < chars.len()
        invariant
            i <= chars@.len(),
            lowered@ == ascii_lowercase(chars@).take(i as int),
            all_ok == (forall|j: int| 0 <= j < i ==> channel_char_ok(#[trigger] lowered@[j])),
        decreases chars.len() - i,
    {
        let c = ascii_lower_char(chars[i]);
        let ok = ('a' <= c && c <= 'z') || ('0' <= c && c <= '9') || c == '.' || c == '_' || c
            == '-';
        let ghost prev = lowered@;
        lowered.push(c);
        assert(lowered@ == prev.push(c));
        assert(forall|j: int| 0 <= j < i ==> lowered@[j] == prev[j]);
        assert(ascii_lowercase(chars@).take(i + 1) =~= ascii_lowercase(chars@).take(i as int).push(c));
        assert(ok == channel_char_ok(c));
        assert(lowered@[i as int] == c);
        assert((forall|j: int| 0 <= j < i + 1 ==> channel_char_ok(#[trigger] lowered@[j])) == ((
        forall|j: int| 0 <= j < i ==> channel_char_ok(#[trigger] lowered@[j])) && channel_char_ok(c)))
            by {
            if (forall|j: int| 0 <= j < i ==> channel_char_ok(#[trigger] lowered@[j])) && channel_char_ok(
                c,
            ) {
                assert forall|j: int| 0 <= j < i + 1 implies channel_char_ok(#[trigger] lowered@[j]) by {
                    if j == i {
                        assert(lowered@[j] == c);
                    }
                }
            }
        }
        all_ok = all_ok && ok;
        i += 1;
    }
    assert(ascii_lowercase(chars@).take(chars@.len() as int) =~= ascii_lowercase(chars@));
    if lowered.len() == 0 {
        return Err("Channel name cannot be empty.".to_string());
    }
    if all_ok {
        Ok(string_from_chars(&lowered))
    } else {
        Err(
            "Channel names may only contain lowercase letters, numbers, '.', '_' and '-'.".to_string(),
        )
    }
}

/// The channels to offer: every available and every selected channel,
/// each once, in code-point order.
pub fn merge_available_channels(available: &Vec<String>, selected: &Vec<String>) -> (merged: Vec<
    String,
>)
    ensures
        strictly_sorted(strings_view(merged@)),
        strings_view(merged@).to_set() == strings_view(available@).to_set() + strings_view(
            selected@,
        ).to_set(),
{
    let mut merged: Vec<String> = Vec::new();
    let mut i: usize = 0;
    assert(strings_view(merged@).to_set() =~= strings_view(available@).take(0).to_set());
    while i < available.len()
        invariant
            i <= available@.len(),
            strictly_sorted(strings_view(merged@)),
            strings_view(merged@).to_set() == strings_view(available@).take(i as int).to_set(),
        decreases available.len() - i,
    {
        insert_sorted(&mut merged, &available[i]);
        assert(strings_view(available@).take(i + 1) =~= strings_view(available@).take(i as int).push(
            available@[i as int]@,
        ));
        proof {
            lemma_push_to_set(strings_view(available@).take(i as int), available@[i as int]@);
        }
        i += 1;
    }
    assert(strings_view(available@).take(available@.len() as int) =~= strings_view(available@));
    let mut k: usize = 0;
    assert(strings_view(merged@).to_set() =~= strings_view(available@).to_set() + strings_view(
        selected@,
    ).take(0).to_set());
    while k < selected.len()
        invariant
            k <= selected@.len(),
            strictly_sorted(strings_view(merged@)),
            strings_view(merged@).to_set() == strings_view(available@).to_set() + strings_view(
                selected@,
            ).take(k as int).to_set(),
        decreases selected.len() - k,
    {
        insert_sorted(&mut merged, &selected[k]);
        assert(strings_view(selected@).take(k + 1) =~= strings_view(selected@).take(k as int).push(
            selected@[k as int]@,
        ));
        proof {
            lemma_push_to_set(strings_view(selected@).take(k as int), selected@[k as int]@);
        }
        assert(strings_view(merged@).to_set() =~= strings_view(available@).to_set() + strings_view(
            selected@,
        ).take(k + 1).to_set());
        k += 1;
    }
    assert(strings_view(selected@).take(selected@.len() as int) =~= strings_view(selected@));
    merged
}

} // verus!
