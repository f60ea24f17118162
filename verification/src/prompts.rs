//! The prompts shown while setting the control plane up, described as
//! plain values: what each one says, what each choice does.
use crate::setup::ControlPlaneConsent;
use crate::text::{join_strings, join_with, str_equal, strings_view};
use vstd::prelude::*;

verus! {

/// What a choice in a selection prompt does.
#[derive(Debug, Clone, Copy, PartialEq, Eq, Structural)]
pub enum PromptAction {
    /// The user answered the consent prompt.
    ConsentSelected(ControlPlaneConsent),
    /// The user chose whether to save the channel selection.
    SaveChannelSelection(bool),
}

/// One choice of a selection prompt.
#[derive(Debug, Clone, PartialEq, Eq)]
pub struct SelectionChoice {
    pub name: String,
    pub description: Option<String>,
    pub action: PromptAction,
    pub dismiss_on_select: bool,
}

/// A prompt with a list of choices.
#[derive(Debug, Clone, PartialEq, Eq)]
pub struct SelectionPrompt {
    pub title: String,
    pub subtitle: String,
    pub footer_note: Option<String>,
    pub items: Vec<SelectionChoice>,
    /// What dismissing the prompt does.
    pub on_cancel: PromptAction,
}

/// What submitting a text prompt reports.
#[derive(Debug, Clone, Copy, PartialEq, Eq, Structural)]
pub enum TextPromptAction {
    ServerUrlSubmitted,
    ServerTokenSubmitted,
    CreateChannelSubmitted,
}

/// A prompt for a line of text.
#[derive(Debug, Clone, PartialEq, Eq)]
pub struct TextPrompt {
    pub title: String,
    pub placeholder: String,
    pub context_label: Option<String>,
    pub on_submit: TextPromptAction,
}

/// Whether a choice reads `name` / `description` and does `action`,
/// dismissing the prompt.
pub open spec fn is_choice(c: SelectionChoice, name: Seq<char>, description: Seq<char>, action: PromptAction) -> bool {
    &&& c.name@ == name
    &&& c.description matches Some(d) && d@ == description
    &&& c.action == action
    &&& c.dismiss_on_select
}

fn choice(name: &str, description: &str, action: PromptAction) -> (c: SelectionChoice)
    ensures
        is_choice(c, name@, description@, action),
{
    SelectionChoice {
        name: name.to_string(),
        description: Some(description.to_string()),
        action,
        dismiss_on_select: true,
    }
}

/// The consent prompt: accepting allows the local control plane, declining
/// (or dismissing) does not.
pub fn control_plane_consent_prompt() -> (p: SelectionPrompt)
    ensures
        p.title@ == "Local control-plane access"@,
        p.subtitle@
            == "Allow a local process on this machine to inspect this Codex session and steer only the currently active turn."@,
        p.footer_note matches Some(n) && n@
            == "This creates a per-instance local socket only after you opt in. Declining keeps the feature dormant and Codex will ask again on the next launch."@,
        p.items@.len() == 2,
        is_choice(
            p.items@[0],
            "Allow local control plane"@,
            "Start the local IPC socket for this session."@,
            PromptAction::ConsentSelected(ControlPlaneConsent::Accepted),
        ),
        is_choice(
            p.items@[1],
            "Decline for now"@,
            "Do not start the socket for this launch."@,
            PromptAction::ConsentSelected(ControlPlaneConsent::Declined),
        ),
        p.on_cancel == PromptAction::ConsentSelected(ControlPlaneConsent::Declined),
{
    let mut items = Vec::new();
    items.push(
        choice(
            "Allow local control plane",
            "Start the local IPC socket for this session.",
            PromptAction::ConsentSelected(ControlPlaneConsent::Accepted),
        ),
    );
    items.push(
        choice(
            "Decline for now",
            "Do not start the socket for this launch.",
            PromptAction::ConsentSelected(ControlPlaneConsent::Declined),
        ),
    );
    SelectionPrompt {
        title: "Local control-plane access".to_string(),
        subtitle: "Allow a local process on this machine to inspect this Codex session and steer only the currently active turn.".to_string(),
        footer_note: Some(
            "This creates a per-instance local socket only after you opt in. Declining keeps the feature dormant and Codex will ask again on the next launch.".to_string(),
        ),
        items,
        on_cancel: PromptAction::ConsentSelected(ControlPlaneConsent::Declined),
    }
}

/// How the save prompt names the channels: `no channels` for none,
/// otherwise the names joined with `, `.
pub open spec fn channels_phrase(channels: Seq<Seq<char>>) -> Seq<char> {
    if channels.len() == 0 {
        "no channels"@
    } else {
        join_with(channels, ", "@)
    }
}

/// The prompt asking whether to save the channel selection `channels` for
/// future runs.
pub fn control_plane_save_channels_prompt(channels: &Vec<String>) -> (p: SelectionPrompt)
    ensures
        p.title@ == "Save channel selection?"@,
        p.subtitle@ == "Use "@ + channels_phrase(strings_view(channels@))
            + " for this run only, or also save them for future runs."@,
        p.footer_note is None,
        p.items@.len() == 2,
        is_choice(
            p.items@[0],
            "Yes, save"@,
            "Persist this channel selection to config.toml."@,
            PromptAction::SaveChannelSelection(true),
        ),
        is_choice(
            p.items@[1],
            "No, this run only"@,
            "Use these channels now without changing config.toml."@,
            PromptAction::SaveChannelSelection(false),
        ),
        p.on_cancel == PromptAction::SaveChannelSelection(false),
{
    let phrase = if channels.len() == 0 {
        "no channels".to_string()
    } else {
        join_strings(channels, ", ")
    };
    let mut subtitle = "Use ".to_string();
    subtitle.append(phrase.as_str());
    subtitle.append(" for this run only, or also save them for future runs.");
    let mut items = Vec::new();
    items.push(
        choice(
            "Yes, save",
            "Persist this channel selection to config.toml.",
            PromptAction::SaveChannelSelection(true),
        ),
    );
    items.push(
        choice(
            "No, this run only",
            "Use these channels now without changing config.toml.",
            PromptAction::SaveChannelSelection(false),
        ),
    );
    SelectionPrompt {
        title: "Save channel selection?".to_string(),
        subtitle,
        footer_note: None,
        items,
        on_cancel: PromptAction::SaveChannelSelection(false),
    }
}

fn text_prompt(title: &str, placeholder: &str, context: &str, on_submit: TextPromptAction) -> (p: TextPrompt)
    ensures
        p.title@ == title@,
        p.placeholder@ == placeholder@,
        p.context_label matches Some(c) && c@ == context@,
        p.on_submit == on_submit,
{
    TextPrompt {
        title: title.to_string(),
        placeholder: placeholder.to_string(),
        context_label: Some(context.to_string()),
        on_submit,
    }
}

/// The prompt for the channel server's URL.
pub fn control_plane_server_url_prompt() -> (p: TextPrompt)
    ensures
        p.title@ == "Channel server URL"@,
        p.placeholder@ == "Type the server base URL and press Enter"@,
        p.context_label matches Some(c) && c@ == "Example: http://127.0.0.1:3000"@,
        p.on_submit == TextPromptAction::ServerUrlSubmitted,
{
    text_prompt(
        "Channel server URL",
        "Type the server base URL and press Enter",
        "Example: http://127.0.0.1:3000",
        TextPromptAction::ServerUrlSubmitted,
    )
}

/// The prompt for the channel server's bearer token.
pub fn control_plane_server_token_prompt() -> (p: TextPrompt)
    ensures
        p.title@ == "Channel server token"@,
        p.placeholder@ == "Paste the bearer token and press Enter"@,
        p.context_label matches Some(c) && c@
            == "This will be stored in [control_plane].server_token."@,
        p.on_submit == TextPromptAction::ServerTokenSubmitted,
{
    text_prompt(
        "Channel server token",
        "Paste the bearer token and press Enter",
        "This will be stored in [control_plane].server_token.",
        TextPromptAction::ServerTokenSubmitted,
    )
}

/// The prompt for a new channel's name.
pub fn control_plane_create_channel_prompt() -> (p: TextPrompt)
    ensures
        p.title@ == "Create channel"@,
        p.placeholder@ == "Type a new channel name and press Enter"@,
        p.context_label matches Some(c) && c@
            == "Allowed: lowercase letters, numbers, '.', '_' and '-'."@,
        p.on_submit == TextPromptAction::CreateChannelSubmitted,
{
    text_prompt(
        "Create channel",
        "Type a new channel name and press Enter",
        "Allowed: lowercase letters, numbers, '.', '_' and '-'.",
        TextPromptAction::CreateChannelSubmitted,
    )
}

/// One channel in the channel picker.
#[derive(Debug, Clone, PartialEq, Eq)]
pub struct ChannelPickerItem {
    pub id: String,
    pub name: String,
    pub enabled: bool,
}

/// The channel picker: every available channel, ticked when it is
/// selected, with the keys it answers to.
#[derive(Debug, Clone, PartialEq, Eq)]
pub struct ChannelPicker {
    pub title: String,
    pub subtitle: String,
    pub instructions: String,
    pub items: Vec<ChannelPickerItem>,
}

/// What the channel picker sends when it closes.
#[derive(Debug, Clone, PartialEq, Eq)]
pub enum ChannelPickerEvent {
    /// The user confirmed these channels.
    ChannelsSelected { channels: Vec<String> },
    /// The user left the picker, keeping the current selection.
    SelectionCancelled,
    /// The user asked to create a channel; the picker hands over what it
    /// showed and what was ticked, to come back to after the new name.
    CreateChannelRequested { available_channels: Vec<String>, selected_channels: Vec<String> },
}

/// The ids of the picker's items, in order.
pub open spec fn item_ids(items: Seq<ChannelPickerItem>) -> Seq<Seq<char>>
    decreases items.len(),
{
    if items.len() == 0 {
        seq![]
    } else {
        item_ids(items.drop_last()).push(items.last().id@)
    }
}

/// The ids of the ticked items, in order.
pub open spec fn ticked_ids(items: Seq<ChannelPickerItem>) -> Seq<Seq<char>>
    decreases items.len(),
{
    if items.len() == 0 {
        seq![]
    } else if items.last().enabled {
        ticked_ids(items.drop_last()).push(items.last().id@)
    } else {
        ticked_ids(items.drop_last())
    }
}

/// The event for confirming `ids`.
pub fn channels_selected(ids: &[String]) -> (event: ChannelPickerEvent)
    ensures
        event matches ChannelPickerEvent::ChannelsSelected { channels } && strings_view(channels@)
            == strings_view(ids@),
{
    let mut channels: Vec<String> = Vec::new();
    let mut i: usize = 0;
    while i < ids.len()
        invariant
            i <= ids@.len(),
            channels@.len() == i,
            forall|k: int| 0 <= k < i ==> (#[trigger] channels@[k])@ == ids@[k]@,
        decreases ids.len() - i,
    {
        let id = ids[i].clone();
        channels.push(id);
        i += 1;
    }
    assert(strings_view(channels@) =~= strings_view(ids@));
    ChannelPickerEvent::ChannelsSelected { channels }
}

/// The event for leaving the picker without confirming.
pub fn selection_cancelled() -> (event: ChannelPickerEvent)
    ensures
        event is SelectionCancelled,
{
    ChannelPickerEvent::SelectionCancelled
}

impl ChannelPicker {
    /// The ids of all items (`ticked_only` false) or of the ticked ones,
    /// in order.
    fn ids(&self, ticked_only: bool) -> (ids: Vec<String>)
        ensures
            strings_view(ids@) == if ticked_only {
                ticked_ids(self.items@)
            } else {
                item_ids(self.items@)
            },
    {
        let mut ids: Vec<String> = Vec::new();
        let mut i: usize = 0;
        while i < self.items.len()
            invariant
                i <= self.items@.len(),
                strings_view(ids@) == if ticked_only {
                    ticked_ids(self.items@.take(i as int))
                } else {
                    item_ids(self.items@.take(i as int))
                },
            decreases self.items.len() - i,
        {
            let item = &self.items[i];
            assert(self.items@.take(i + 1).drop_last() =~= self.items@.take(i as int));
            if !ticked_only || item.enabled {
                ids.push(item.id.clone());
            }
            i += 1;
        }
        assert(self.items@.take(self.items@.len() as int) =~= self.items@);
        ids
    }

    /// Confirming sends the ticked channels, in the picker's order.
    pub fn confirm(&self) -> (event: ChannelPickerEvent)
        ensures
            event matches ChannelPickerEvent::ChannelsSelected { channels } && strings_view(
                channels@,
            ) == ticked_ids(self.items@),
    {
        let ids = self.ids(true);
        channels_selected(ids.as_slice())
    }

    /// Cancelling keeps the current selection.
    pub fn cancel(&self) -> (event: ChannelPickerEvent)
        ensures
            event is SelectionCancelled,
    {
        selection_cancelled()
    }

    /// The picker's own answer to a typed key: `c` or `C` closes it with a
    /// request to create a channel, carrying every channel shown and the
    /// ticked ones; any other key is the list's to handle (space toggles,
    /// enter confirms, esc cancels), and nothing is sent here.
    pub fn on_key(&self, key: char) -> (event: Option<ChannelPickerEvent>)
        ensures
            requests_channel_creation_spec(key) <==> event is Some,
            event matches Some(e) ==> e matches ChannelPickerEvent::CreateChannelRequested {
                available_channels,
                selected_channels,
            } && strings_view(available_channels@) == item_ids(self.items@) && strings_view(
                selected_channels@,
            ) == ticked_ids(self.items@),
    {
        if requests_channel_creation(key) {
            let available_channels = self.ids(false);
            let selected_channels = self.ids(true);
            Some(ChannelPickerEvent::CreateChannelRequested { available_channels, selected_channels })
        } else {
            None
        }
    }
}

/// The picker for `available` channels with `selected` ticked: one item per
/// available channel, in order, named and identified by the channel, ticked
/// exactly when the channel is among the selected ones.
pub fn channel_picker(available: &Vec<String>, selected: &Vec<String>) -> (p: ChannelPicker)
    ensures
        p.title@ == "Channel subscriptions"@,
        p.subtitle@
            == "Choose which channels this Codex instance should subscribe to for this run."@,
        p.instructions@
            == "Press space to toggle; c to create; enter to confirm; esc to keep current selection"@,
        p.items@.len() == available@.len(),
        forall|i: int|
            0 <= i < available@.len() ==> {
                &&& (#[trigger] p.items@[i]).id@ == available@[i]@
                &&& p.items@[i].name@ == available@[i]@
                &&& p.items@[i].enabled == strings_view(selected@).contains(available@[i]@)
            },
{
    let mut items: Vec<ChannelPickerItem> = Vec::new();
    let mut i: usize = 0;
    while i < available.len()
        invariant
            i <= available@.len(),
            items@.len() == i,
            forall|k: int|
                0 <= k < i ==> {
                    &&& (#[trigger] items@[k]).id@ == available@[k]@
                    &&& items@[k].name@ == available@[k]@
                    &&& items@[k].enabled == strings_view(selected@).contains(available@[k]@)
                },
        decreases available.len() - i,
    {
        let channel = &available[i];
        let mut enabled = false;
        let mut j: usize = 0;
        while j < selected.len()
            invariant
                j <= selected@.len(),
                enabled == (exists|m: int| 0 <= m < j && selected@[m]@ == channel@),
            decreases selected.len() - j,
        {
            if str_equal(selected[j].as_str(), channel.as_str()) {
                enabled = true;
            }
            j += 1;
        }
        proof {
            if enabled {
                let m = choose|m: int| 0 <= m < j && selected@[m]@ == channel@;
                assert(strings_view(selected@)[m] == channel@);
            }
            if strings_view(selected@).contains(channel@) {
                let m = choose|m: int| 0 <= m < strings_view(selected@).len() && strings_view(selected@)[m]
                    == channel@;
                assert(selected@[m]@ == channel@);
            }
        }
        items.push(ChannelPickerItem { id: channel.clone(), name: channel.clone(), enabled });
        i += 1;
    }
    ChannelPicker {
        title: "Channel subscriptions".to_string(),
        subtitle: "Choose which channels this Codex instance should subscribe to for this run.".to_string(),
        instructions: "Press space to toggle; c to create; enter to confirm; esc to keep current selection".to_string(),
        items,
    }
}

/// The keys that ask the picker to create a channel.
pub open spec fn requests_channel_creation_spec(key: char) -> bool {
    key == 'c' || key == 'C'
}

/// Whether a key asks the picker to create a channel: `c` or `C`.
pub fn requests_channel_creation(key: char) -> (b: bool)
    ensures
        b == requests_channel_creation_spec(key),
{
    key == 'c' || key == 'C'
}

} // verus!
