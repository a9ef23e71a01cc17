use crate::guild_data::AllowGreet;
use crate::pager::{read_token, Page, SoundPager};
use crate::store::SoundStore;
use crate::catalog::Catalog;
use crate::text::{
    after_first, before_first, chars_of, find_char, push_chars, same_chars, slice_chars,
    string_of,
};
use crate::ui::{button_views, row_views, Button, ButtonView};
use vstd::prelude::*;

verus! {

/// Where a member is connected to voice, as an event reports it.
#[derive(Clone, Copy, Debug, PartialEq, Eq)]
pub struct VoiceState {
    pub guild_id: Option<u64>,
    pub channel_id: Option<u64>,
    pub user_id: u64,
}

/// What to do about a change of a member's voice state.
#[derive(Clone, Copy, Debug, PartialEq, Eq)]
pub enum VoiceAction {
    /// Nothing.
    Ignore,
    /// A member left `channel_id`: leave it too, if at most one member is still there.
    LeaveIfEmpty { guild_id: u64, channel_id: u64 },
    /// A member came into `channel_id`: greet them, if the guild allows it and a sound is
    /// bound.
    Greet { guild_id: u64, channel_id: u64, user_id: u64 },
}

/// What a change of voice state calls for. A member with an earlier state who is in no
/// channel any more has left; a member without an earlier state who is in a channel of a
/// guild has joined. Every other change calls for nothing.
pub open spec fn voice_action(old: Option<VoiceState>, new: VoiceState) -> VoiceAction {
    match old {
        Some(past) => if past.guild_id is Some && new.channel_id is None && past.channel_id
            is Some {
            VoiceAction::LeaveIfEmpty {
                guild_id: past.guild_id.unwrap(),
                channel_id: past.channel_id.unwrap(),
            }
        } else {
            VoiceAction::Ignore
        },
        None => if new.guild_id is Some && new.channel_id is Some {
            VoiceAction::Greet {
                guild_id: new.guild_id.unwrap(),
                channel_id: new.channel_id.unwrap(),
                user_id: new.user_id,
            }
        } else {
            VoiceAction::Ignore
        },
    }
}

/// Decides what a change of a member's voice state calls for.
pub fn voice_state_update(old: Option<VoiceState>, new: VoiceState) -> (action: VoiceAction)
    ensures
        action == voice_action(old, new),
{
    match old {
        Some(past) => match (past.guild_id, new.channel_id, past.channel_id) {
            (Some(guild_id), None, Some(channel_id)) => VoiceAction::LeaveIfEmpty {
                guild_id,
                channel_id,
            },
            _ => VoiceAction::Ignore,
        },
        None => match (new.guild_id, new.channel_id) {
            (Some(guild_id), Some(channel_id)) => VoiceAction::Greet {
                guild_id,
                channel_id,
                user_id: new.user_id,
            },
            _ => VoiceAction::Ignore,
        },
    }
}

/// Whether to leave a channel with `members` members in it: where at most one is left,
/// or where the number is not known.
pub fn channel_is_empty(members: Option<usize>) -> (leave: bool)
    ensures
        leave == match members {
            Some(n) => n <= 1,
            None => true,
        },
{
    match members {
        Some(n) => n <= 1,
        None => true,
    }
}

/// Whether a guild with this policy greets at all, and if so whether only with sounds
/// bound for the guild itself.
pub fn greet_scope(policy: AllowGreet) -> (guild_only: Option<bool>)
    ensures
        guild_only == match policy {
            AllowGreet::Disabled => None::<bool>,
            AllowGreet::GuildOnly => Some(true),
            AllowGreet::Enabled => Some(false),
        },
{
    match policy {
        AllowGreet::Disabled => None,
        AllowGreet::GuildOnly => Some(true),
        AllowGreet::Enabled => Some(false),
    }
}

/// Whether a control identifier names a way of playing.
pub open spec fn is_mode(id: Seq<char>) -> bool {
    id == "#loop"@ || id == "#queue"@ || id == "#instant"@
}

/// A button of a soundboard after the board was switched to `mode`. A button that plays a
/// sound carries the sound and the new mode. The button of the new mode, and the caption
/// before the modes, do not respond.
pub open spec fn switched(b: ButtonView, mode: Seq<char>) -> ButtonView {
    ButtonView {
        custom_id: if b.custom_id.len() > 0 && b.custom_id[0] == '#' {
            b.custom_id
        } else {
            before_first(b.custom_id, '#') + mode
        },
        label: b.label,
        emoji: b.emoji,
        style: b.style,
        disabled: b.custom_id == "#mode"@ || b.custom_id == mode,
    }
}

/// The rows of a soundboard after the board was switched to `mode`.
pub open spec fn switched_rows(rows: Seq<Seq<ButtonView>>, mode: Seq<char>) -> Seq<
    Seq<ButtonView>,
> {
    rows.map_values(|row: Seq<ButtonView>| row.map_values(|b: ButtonView| switched(b, mode)))
}

/// The way of playing that the identifier of a sound button asks for: what stands between
/// its first `#` and the next, or `instant` where it holds no `#`.
pub open spec fn play_mode(id: Seq<char>) -> Seq<char> {
    match after_first(id, '#') {
        Some(rest) => before_first(rest, '#'),
        None => "instant"@,
    }
}

/// What a click on a control calls for.
#[derive(Debug)]
pub enum ComponentAction {
    /// The control belongs to a listing: show this page in place of the old one.
    ShowPage(Page),
    /// Stop what is playing.
    Stop,
    /// Show the soundboard again, with these rows.
    SwitchMode(Vec<Vec<Button>>),
    /// Play the sound that `query` finds, over and over where `looped` is set.
    Play { query: String, looped: bool },
}

fn copy_text(s: &Option<String>) -> (r: Option<String>)
    ensures
        r is Some == s is Some,
        r matches Some(t) ==> t@ == s.unwrap()@,
{
    match s {
        Some(t) => Some(t.clone()),
        None => None,
    }
}

fn switch_button(b: &Button, mode: &Vec<char>) -> (r: Button)
    ensures
        r@ == switched(b@, mode@),
{
    proof {
        reveal_strlit("#mode");
    }
    let id = chars_of(b.custom_id.as_str());
    let caption = chars_of("#mode");
    let custom_id = if id.len() > 0 && id[0] == '#' {
        b.custom_id.clone()
    } else {
        let cut = find_char(&id, 0, '#');
        let mut sound = string_of(&slice_chars(&id, 0, cut));
        push_chars(&mut sound, mode);
        assert(id@.skip(0) =~= id@);
        assert(sound@ =~= before_first(b@.custom_id, '#') + mode@);
        sound
    };
    let disabled = same_chars(&id, &caption) || same_chars(&id, mode);
    Button {
        custom_id,
        label: b.label.clone(),
        emoji: copy_text(&b.emoji),
        style: b.style,
        disabled,
    }
}

/// The rows of a soundboard, switched to `mode`.
pub fn switch_mode(rows: &Vec<Vec<Button>>, mode: &str) -> (out: Vec<Vec<Button>>)
    ensures
        row_views(out@) == switched_rows(row_views(rows@), mode@),
{
    let m = chars_of(mode);
    let ghost wanted = switched_rows(row_views(rows@), mode@);
    let mut out: Vec<Vec<Button>> = Vec::new();
    let mut i: usize = 0;
    while i < rows.len()
        invariant
            i <= rows.len(),
            m@ == mode@,
            wanted == switched_rows(row_views(rows@), mode@),
            row_views(out@) == wanted.take(i as int),
        decreases rows.len() - i,
    {
        let row = &rows[i];
        let ghost wanted_row = button_views(row@).map_values(|b: ButtonView| switched(b, mode@));
        let mut new_row: Vec<Button> = Vec::new();
        let mut j: usize = 0;
        while j < row.len()
            invariant
                j <= row.len(),
                m@ == mode@,
                wanted_row == button_views(row@).map_values(|b: ButtonView| switched(b, mode@)),
                button_views(new_row@) == wanted_row.take(j as int),
            decreases row.len() - j,
        {
            let ghost before = button_views(new_row@);
            new_row.push(switch_button(&row[j], &m));
            assert(button_views(new_row@) =~= before.push(switched(row[j as int]@, mode@)));
            assert(wanted_row.take(j + 1) =~= wanted_row.take(j as int).push(wanted_row[j as int]));
            j += 1;
        }
        assert(wanted_row.take(row.len() as int) =~= wanted_row);
        let ghost before = row_views(out@);
        out.push(new_row);
        assert(row_views(out@) =~= before.push(wanted_row));
        assert(wanted.take(i + 1) =~= wanted.take(i as int).push(wanted[i as int]));
        i += 1;
    }
    assert(wanted.take(rows.len() as int) =~= wanted);
    out
}

fn other_control(custom_id: &str, rows: &Vec<Vec<Button>>) -> (action: ComponentAction)
    ensures
        if custom_id@ == "#stop"@ {
            action is Stop
        } else if is_mode(custom_id@) {
            &&& action matches ComponentAction::SwitchMode(out)
            &&& row_views(out@) == switched_rows(row_views(rows@), custom_id@)
        } else {
            &&& action matches ComponentAction::Play { query, looped }
            &&& query@ == before_first(custom_id@, '#')
            &&& looped == (play_mode(custom_id@) == "loop"@)
        },
{
    proof {
        reveal_strlit("instant");
        reveal_strlit("loop");
    }
    let id = chars_of(custom_id);
    if same_chars(&id, &chars_of("#stop")) {
        return ComponentAction::Stop;
    }
    if same_chars(&id, &chars_of("#loop")) || same_chars(&id, &chars_of("#queue")) || same_chars(
        &id,
        &chars_of("#instant"),
    ) {
        return ComponentAction::SwitchMode(switch_mode(rows, custom_id));
    }
    let cut = find_char(&id, 0, '#');
    assert(id@.skip(0) =~= id@);
    let query = string_of(&slice_chars(&id, 0, cut));
    let looped = if cut < id.len() {
        let end = find_char(&id, cut + 1, '#');
        let mode = slice_chars(&id, cut + 1, end);
        assert(mode@ =~= before_first(id@.skip(cut + 1), '#'));
        same_chars(&mode, &chars_of("loop"))
    } else {
        assert("instant"@.len() == 7 && "loop"@.len() == 4);
        false
    };
    ComponentAction::Play { query, looped }
}

/// Decides what a click on the control `custom_id` calls for, `rows` being the buttons of
/// the message that the control stands under. A control of a listing has its page shown
/// again. Of the others, `#stop` stops, a mode switches the soundboard to it, and anything
/// else is taken as a sound to play.
pub fn component_interaction(
    store: &SoundStore,
    custom_id: &str,
    rows: &Vec<Vec<Button>>,
    user_id: u64,
    guild_id: u64,
) -> (action: ComponentAction)
    ensures
        match read_token(custom_id@) {
            Some(p) => {
                &&& action matches ComponentAction::ShowPage(page)
                &&& page.embed@ == p.embed_view(
                    Catalog::listing(p.collection(store@, user_id, guild_id), Some(p.page)),
                    p.total(store@, user_id, guild_id) as u64,
                )
                &&& button_views(page.controls@) == p.action_row(
                    (p.total(store@, user_id, guild_id) / 25) as u64,
                )
            },
            None => if custom_id@ == "#stop"@ {
                action is Stop
            } else if is_mode(custom_id@) {
                &&& action matches ComponentAction::SwitchMode(out)
                &&& row_views(out@) == switched_rows(row_views(rows@), custom_id@)
            } else {
                &&& action matches ComponentAction::Play { query, looped }
                &&& query@ == before_first(custom_id@, '#')
                &&& looped == (play_mode(custom_id@) == "loop"@)
            },
        },
{
    match SoundPager::handle_interaction(store, custom_id, user_id, guild_id) {
        Ok(page) => ComponentAction::ShowPage(page),
        Err(_) => other_control(custom_id, rows),
    }
}

} // verus!
