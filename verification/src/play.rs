use crate::catalog::Catalog;
use crate::sound::{Sound, SoundView};
use crate::store::{views, SoundStore};
use crate::text::{decimal, decimal_chars, push_chars, push_decimal, string_of};
use crate::ui::{button_views, row_views, Button, ButtonStyle, ButtonView};
use vstd::prelude::*;

verus! {

/// What a request to play a sound comes to.
#[derive(Debug)]
pub enum PlayDecision {
    /// No channel was named and the caller is in none.
    NotInVoice,
    /// No sound answers the query.
    NotFound,
    /// Play `sound` in `channel_id`.
    Play { channel_id: u64, sound: Sound },
}

/// The channel to play in: the one that was named, else the one that the caller is in.
pub open spec fn channel_to_join(channel: Option<u64>, voice_channel: Option<u64>) -> Option<u64> {
    match channel {
        Some(c) => Some(c),
        None => voice_channel,
    }
}

/// Decides what to play and where: the first sound that a strict search for `query`
/// returns, in the channel named or else in the caller's own.
pub fn play_from_query(
    store: &SoundStore,
    guild_id: u64,
    user_id: u64,
    channel: Option<u64>,
    voice_channel: Option<u64>,
    query: &str,
    tie_break: u64,
) -> (decision: PlayDecision)
    ensures
        match channel_to_join(channel, voice_channel) {
            None => decision is NotInVoice,
            Some(c) => match store@.first_hit(query@, guild_id, user_id, tie_break as nat) {
                None => decision is NotFound,
                Some(s) => decision matches PlayDecision::Play { channel_id, sound } && channel_id
                    == c && sound@ == s,
            },
        },
{
    let target = match channel {
        Some(c) => Some(c),
        None => voice_channel,
    };
    match target {
        None => PlayDecision::NotInVoice,
        Some(channel_id) => match store.first_hit(query, guild_id, user_id, tie_break) {
            None => PlayDecision::NotFound,
            Some(sound) => PlayDecision::Play { channel_id, sound },
        },
    }
}

/// What the caller is told about a request to play a sound.
pub open spec fn play_text(decision: PlayDecision) -> Seq<char> {
    match decision {
        PlayDecision::NotInVoice => "You are not in a voice chat!"@,
        PlayDecision::NotFound => "Couldn't find sound by term provided"@,
        PlayDecision::Play { channel_id, sound } => "Playing sound "@ + sound@.name + " with ID "@
            + decimal(sound.id as nat),
    }
}

/// What the caller is told about a request to play a sound.
pub fn play_message(decision: &PlayDecision) -> (text: String)
    ensures
        text@ == play_text(*decision),
{
    match decision {
        PlayDecision::NotInVoice => String::from_str("You are not in a voice chat!"),
        PlayDecision::NotFound => String::from_str("Couldn't find sound by term provided"),
        PlayDecision::Play { channel_id, sound } => {
            let mut text = String::from_str("Playing sound ");
            text.append(sound.name.as_str());
            text.append(" with ID ");
            push_decimal(&mut text, sound.id as u64);
            assert(text@ =~= play_text(*decision));
            text
        },
    }
}

/// The sound of `sounds` that the draw `draw` picks, where there is a sound to pick.
pub open spec fn picked(sounds: Seq<SoundView>, draw: u32) -> Option<SoundView> {
    if sounds.len() == 0 {
        None
    } else {
        Some(sounds[draw as int % sounds.len() as int])
    }
}

/// Decides what a request to play any sound of the guild comes to: `draw` picks among the
/// sounds of the guild, most recent first. Hand in a number that changes from call to call.
pub fn play_random(
    store: &SoundStore,
    guild_id: u64,
    channel: Option<u64>,
    voice_channel: Option<u64>,
    draw: u32,
) -> (decision: PlayDecision)
    ensures
        match channel_to_join(channel, voice_channel) {
            None => decision is NotInVoice,
            Some(c) => match picked(store@.sounds_of_guild(guild_id), draw) {
                None => decision is NotFound,
                Some(s) => decision matches PlayDecision::Play { channel_id, sound } && channel_id
                    == c && sound@ == s,
            },
        },
{
    let target = match channel {
        Some(c) => Some(c),
        None => voice_channel,
    };
    match target {
        None => PlayDecision::NotInVoice,
        Some(channel_id) => {
            let mut sounds = store.guild_sounds(guild_id, None);
            assert(views(sounds@).len() == sounds@.len());
            if sounds.len() == 0 {
                PlayDecision::NotFound
            } else {
                let at: usize = (draw as u64 % sounds.len() as u64) as usize;
                assert(views(sounds@)[at as int] == sounds@[at as int]@);
                PlayDecision::Play { channel_id, sound: sounds.swap_remove(at) }
            }
        },
    }
}

/// What the caller is told about a request to play any sound of the guild.
pub open spec fn random_text(decision: PlayDecision) -> Seq<char> {
    match decision {
        PlayDecision::NotInVoice => "You are not in a voice chat!"@,
        PlayDecision::NotFound => "No sounds in this server!"@,
        PlayDecision::Play { channel_id, sound } => "Playing "@ + sound@.name + " (ID "@ + decimal(
            sound.id as nat,
        ) + ")"@,
    }
}

/// What the caller is told about a request to play any sound of the guild.
pub fn random_message(decision: &PlayDecision) -> (text: String)
    ensures
        text@ == random_text(*decision),
{
    match decision {
        PlayDecision::NotInVoice => String::from_str("You are not in a voice chat!"),
        PlayDecision::NotFound => String::from_str("No sounds in this server!"),
        PlayDecision::Play { channel_id, sound } => {
            let mut text = String::from_str("Playing ");
            text.append(sound.name.as_str());
            text.append(" (ID ");
            push_decimal(&mut text, sound.id as u64);
            text.append(")");
            assert(text@ =~= random_text(*decision));
            text
        },
    }
}

/// The sounds that a queue of queries plays: for each query, in order, the first sound
/// that a strict search returns, and nothing for a query that finds none.
pub open spec fn queued(
    catalog: Catalog,
    terms: Seq<Seq<char>>,
    guild: u64,
    user: u64,
    tie_break: nat,
) -> Seq<SoundView>
    decreases terms.len(),
{
    if terms.len() == 0 {
        Seq::empty()
    } else {
        let before = queued(catalog, terms.drop_last(), guild, user, tie_break);
        match catalog.first_hit(terms.last(), guild, user, tie_break) {
            Some(s) => before.push(s),
            None => before,
        }
    }
}

/// The texts of a run of strings, in order.
pub open spec fn texts(terms: Seq<String>) -> Seq<Seq<char>> {
    terms.map_values(|t: String| t@)
}

/// Finds the sounds that a queue of queries plays.
pub fn queue_play(store: &SoundStore, terms: &Vec<String>, guild_id: u64, user_id: u64, tie_break: u64) -> (sounds:
    Vec<Sound>)
    ensures
        views(sounds@) == queued(store@, texts(terms@), guild_id, user_id, tie_break as nat),
{
    let mut sounds: Vec<Sound> = Vec::new();
    let mut i: usize = 0;
    assert(texts(terms@).take(0) =~= Seq::<Seq<char>>::empty());
    assert(views(sounds@) =~= Seq::<SoundView>::empty());
    while i < terms.len()
        invariant
            i <= terms.len(),
            views(sounds@) == queued(
                store@,
                texts(terms@).take(i as int),
                guild_id,
                user_id,
                tie_break as nat,
            ),
        decreases terms.len() - i,
    {
        let ghost before = views(sounds@);
        assert(texts(terms@).take(i + 1).drop_last() =~= texts(terms@).take(i as int));
        assert(texts(terms@).take(i + 1).last() == terms@[i as int]@);
        match store.first_hit(terms[i].as_str(), guild_id, user_id, tie_break) {
            Some(sound) => {
                sounds.push(sound);
                assert(views(sounds@) =~= before.push(sounds@[sounds.len() - 1]@));
            },
            None => {},
        }
        i += 1;
    }
    assert(texts(terms@).take(terms.len() as int) =~= texts(terms@));
    sounds
}

/// What the caller is told once `count` sounds were queued.
pub fn queue_message(count: usize) -> (text: String)
    ensures
        text@ == "Queued "@ + decimal(count as nat) + " sounds!"@,
{
    let mut text = String::from_str("Queued ");
    let number = decimal_chars(count as u128);
    push_chars(&mut text, &number);
    text.append(" sounds!");
    assert(text@ =~= "Queued "@ + decimal(count as nat) + " sounds!"@);
    text
}

/// Whether a sound with id `id` is among `sounds`.
pub open spec fn has_id(sounds: Seq<SoundView>, id: u32) -> bool {
    exists|i: int| 0 <= i < sounds.len() && (#[trigger] sounds[i]).id == id
}

/// The sounds of a soundboard: for each query, in order, the first sound that a strict
/// search returns, unless the board has that sound already.
pub open spec fn board_sounds(
    catalog: Catalog,
    terms: Seq<Seq<char>>,
    guild: u64,
    user: u64,
    tie_break: nat,
) -> Seq<SoundView>
    decreases terms.len(),
{
    if terms.len() == 0 {
        Seq::empty()
    } else {
        let before = board_sounds(catalog, terms.drop_last(), guild, user, tie_break);
        match catalog.first_hit(terms.last(), guild, user, tie_break) {
            Some(s) => if has_id(before, s.id) {
                before
            } else {
                before.push(s)
            },
            None => before,
        }
    }
}

/// The button that plays the sound `s`: its id as identifier, its name as label.
pub open spec fn sound_button(s: SoundView) -> ButtonView {
    ButtonView {
        custom_id: decimal(s.id as nat),
        label: s.name,
        emoji: None,
        style: ButtonStyle::Primary,
        disabled: false,
    }
}

/// The last row of a soundboard: stop, and the modes of playing, of which playing at once
/// is the one in force.
pub open spec fn board_controls() -> Seq<ButtonView> {
    seq![
        ButtonView {
            custom_id: "#stop"@,
            label: "Stop"@,
            emoji: Some("⏹"@),
            style: ButtonStyle::Danger,
            disabled: false,
        },
        ButtonView {
            custom_id: "#mode"@,
            label: "Mode:"@,
            emoji: None,
            style: ButtonStyle::Secondary,
            disabled: true,
        },
        ButtonView {
            custom_id: "#instant"@,
            label: "Instant"@,
            emoji: Some("▶"@),
            style: ButtonStyle::Secondary,
            disabled: true,
        },
        ButtonView {
            custom_id: "#loop"@,
            label: "Loop"@,
            emoji: Some("🔁"@),
            style: ButtonStyle::Secondary,
            disabled: false,
        },
    ]
}

/// Row `k` of the sound buttons of a board: the buttons of five sounds, or of those left.
pub open spec fn board_row(sounds: Seq<SoundView>, k: int) -> Seq<ButtonView> {
    let to = if 5 * k + 5 < sounds.len() {
        5 * k + 5
    } else {
        sounds.len() as int
    };
    sounds.subrange(5 * k, to).map_values(|s: SoundView| sound_button(s))
}

/// The rows of a soundboard of `sounds`: the sound buttons, five to a row, over the
/// controls.
pub open spec fn board_rows(sounds: Seq<SoundView>) -> Seq<Seq<ButtonView>> {
    Seq::new(((sounds.len() + 4) / 5) as nat, |k: int| board_row(sounds, k)).push(board_controls())
}

fn make_button(
    custom_id: String,
    label: String,
    emoji: Option<String>,
    style: ButtonStyle,
    disabled: bool,
) -> (b: Button)
    ensures
        b@ == (ButtonView {
            custom_id: custom_id@,
            label: label@,
            emoji: match emoji {
                Some(e) => Some(e@),
                None => None,
            },
            style,
            disabled,
        }),
{
    Button { custom_id, label, emoji, style, disabled }
}

fn make_board_controls() -> (row: Vec<Button>)
    ensures
        button_views(row@) == board_controls(),
{
    let mut row: Vec<Button> = Vec::new();
    row.push(
        make_button(
            String::from_str("#stop"),
            String::from_str("Stop"),
            Some(String::from_str("⏹")),
            ButtonStyle::Danger,
            false,
        ),
    );
    row.push(
        make_button(
            String::from_str("#mode"),
            String::from_str("Mode:"),
            None,
            ButtonStyle::Secondary,
            true,
        ),
    );
    row.push(
        make_button(
            String::from_str("#instant"),
            String::from_str("Instant"),
            Some(String::from_str("▶")),
            ButtonStyle::Secondary,
            true,
        ),
    );
    row.push(
        make_button(
            String::from_str("#loop"),
            String::from_str("Loop"),
            Some(String::from_str("🔁")),
            ButtonStyle::Secondary,
            false,
        ),
    );
    assert(button_views(row@) =~= board_controls());
    row
}

fn holds_id(sounds: &Vec<Sound>, id: u32) -> (r: bool)
    ensures
        r == has_id(views(sounds@), id),
{
    let mut i: usize = 0;
    while i < sounds.len()
        invariant
            i <= sounds.len(),
            forall|k: int| 0 <= k < i ==> (#[trigger] views(sounds@)[k]).id != id,
        decreases sounds.len() - i,
    {
        if sounds[i].id == id {
            assert(views(sounds@)[i as int].id == id);
            return true;
        }
        i += 1;
    }
    false
}

/// Finds the sounds of a soundboard.
pub fn soundboard_sounds(
    store: &SoundStore,
    terms: &Vec<String>,
    guild_id: u64,
    user_id: u64,
    tie_break: u64,
) -> (sounds: Vec<Sound>)
    ensures
        views(sounds@) == board_sounds(store@, texts(terms@), guild_id, user_id, tie_break as nat),
{
    let mut sounds: Vec<Sound> = Vec::new();
    let mut i: usize = 0;
    assert(texts(terms@).take(0) =~= Seq::<Seq<char>>::empty());
    assert(views(sounds@) =~= Seq::<SoundView>::empty());
    while i < terms.len()
        invariant
            i <= terms.len(),
            views(sounds@) == board_sounds(
                store@,
                texts(terms@).take(i as int),
                guild_id,
                user_id,
                tie_break as nat,
            ),
        decreases terms.len() - i,
    {
        let ghost before = views(sounds@);
        assert(texts(terms@).take(i + 1).drop_last() =~= texts(terms@).take(i as int));
        assert(texts(terms@).take(i + 1).last() == terms@[i as int]@);
        match store.first_hit(terms[i].as_str(), guild_id, user_id, tie_break) {
            Some(sound) => {
                if !holds_id(&sounds, sound.id) {
                    sounds.push(sound);
                    assert(views(sounds@) =~= before.push(sounds@[sounds.len() - 1]@));
                }
            },
            None => {},
        }
        i += 1;
    }
    assert(texts(terms@).take(terms.len() as int) =~= texts(terms@));
    sounds
}

/// Draws the rows of a soundboard of `sounds`.
pub fn soundboard_rows(sounds: &Vec<Sound>) -> (rows: Vec<Vec<Button>>)
    ensures
        row_views(rows@) == board_rows(views(sounds@)),
{
    let ghost all = views(sounds@);
    let mut rows: Vec<Vec<Button>> = Vec::new();
    let mut row: Vec<Button> = Vec::new();
    let mut i: usize = 0;
    while i < sounds.len()
        invariant
            i <= sounds.len(),
            all == views(sounds@),
            rows.len() == i / 5,
            row.len() == i % 5,
            forall|k: int| 0 <= k < rows.len() ==> #[trigger] row_views(rows@)[k] == board_row(all, k),
            button_views(row@) == all.subrange(5 * (i / 5) as int, i as int).map_values(
                |s: SoundView| sound_button(s),
            ),
        decreases sounds.len() - i,
    {
        let ghost before = button_views(row@);
        let sound = &sounds[i];
        row.push(
            make_button(
                string_of(&decimal_chars(sound.id as u128)),
                sound.name.clone(),
                None,
                ButtonStyle::Primary,
                false,
            ),
        );
        assert(button_views(row@) =~= before.push(sound_button(all[i as int])));
        assert(button_views(row@) =~= all.subrange(5 * (i / 5) as int, i + 1).map_values(
            |s: SoundView| sound_button(s),
        ));
        i += 1;
        if i % 5 == 0 {
            let ghost done = row_views(rows@);
            let ghost full = button_views(row@);
            let mut next: Vec<Button> = Vec::new();
            std::mem::swap(&mut row, &mut next);
            rows.push(next);
            assert(row_views(rows@) =~= done.push(full));
            assert(full == board_row(all, (rows.len() - 1) as int));
            assert(button_views(row@) =~= all.subrange(5 * (i / 5) as int, i as int).map_values(
                |s: SoundView| sound_button(s),
            ));
        }
    }
    if row.len() > 0 {
        let ghost done = row_views(rows@);
        let ghost part = button_views(row@);
        rows.push(row);
        assert(row_views(rows@) =~= done.push(part));
        assert(part == board_row(all, (rows.len() - 1) as int));
    }
    let ghost done = row_views(rows@);
    rows.push(make_board_controls());
    assert(row_views(rows@) =~= done.push(board_controls()));
    assert(row_views(rows@) =~= board_rows(all));
    rows
}

/// Draws the soundboard that a run of queries asks for.
pub fn soundboard(store: &SoundStore, terms: &Vec<String>, guild_id: u64, user_id: u64, tie_break: u64) -> (rows:
    Vec<Vec<Button>>)
    ensures
        row_views(rows@) == board_rows(
            board_sounds(store@, texts(terms@), guild_id, user_id, tie_break as nat),
        ),
{
    let sounds = soundboard_sounds(store, terms, guild_id, user_id, tie_break);
    soundboard_rows(&sounds)
}

} // verus!
