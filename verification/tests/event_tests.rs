use soundfx::events::{
    channel_is_empty, component_interaction, greet_scope, switch_mode, voice_state_update,
    ComponentAction, VoiceAction, VoiceState,
};
use soundfx::guild_data::AllowGreet;
use soundfx::pager::{ListContext, SoundPager};
use soundfx::play::soundboard_rows;
use soundfx::sound::Sound;
use soundfx::store::SoundStore;

fn state(guild_id: Option<u64>, channel_id: Option<u64>) -> VoiceState {
    VoiceState { guild_id, channel_id, user_id: 9 }
}

#[test]
fn voice_changes() {
    let joined = voice_state_update(None, state(Some(1), Some(2)));
    assert_eq!(joined, VoiceAction::Greet { guild_id: 1, channel_id: 2, user_id: 9 });
    assert_eq!(voice_state_update(None, state(None, Some(2))), VoiceAction::Ignore);
    assert_eq!(voice_state_update(None, state(Some(1), None)), VoiceAction::Ignore);
    let left = voice_state_update(Some(state(Some(1), Some(2))), state(Some(1), None));
    assert_eq!(left, VoiceAction::LeaveIfEmpty { guild_id: 1, channel_id: 2 });
    let moved = voice_state_update(Some(state(Some(1), Some(2))), state(Some(1), Some(3)));
    assert_eq!(moved, VoiceAction::Ignore);
    let odd = voice_state_update(Some(state(None, Some(2))), state(Some(1), None));
    assert_eq!(odd, VoiceAction::Ignore);
    let odd = voice_state_update(Some(state(Some(1), None)), state(Some(1), None));
    assert_eq!(odd, VoiceAction::Ignore);
    assert!(channel_is_empty(None) && channel_is_empty(Some(0)) && channel_is_empty(Some(1)));
    assert!(!channel_is_empty(Some(2)));
    assert_eq!(greet_scope(AllowGreet::Disabled), None);
    assert_eq!(greet_scope(AllowGreet::GuildOnly), Some(true));
    assert_eq!(greet_scope(AllowGreet::Enabled), Some(false));
}

fn board() -> Vec<Vec<soundfx::ui::Button>> {
    let sounds = vec![
        Sound { name: "a".to_string(), id: 12, public: true, server_id: 1, uploader_id: None },
        Sound { name: "b".to_string(), id: 7, public: true, server_id: 1, uploader_id: None },
    ];
    soundboard_rows(&sounds)
}

fn ids_and_locks(rows: &[Vec<soundfx::ui::Button>]) -> Vec<Vec<(String, bool)>> {
    rows.iter().map(|r| r.iter().map(|b| (b.custom_id.clone(), b.disabled)).collect()).collect()
}

#[test]
fn switching_the_mode_of_a_soundboard() {
    let looped = switch_mode(&board(), "#loop");
    assert_eq!(
        ids_and_locks(&looped),
        vec![
            vec![("12#loop".to_string(), false), ("7#loop".to_string(), false)],
            vec![
                ("#stop".to_string(), false),
                ("#mode".to_string(), true),
                ("#instant".to_string(), false),
                ("#loop".to_string(), true),
            ],
        ]
    );
    assert_eq!(looped[0][0].label, "a");
    assert_eq!(looped[1][0].emoji.as_deref(), Some("⏹"));
    let back = switch_mode(&looped, "#instant");
    assert_eq!(back[0][0].custom_id, "12#instant");
    assert!(back[1][2].disabled && !back[1][3].disabled);
}

#[test]
fn clicks() {
    let store = SoundStore::new();
    let rows = board();
    assert!(matches!(component_interaction(&store, "#stop", &rows, 1, 1), ComponentAction::Stop));
    match component_interaction(&store, "#queue", &rows, 1, 1) {
        ComponentAction::SwitchMode(rows) => assert_eq!(rows[0][1].custom_id, "7#queue"),
        other => panic!("{:?}", other),
    }
    for (id, query, looped) in [
        ("12", "12", false),
        ("12#loop", "12", true),
        ("12#instant", "12", false),
        ("12#loop#x", "12", true),
        ("12#x#loop", "12", false),
        ("12#", "12", false),
        ("#mode", "", false),
        ("", "", false),
        ("pid", "pid", false),
    ] {
        match component_interaction(&store, id, &rows, 1, 1) {
            ComponentAction::Play { query: q, looped: l } => assert_eq!((q.as_str(), l), (query, looped)),
            other => panic!("{:?}", other),
        }
    }
    let token = SoundPager { nonce: 1, page: 0, context: ListContext::Guild }.encode();
    match component_interaction(&store, &token, &rows, 1, 1) {
        ComponentAction::ShowPage(page) => assert_eq!(page.embed.description, "**0** sounds:"),
        other => panic!("{:?}", other),
    }
}
