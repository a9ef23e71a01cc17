use soundfx::data::Database;
use soundfx::pager::{max_page, DecodeError, ListContext, SoundPager};
use soundfx::sound::Sound;
use soundfx::store::SoundStore;
use soundfx::ui::ButtonStyle;

fn store_with(count: u32, uploader: u64, guild: u64) -> SoundStore {
    let mut store = Database::new().sounds;
    for i in 0..count {
        Sound::create_anon(&format!("clip{}", i), true, guild, uploader, &mut store).unwrap();
    }
    store
}

#[test]
fn token_round_trip() {
    let state = SoundPager { nonce: 3, page: 2, context: ListContext::Guild };
    let token = state.encode();
    assert_eq!(token, "{\"nonce\":3,\"page\":2,\"context\":\"Guild\"}");
    assert_eq!(SoundPager::decode(&token), Ok(state));
}

#[test]
fn token_round_trip_at_the_limits() {
    for context in [ListContext::User, ListContext::Guild, ListContext::Favorite] {
        for (nonce, page) in [(0, 0), (u64::MAX, u64::MAX), (10, 1_000_000), (9, 99)] {
            let state = SoundPager { nonce, page, context };
            assert_eq!(SoundPager::decode(&state.encode()), Ok(state));
        }
    }
    assert_eq!(
        SoundPager { nonce: u64::MAX, page: 0, context: ListContext::Favorite }.encode(),
        "{\"nonce\":18446744073709551615,\"page\":0,\"context\":\"Favorite\"}"
    );
}

#[test]
fn foreign_control_is_no_token() {
    for id in ["#stop", "42#loop", "", "pid", "42", "#instant", "{}"] {
        assert_eq!(SoundPager::decode(id), Err(DecodeError {}));
    }
}

#[test]
fn only_the_exact_token_decodes() {
    let refused = [
        "{\"nonce\":03,\"page\":2,\"context\":\"Guild\"}",
        "{\"nonce\":3,\"page\":2,\"context\":\"Guild\"} ",
        "{\"nonce\": 3,\"page\":2,\"context\":\"Guild\"}",
        "{\"nonce\":3,\"page\":2,\"context\":\"guild\"}",
        "{\"nonce\":3,\"page\":2,\"context\":\"Guild\"",
        "{\"nonce\":3,\"page\":,\"context\":\"Guild\"}",
        "{\"nonce\":-3,\"page\":2,\"context\":\"Guild\"}",
        "{\"nonce\":18446744073709551616,\"page\":2,\"context\":\"Guild\"}",
        "{\"page\":2,\"nonce\":3,\"context\":\"Guild\"}",
        "{\"nonce\":3,\"page\":2,\"context\":\"Guilds\"}",
        "{\"nonce\":3,\"page\":2,\"context\":\"\u{ff27}uild\"}",
    ];
    for token in refused {
        assert_eq!(SoundPager::decode(token), Err(DecodeError {}), "{}", token);
    }
}

#[test]
fn titles() {
    assert_eq!(ListContext::User.title(), "Your sounds");
    assert_eq!(ListContext::Favorite.title(), "Your favorite sounds");
    assert_eq!(ListContext::Guild.title(), "Server sounds");
}

#[test]
fn last_page_of_26_sounds_is_page_1() {
    assert_eq!(max_page(26), 1);
    assert_eq!(max_page(0), 0);
    assert_eq!(max_page(24), 0);
    assert_eq!(max_page(25), 1);
    assert_eq!(max_page(50), 2);
}

#[test]
fn controls_at_the_boundaries_of_26_sounds() {
    let last = max_page(26);
    let first_page = SoundPager { nonce: 0, page: 0, context: ListContext::User };
    let row = first_page.create_action_row(last);
    assert_eq!(row.len(), 5);
    assert!(row[0].disabled && row[1].disabled);
    assert!(row[2].disabled);
    assert!(!row[3].disabled && !row[4].disabled);

    let last_page = SoundPager { nonce: 2, page: 1, context: ListContext::User };
    let row = last_page.create_action_row(last);
    assert!(!row[0].disabled && !row[1].disabled);
    assert!(row[2].disabled);
    assert!(row[3].disabled && row[4].disabled);
}

#[test]
fn controls_carry_whole_cursors() {
    let pager = SoundPager { nonce: 7, page: 3, context: ListContext::Favorite };
    let row = pager.create_action_row(9);
    let states: Vec<SoundPager> =
        row.iter().map(|b| SoundPager::decode(&b.custom_id).unwrap()).collect();
    let context = ListContext::Favorite;
    assert_eq!(states[0], SoundPager { nonce: 0, page: 0, context });
    assert_eq!(states[1], SoundPager { nonce: 1, page: 2, context });
    assert_eq!(states[2], SoundPager { nonce: 4, page: 3, context });
    assert_eq!(states[3], SoundPager { nonce: 2, page: 4, context });
    assert_eq!(states[4], SoundPager { nonce: 3, page: 9, context });
    let labels: Vec<&str> = row.iter().map(|b| b.label.as_str()).collect();
    assert_eq!(labels, vec!["⏪", "◀️", "Page 4", "▶️", "⏩"]);
    assert_eq!(row[0].style, ButtonStyle::Primary);
    assert_eq!(row[1].style, ButtonStyle::Secondary);
    assert_eq!(row[2].style, ButtonStyle::Success);
    assert_eq!(row[3].style, ButtonStyle::Secondary);
    assert_eq!(row[4].style, ButtonStyle::Primary);
    for (i, a) in row.iter().enumerate() {
        for b in row.iter().skip(i + 1) {
            assert_ne!(a.custom_id, b.custom_id);
        }
    }
}

#[test]
fn controls_do_not_run_past_the_numbers() {
    let pager = SoundPager { nonce: 0, page: u64::MAX, context: ListContext::Guild };
    let row = pager.create_action_row(u64::MAX);
    assert_eq!(SoundPager::decode(&row[3].custom_id).unwrap().page, u64::MAX);
    assert_eq!(row[2].label, "Page 18446744073709551616");
    let first = SoundPager { nonce: 0, page: 0, context: ListContext::Guild };
    let row = first.create_action_row(0);
    assert_eq!(SoundPager::decode(&row[1].custom_id).unwrap().page, 0);
    assert!(row.iter().all(|b| b.disabled));
}

#[test]
fn page_of_a_listing() {
    let store = store_with(26, 5, 9);
    let pager = SoundPager { nonce: 0, page: 0, context: ListContext::User };
    let page = pager.reply(&store, 5, 9);
    assert_eq!(page.embed.title, "Your sounds");
    assert_eq!(page.embed.description, "**26** sounds:");
    assert_eq!(page.embed.fields.len(), 25);
    assert_eq!(page.embed.fields[0].name, "clip25");
    assert_eq!(page.embed.fields[0].value, "ID: `26`\n*Private*");
    assert!(page.embed.fields[0].inline);
    assert_eq!(page.embed.fields[24].name, "clip1");
    assert!(page.controls[0].disabled && !page.controls[3].disabled);

    let next = SoundPager::decode(&page.controls[3].custom_id).unwrap();
    let page = next.reply(&store, 5, 9);
    assert_eq!(page.embed.fields.len(), 1);
    assert_eq!(page.embed.fields[0].name, "clip0");
    assert!(page.controls[3].disabled && page.controls[4].disabled);
    assert!(!page.controls[0].disabled);

    let beyond = SoundPager { nonce: 0, page: 7, context: ListContext::User };
    assert_eq!(beyond.get_page(&store, 5, 9).len(), 0);
}

#[test]
fn page_by_context() {
    let mut store = store_with(3, 5, 9);
    Sound::create_anon("other", true, 10, 6, &mut store).unwrap();
    let fourth = store.sound_with_id(4).unwrap();
    fourth.add_favorite(5, &mut store).unwrap();
    let user = SoundPager { nonce: 0, page: 0, context: ListContext::User };
    let guild = SoundPager { nonce: 0, page: 0, context: ListContext::Guild };
    let favorite = SoundPager { nonce: 0, page: 0, context: ListContext::Favorite };
    assert_eq!(user.count(&store, 5, 10), 3);
    assert_eq!(guild.count(&store, 5, 10), 1);
    assert_eq!(favorite.count(&store, 5, 10), 1);
    assert_eq!(guild.get_page(&store, 5, 10)[0].name, "other");
    assert_eq!(favorite.get_page(&store, 5, 10)[0].id, 4);
    let mut shown = store.sound_with_id(1).unwrap();
    shown.public = true;
    shown.commit(&mut store);
    let sounds = user.get_page(&store, 5, 9);
    assert_eq!(user.embed(&sounds, 3).fields[2].value, "ID: `1`\n*Public*");
    assert_eq!(user.embed(&sounds, 3).fields[1].value, "ID: `2`\n*Private*");
}

#[test]
fn click_on_a_listing_control() {
    let store = store_with(30, 5, 9);
    let token = SoundPager { nonce: 2, page: 1, context: ListContext::Guild }.encode();
    let page = SoundPager::handle_interaction(&store, &token, 5, 9).unwrap();
    assert_eq!(page.embed.title, "Server sounds");
    assert_eq!(page.embed.description, "**30** sounds:");
    assert_eq!(page.embed.fields.len(), 5);
    assert!(SoundPager::handle_interaction(&store, "#stop", 5, 9).is_err());
}
