use soundfx::query::extract_id;
use soundfx::sound::Sound;
use soundfx::store::SoundStore;

fn sound(id: u32, name: &str, public: bool, server_id: u64, uploader_id: Option<u64>) -> Sound {
    Sound { name: name.to_string(), id, public, server_id, uploader_id }
}

fn ids(sounds: &[Sound]) -> Vec<u32> {
    sounds.iter().map(|s| s.id).collect()
}

/// Sounds 6 down to 1; user 100 in guild 1 is the caller of most searches.
fn catalog() -> SoundStore {
    SoundStore::load(
        vec![
            sound(6, "horn", false, 2, Some(300)),
            sound(5, "horn", true, 2, Some(200)),
            sound(4, "horn", false, 1, Some(200)),
            sound(3, "horn", true, 3, None),
            sound(2, "horn", false, 9, Some(100)),
            sound(1, "airhorn", true, 1, Some(200)),
        ],
        vec![(100, 3), (200, 1)],
    )
    .unwrap()
}

#[test]
fn query_forms() {
    assert_eq!(extract_id("42"), Some(42));
    assert_eq!(extract_id("id:42"), Some(42));
    assert_eq!(extract_id("ID:42"), Some(42));
    assert_eq!(extract_id("Id:007"), Some(7));
    assert_eq!(extract_id("+5"), Some(5));
    assert_eq!(extract_id("id:+5"), Some(5));
    assert_eq!(extract_id("4294967295"), Some(u32::MAX));
    assert_eq!(extract_id("4294967296"), None);
    assert_eq!(extract_id("00000000000000000001"), Some(1));
    assert_eq!(extract_id("id:"), None);
    assert_eq!(extract_id("id:x"), None);
    assert_eq!(extract_id("id: 5"), None);
    assert_eq!(extract_id(" 5"), None);
    assert_eq!(extract_id("5 "), None);
    assert_eq!(extract_id("-5"), None);
    assert_eq!(extract_id("+"), None);
    assert_eq!(extract_id(""), None);
    assert_eq!(extract_id("airhorn"), None);
    assert_eq!(extract_id("12a"), None);
    assert_eq!(extract_id("\u{0661}"), None);
    assert_eq!(extract_id("\u{0130}d:5"), None);
}

#[test]
fn public_sound_is_found_by_anyone() {
    let store = catalog();
    for (guild, user) in [(1, 100), (2, 200), (77, 999), (0, 0)] {
        assert!(ids(&store.search_for_sound("horn", guild, user, true, 0)).contains(&5));
        assert!(ids(&store.search_for_sound("horn", guild, user, false, 4)).contains(&5));
        assert_eq!(ids(&store.search_for_sound("5", guild, user, true, 0)), vec![5]);
        assert_eq!(ids(&store.search_for_sound("id:3", guild, user, false, 0)), vec![3]);
    }
}

#[test]
fn private_sound_is_found_by_uploader_and_guild_only() {
    let store = catalog();
    // Sound 6: private, guild 2, uploader 300.
    assert_eq!(ids(&store.search_for_sound("6", 2, 999, true, 0)), vec![6]);
    assert_eq!(ids(&store.search_for_sound("6", 77, 300, true, 0)), vec![6]);
    assert_eq!(ids(&store.search_for_sound("6", 77, 999, true, 0)), Vec::<u32>::new());
    assert!(ids(&store.search_for_sound("horn", 2, 999, true, 0)).contains(&6));
    assert!(ids(&store.search_for_sound("horn", 77, 300, true, 0)).contains(&6));
    assert!(!ids(&store.search_for_sound("horn", 77, 999, true, 0)).contains(&6));
    assert!(!ids(&store.search_for_sound("orn", 77, 999, false, 0)).contains(&6));
}

#[test]
fn ranking() {
    let store = catalog();
    // Caller 100 in guild 1: own sound 2, favorite 3, guild sound 4, public 5.
    assert_eq!(ids(&store.search_for_sound("horn", 1, 100, true, 0)), vec![2, 3, 4, 5]);
    // Substring search finds "airhorn" too: public and of the guild, before 4.
    assert_eq!(ids(&store.search_for_sound("horn", 1, 100, false, 0)), vec![2, 3, 1, 4, 5]);
}

#[test]
fn own_sound_ranks_first_whatever_the_draw() {
    let store = SoundStore::load(
        vec![
            sound(3, "horn", true, 1, Some(200)),
            sound(2, "horn", true, 1, Some(100)),
            sound(1, "horn", true, 1, Some(300)),
        ],
        vec![],
    )
    .unwrap();
    for draw in 0..20 {
        let found = store.search_for_sound("horn", 1, 100, true, draw);
        assert_eq!(found[0].id, 2);
        assert_eq!(found.len(), 3);
    }
}

#[test]
fn ties_turn_with_the_draw() {
    let store = SoundStore::load(
        vec![
            sound(3, "horn", true, 5, None),
            sound(2, "horn", true, 5, None),
            sound(1, "horn", true, 5, None),
        ],
        vec![],
    )
    .unwrap();
    assert_eq!(ids(&store.search_for_sound("horn", 1, 100, true, 0)), vec![3, 2, 1]);
    assert_eq!(ids(&store.search_for_sound("horn", 1, 100, true, 1)), vec![2, 1, 3]);
    assert_eq!(ids(&store.search_for_sound("horn", 1, 100, true, 2)), vec![1, 3, 2]);
    assert_eq!(ids(&store.search_for_sound("horn", 1, 100, true, 3)), vec![3, 2, 1]);
}

#[test]
fn strict_and_substring_names() {
    let store = catalog();
    assert_eq!(ids(&store.search_for_sound("airhorn", 1, 100, true, 0)), vec![1]);
    assert_eq!(ids(&store.search_for_sound("air", 1, 100, true, 0)), Vec::<u32>::new());
    assert_eq!(ids(&store.search_for_sound("air", 1, 100, false, 0)), vec![1]);
    assert_eq!(ids(&store.search_for_sound("Horn", 1, 100, true, 0)), Vec::<u32>::new());
    assert_eq!(ids(&store.search_for_sound("Horn", 1, 100, false, 0)), Vec::<u32>::new());
    assert_eq!(ids(&store.search_for_sound("rho", 1, 100, false, 0)), vec![1]);
    assert_eq!(ids(&store.search_for_sound("", 1, 100, false, 0)).len(), 5);
    assert_eq!(ids(&store.search_for_sound("nothing", 1, 100, false, 0)), Vec::<u32>::new());
}

#[test]
fn upload_then_search_from_the_same_guild() {
    let mut store = SoundStore::new();
    let (a, b, g) = (11, 22, 5);
    Sound::create_anon("airhorn", true, g, a, &mut store).unwrap();
    let found = store.search_for_sound("airhorn", g, b, true, 0);
    assert_eq!(found.len(), 1);
    assert_eq!(found[0].id, 1);
    assert_eq!(found[0].name, "airhorn");
    assert!(!found[0].public);
    assert_eq!(found[0].server_id, g);
    assert_eq!(found[0].uploader_id, Some(a));
    // Outside the guild only the uploader finds it.
    assert!(store.search_for_sound("airhorn", g + 1, b, true, 0).is_empty());
    assert_eq!(ids(&store.search_for_sound("airhorn", g + 1, a, true, 0)), vec![1]);
    // Once made public, anyone does.
    let mut uploaded = store.sound_with_id(1).unwrap();
    uploaded.public = true;
    uploaded.commit(&mut store);
    assert_eq!(ids(&store.search_for_sound("airhorn", g + 1, b, true, 0)), vec![1]);
}

#[test]
fn listings_are_most_recent_first_in_pages_of_25() {
    let mut store = SoundStore::new();
    for i in 0..60 {
        let user = if i % 2 == 0 { 1 } else { 2 };
        Sound::create_anon(&format!("s{}", i), true, 7, user, &mut store).unwrap();
    }
    assert_eq!(store.count_user_sounds(1), 30);
    assert_eq!(store.count_guild_sounds(7), 60);
    assert_eq!(store.count_guild_sounds(8), 0);
    let first = store.user_sounds(1, Some(0));
    assert_eq!(first.len(), 25);
    assert_eq!(first[0].id, 59);
    assert_eq!(first[24].id, 11);
    assert_eq!(ids(&store.user_sounds(1, Some(1))), vec![9, 7, 5, 3, 1]);
    assert!(store.user_sounds(1, Some(2)).is_empty());
    assert!(store.user_sounds(1, Some(u64::MAX)).is_empty());
    assert_eq!(store.user_sounds(1, None).len(), 30);
    assert_eq!(store.guild_sounds(7, Some(2)).len(), 10);
    assert_eq!(store.guild_sounds(7, Some(2))[0].id, 10);
    assert_eq!(store.guild_sounds(7, None).len(), 60);
}

#[test]
fn favorites() {
    let mut store = catalog();
    assert!(store.is_favorite(100, 3));
    assert!(!store.is_favorite(100, 5));
    assert_eq!(ids(&store.favorite_sounds(100, Some(0))), vec![3]);
    let five = store.sound_with_id(5).unwrap();
    assert_eq!(five.add_favorite(100, &mut store), Ok(()));
    assert_eq!(ids(&store.favorite_sounds(100, None)), vec![5, 3]);
    assert_eq!(store.count_favorite_sounds(100), 2);
    assert_eq!(
        five.add_favorite(100, &mut store),
        Err(soundfx::error::ErrorTypes::StoreError)
    );
    assert_eq!(store.count_favorite_sounds(100), 2);
    five.remove_favorite(100, &mut store);
    five.remove_favorite(100, &mut store);
    assert_eq!(ids(&store.favorite_sounds(100, None)), vec![3]);
    assert_eq!(store.favorites().clone(), vec![(100, 3), (200, 1)]);
}

#[test]
fn autocomplete_is_by_prefix_and_capped() {
    let store = catalog();
    assert_eq!(ids(&store.autocomplete_user_sounds("ho", 100, 1)), vec![5, 4, 3, 2]);
    assert_eq!(ids(&store.autocomplete_user_sounds("air", 100, 1)), vec![1]);
    assert_eq!(ids(&store.autocomplete_user_sounds("orn", 100, 1)), Vec::<u32>::new());
    assert_eq!(ids(&store.autocomplete_favorite_sounds("h", 100, 1)), vec![3]);
    assert_eq!(ids(&store.autocomplete_favorite_sounds("a", 100, 1)), Vec::<u32>::new());
    let mut big = SoundStore::new();
    for i in 0..40 {
        Sound::create_anon(&format!("zz{}", i), true, 1, 1, &mut big).unwrap();
    }
    let suggested = big.autocomplete_user_sounds("zz", 1, 1);
    assert_eq!(suggested.len(), 25);
    assert_eq!(suggested[0].id, 40);
}

#[test]
fn load_puts_sounds_in_order_and_refuses_doubles() {
    let twice = vec![sound(2, "a", true, 1, None), sound(2, "b", true, 1, None)];
    assert!(SoundStore::load(twice, vec![]).is_none());
    let mixed = vec![
        sound(2, "b", true, 1, None),
        sound(9, "a", true, 1, None),
        sound(1, "c", true, 1, None),
        sound(5, "d", true, 1, None),
    ];
    assert!(SoundStore::load(mixed.clone(), vec![(1, 2), (1, 2)]).is_none());
    let mut store = SoundStore::load(mixed, vec![(1, 2), (2, 2)]).unwrap();
    assert_eq!(ids(store.sounds()), vec![9, 5, 2, 1]);
    assert_eq!(store.sounds()[1].name, "d");
    Sound::create_anon("e", true, 1, 1, &mut store).unwrap();
    assert_eq!(ids(store.sounds()), vec![10, 9, 5, 2, 1]);
    let empty = SoundStore::load(vec![], vec![]).unwrap();
    assert!(empty.sounds().is_empty());
}

#[test]
fn upload_delete_and_ids() {
    let mut store = SoundStore::new();
    assert_eq!(
        Sound::create_anon("a", false, 1, 1, &mut store),
        Err(soundfx::error::ErrorTypes::InvalidFile)
    );
    assert!(store.sounds().is_empty());
    Sound::create_anon("a", true, 1, 1, &mut store).unwrap();
    Sound::create_anon("b", true, 1, 1, &mut store).unwrap();
    let b = store.sound_with_id(2).unwrap();
    b.delete(&mut store);
    b.delete(&mut store);
    assert_eq!(ids(store.sounds()), vec![1]);
    Sound::create_anon("c", true, 1, 1, &mut store).unwrap();
    assert_eq!(ids(store.sounds()), vec![3, 1]);
    assert!(store.sound_with_id(2).is_none());
    assert_eq!(store.count_named_user_sounds(1, "c"), 1);
    assert_eq!(store.count_named_user_sounds(1, "b"), 0);
    assert_eq!(store.count_named_user_sounds(2, "c"), 0);
    assert_eq!(Sound::count_named_user_sounds(1, "c", &store), 1);
    assert_eq!(Sound::count_user_sounds(1, &store), 2);
    let full = SoundStore::load(vec![sound(u32::MAX, "z", true, 1, None)], vec![]);
    let mut full = full.unwrap();
    assert_eq!(
        Sound::create_anon("y", true, 1, 1, &mut full),
        Err(soundfx::error::ErrorTypes::StoreError)
    );
}

#[test]
fn sounds_are_equal_by_id() {
    assert!(sound(1, "a", true, 1, None) == sound(1, "b", false, 2, Some(3)));
    assert!(sound(1, "a", true, 1, None) != sound(2, "a", true, 1, None));
    let s = sound(4, "n", false, 8, Some(1));
    let t = s.clone();
    assert_eq!((t.name.as_str(), t.id, t.public, t.server_id, t.uploader_id), ("n", 4, false, 8, Some(1)));
    assert!(s.owned_by(1) && !s.owned_by(2));
    assert!(s.visible_to(8, 2) && s.visible_to(9, 1) && !s.visible_to(9, 2));
    assert_eq!(s.rank(8, 1, true), 14);
    assert_eq!(sound(4, "n", true, 8, None).rank(1, 1, false), 1);
}

#[test]
fn new_database_is_empty_and_starts_ids_at_one() {
    let mut db = soundfx::data::Database::new();
    assert!(db.sounds.sounds().is_empty());
    assert!(db.sounds.favorites().is_empty());
    assert!(db.servers.rows().is_empty());
    assert!(db.join_sounds.rows().is_empty());
    Sound::create_anon("first", true, 1, 1, &mut db.sounds).unwrap();
    assert_eq!(ids(db.sounds.sounds()), vec![1]);
}
