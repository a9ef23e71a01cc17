use soundfx::data::{Data, Database};
use soundfx::guild_data::{AllowGreet, GuildData};
use soundfx::join_sound::{JoinSoundRow, JoinSoundTable};
use soundfx::sound::Sound;

fn row(user: u64, guild: Option<u64>, join_sound_id: u32) -> JoinSoundRow {
    JoinSoundRow { user, guild, join_sound_id }
}

#[test]
fn set_binding_is_served_from_the_cache() {
    let mut data = Data::new(Database::new());
    data.update_join_sound(1, Some(10), Some(42));
    // The table loses every row: only the cache can answer now.
    data.database = Database::new();
    assert_eq!(data.join_sound(1, Some(10), false), Some(42));
    assert_eq!(data.cached_join_sound(1, Some(10)), Some(Some(42)));
}

#[test]
fn absent_binding_is_cached_too() {
    let mut data = Data::new(Database::new());
    assert_eq!(data.cached_join_sound(7, None), None);
    assert_eq!(data.join_sound(7, None, false), None);
    assert_eq!(data.cached_join_sound(7, None), Some(None));
    // A row that appears behind the cache's back is not seen: the table is not asked again.
    data.database.join_sounds.replace(7, None, Some(5));
    assert_eq!(data.join_sound(7, None, false), None);
}

#[test]
fn second_update_replaces_the_first() {
    let mut data = Data::new(Database::new());
    let (a, g) = (3, 8);
    data.update_join_sound(a, Some(g), Some(7));
    data.update_join_sound(a, Some(g), Some(9));
    assert_eq!(data.database.join_sounds.rows().clone(), vec![row(a, Some(g), 9)]);
    assert_eq!(data.database.join_sounds.get(a, Some(g)), Some(9));
    assert_eq!(data.join_sound(a, Some(g), false), Some(9));
}

#[test]
fn guild_binding_comes_before_the_global_one() {
    let mut table = JoinSoundTable::new();
    table.replace(1, None, Some(100));
    table.replace(1, Some(5), Some(500));
    table.replace(2, None, Some(200));
    assert_eq!(table.resolve(1, Some(5), false), Some(500));
    assert_eq!(table.resolve(1, Some(5), true), Some(500));
    assert_eq!(table.resolve(1, Some(6), false), Some(100));
    assert_eq!(table.resolve(1, Some(6), true), None);
    assert_eq!(table.resolve(1, None, false), Some(100));
    assert_eq!(table.resolve(1, None, true), None);
    assert_eq!(table.resolve(2, Some(5), false), Some(200));
    assert_eq!(table.resolve(3, Some(5), false), None);
    assert_eq!(table.get(1, Some(6)), None);
}

#[test]
fn unset_removes_the_row_of_its_own_scope() {
    let mut data = Data::new(Database::new());
    data.update_join_sound(1, None, Some(4));
    data.update_join_sound(1, Some(2), Some(5));
    data.update_join_sound(1, Some(2), None);
    assert_eq!(data.database.join_sounds.rows().clone(), vec![row(1, None, 4)]);
    assert_eq!(data.cached_join_sound(1, Some(2)), Some(None));
    assert_eq!(data.cached_join_sound(1, None), Some(Some(4)));
    assert_eq!(data.cached_join_sound(1, Some(3)), None);
    assert_eq!(data.cached_join_sound(2, None), None);
    // The cached absence for the guild hides the global binding there.
    assert_eq!(data.join_sound(1, Some(2), false), None);
    assert_eq!(data.join_sound(1, Some(3), false), Some(4));
}

#[test]
fn lookup_caches_under_the_scope_asked_about() {
    let mut db = Database::new();
    db.join_sounds.replace(1, None, Some(4));
    let mut data = Data::new(db);
    assert_eq!(data.join_sound(1, Some(9), true), None);
    // The cache does not tell the two kinds of lookup apart.
    assert_eq!(data.join_sound(1, Some(9), false), None);
    assert_eq!(data.join_sound(1, Some(8), false), Some(4));
    assert_eq!(data.join_sound(1, Some(8), true), Some(4));
}

#[test]
fn load_refuses_two_rows_of_one_scope() {
    assert!(JoinSoundTable::load(vec![row(1, None, 4), row(1, None, 5)]).is_none());
    assert!(JoinSoundTable::load(vec![row(1, Some(2), 4), row(1, Some(2), 4)]).is_none());
    let table =
        JoinSoundTable::load(vec![row(1, None, 4), row(1, Some(2), 5), row(2, None, 6)]).unwrap();
    assert_eq!(table.get(1, Some(2)), Some(5));
    assert_eq!(table.rows().len(), 3);
}

#[test]
fn greeting_follows_the_policy_of_the_guild() {
    let mut db = Database::new();
    Sound::create_anon("hello", true, 5, 1, &mut db.sounds).unwrap();
    Sound::create_anon("hi", true, 5, 1, &mut db.sounds).unwrap();
    db.join_sounds.replace(1, None, Some(1));
    db.join_sounds.replace(2, Some(5), Some(2));
    db.join_sounds.replace(3, None, Some(77));
    let mut data = Data::new(db);

    let g = data.greeting(1, 5).unwrap();
    assert_eq!((g.sound.id, g.sound.name.as_str(), g.volume), (1, "hello", 100));
    assert_eq!(data.greeting(2, 5).unwrap().sound.id, 2);
    assert!(data.greeting(3, 5).is_none());
    assert!(data.greeting(4, 5).is_none());

    let mut settings = data.guild_data(6);
    settings.allow_greets = AllowGreet::GuildOnly;
    settings.volume = 30;
    data.set_guild_data(settings);
    assert!(data.greeting(1, 6).is_none());
    data.update_join_sound(1, Some(6), Some(2));
    let g = data.greeting(1, 6).unwrap();
    assert_eq!((g.sound.id, g.volume), (2, 30));

    let mut off = GuildData::with_defaults(7);
    off.allow_greets = AllowGreet::Disabled;
    data.set_guild_data(off);
    assert!(data.greeting(1, 7).is_none());
    assert_eq!(data.cached_join_sound(1, Some(7)), None);
}
