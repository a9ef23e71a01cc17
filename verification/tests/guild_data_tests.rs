use soundfx::data::{Data, Database};
use soundfx::guild_data::{AllowGreet, GuildData, GuildTable};

fn fields(g: &GuildData) -> (u64, &str, u8, AllowGreet, Option<u64>) {
    (g.id, g.prefix.as_str(), g.volume, g.allow_greets, g.allowed_role)
}

#[test]
fn first_access_makes_the_defaults() {
    let mut data = Data::new(Database::new());
    let g = data.guild_data(12);
    assert_eq!(fields(&g), (12, "?", 100, AllowGreet::Enabled, None));
    let rows = data.database.servers.rows();
    assert_eq!(rows.len(), 1);
    assert_eq!(fields(&rows[0]), (12, "?", 100, AllowGreet::Enabled, None));
}

#[test]
fn existing_row_is_read_and_then_cached() {
    let mut db = Database::new();
    let mut stored = GuildData::from_id(3, &mut db.servers);
    stored.volume = 40;
    stored.prefix = "!".to_string();
    stored.allowed_role = Some(9);
    stored.commit(&mut db.servers);
    let mut data = Data::new(db);
    assert_eq!(fields(&data.guild_data(3)), (3, "!", 40, AllowGreet::Enabled, Some(9)));
    // The table changes behind the cache: the cached settings stay in force.
    let mut behind = GuildData::with_defaults(3);
    behind.volume = 1;
    behind.commit(&mut data.database.servers);
    assert_eq!(data.guild_data(3).volume, 40);
    assert_eq!(data.database.servers.get(3).unwrap().volume, 1);
}

#[test]
fn change_is_seen_at_once_and_stored_on_commit() {
    let mut data = Data::new(Database::new());
    let mut g = data.guild_data(5);
    g.volume = 50;
    data.set_guild_data(g.clone());
    assert_eq!(data.guild_data(5).volume, 50);
    assert_eq!(data.database.servers.get(5).unwrap().volume, 100);
    g.commit(&mut data.database.servers);
    assert_eq!(data.database.servers.get(5).unwrap().volume, 50);
    assert_eq!(data.database.servers.rows().len(), 1);
}

#[test]
fn commit_without_a_row_changes_nothing() {
    let mut table = GuildTable::new();
    GuildData::with_defaults(1).commit(&mut table);
    assert!(table.rows().is_empty());
    assert!(table.get(1).is_none());
    let a = GuildData::from_id(1, &mut table);
    let b = GuildData::from_id(1, &mut table);
    assert_eq!(fields(&a), fields(&b));
    GuildData::from_id(2, &mut table);
    assert_eq!(table.rows().len(), 2);
}

#[test]
fn load_refuses_two_rows_of_one_guild() {
    let rows = vec![GuildData::with_defaults(1), GuildData::with_defaults(1)];
    assert!(GuildTable::load(rows).is_none());
    let rows = vec![GuildData::with_defaults(1), GuildData::with_defaults(2)];
    let table = GuildTable::load(rows).unwrap();
    assert_eq!(table.get(2).unwrap().id, 2);
}

#[test]
fn policy_codes() {
    assert_eq!(AllowGreet::Enabled.code(), 1);
    assert_eq!(AllowGreet::GuildOnly.code(), 0);
    assert_eq!(AllowGreet::Disabled.code(), -1);
    for policy in [AllowGreet::Enabled, AllowGreet::GuildOnly, AllowGreet::Disabled] {
        assert_eq!(AllowGreet::from_code(policy.code()), Some(policy));
    }
    assert_eq!(AllowGreet::from_code(2), None);
    assert_eq!(AllowGreet::from_code(-2), None);
}
