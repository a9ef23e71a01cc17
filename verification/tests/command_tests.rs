use soundfx::data::{Data, Database};
use soundfx::error::ErrorTypes;
use soundfx::favorite::{add_favorite, favorite_message, remove_favorite, FavoriteOutcome};
use soundfx::guild_data::AllowGreet;
use soundfx::manage::{
    change_public, delete_message, delete_sound, download_file, download_name, is_numeric, is_patron,
    public_message, upload_message, upload_new_sound, upload_ruling, DeleteOutcome, PublicOutcome,
    UploadOutcome, UploadRuling,
};
use soundfx::play::{
    play_from_query, play_message, play_random, queue_message, queue_play, random_message,
    soundboard, soundboard_rows, soundboard_sounds, PlayDecision,
};
use soundfx::search::{
    autocomplete_favorite, autocomplete_sound, format_search_results, search_sounds,
};
use soundfx::settings::{
    change_volume, disable_greet_sound, enable_greet_sound, enable_guild_greet_sound,
    greet_message, set_guild_greet_sound, set_user_greet_sound, unset_guild_greet_sound,
    unset_user_greet_sound, volume_message, GreetOutcome, VolumeOutcome,
};
use soundfx::sound::Sound;
use soundfx::store::SoundStore;
use soundfx::ui::ButtonStyle;

fn sound(id: u32, name: &str, public: bool, server_id: u64, uploader_id: Option<u64>) -> Sound {
    Sound { name: name.to_string(), id, public, server_id, uploader_id }
}

fn store() -> SoundStore {
    SoundStore::load(
        vec![
            sound(4, "bell", false, 2, Some(20)),
            sound(3, "gong", true, 1, Some(20)),
            sound(2, "bell", true, 1, Some(10)),
            sound(1, "ding", false, 1, Some(10)),
        ],
        vec![],
    )
    .unwrap()
}

#[test]
fn upload_rulings() {
    let s = store();
    assert_eq!(upload_ruling(&s, "", 10, 5), UploadRuling::BadName);
    assert_eq!(upload_ruling(&s, "abcdefghijklmnopqrstu", 10, 5), UploadRuling::BadName);
    assert_eq!(upload_ruling(&s, "abcdefghijklmnopqrst", 10, 5), UploadRuling::Allowed);
    // Twenty bytes, not twenty characters.
    assert_eq!(upload_ruling(&s, "ääääääääääa", 10, 5), UploadRuling::BadName);
    assert_eq!(upload_ruling(&s, "ääääääääää", 10, 5), UploadRuling::Allowed);
    assert_eq!(upload_ruling(&s, "@here", 10, 5), UploadRuling::LeadingAt);
    assert_eq!(upload_ruling(&s, "12345", 10, 5), UploadRuling::NumericName);
    assert_eq!(upload_ruling(&s, "1234a", 10, 5), UploadRuling::Allowed);
    assert_eq!(upload_ruling(&s, "bell", 10, 5), UploadRuling::NameTaken);
    assert_eq!(upload_ruling(&s, "gong", 10, 5), UploadRuling::Allowed);
    assert_eq!(upload_ruling(&s, "new", 10, 2), UploadRuling::PatronsOnly);
    assert_eq!(upload_ruling(&s, "new", 10, 3), UploadRuling::Allowed);
    assert!(is_numeric("0123456789") && is_numeric("") && !is_numeric("1.0"));
    assert!(!is_numeric("\u{0661}"));
    assert!(is_patron(&vec![3, 4, 5], 4) && !is_patron(&vec![3, 5], 4) && !is_patron(&vec![], 4));
}

#[test]
fn uploads() {
    let mut s = store();
    let refused = upload_new_sound(&mut s, "bell", 1, 10, 5, true, true);
    assert_eq!(refused, UploadOutcome::Refused(UploadRuling::NameTaken));
    let limit = upload_new_sound(&mut s, "new", 1, 10, 2, false, true);
    assert_eq!(limit, UploadOutcome::Refused(UploadRuling::PatronsOnly));
    let bad = upload_new_sound(&mut s, "new", 1, 10, 5, false, false);
    assert_eq!(bad, UploadOutcome::Failed(ErrorTypes::InvalidFile));
    assert_eq!(s.sounds().len(), 4);
    assert_eq!(upload_new_sound(&mut s, "new", 1, 10, 2, true, true), UploadOutcome::Uploaded);
    let newest = &s.sounds()[0];
    assert_eq!(
        (newest.id, newest.name.as_str(), newest.public, newest.server_id, newest.uploader_id),
        (5, "new", false, 1, Some(10))
    );
    assert_eq!(
        upload_message(limit, 2),
        "You have reached the maximum number of sounds (2). Either delete some with `/delete` or join our Patreon for unlimited uploads at **https://patreon.com/jellywx**"
    );
    assert_eq!(upload_message(UploadOutcome::Uploaded, 2), "Sound has been uploaded");
    assert_eq!(upload_message(bad, 2), "Sound failed to upload.");
    assert_eq!(
        upload_message(UploadOutcome::Refused(UploadRuling::BadName), 2),
        "Usage: `/upload <name>`. Please ensure the name provided is less than 20 characters in length"
    );
    assert_eq!(
        upload_message(UploadOutcome::Refused(UploadRuling::LeadingAt), 2),
        "Sound names cannot start with an @ symbol. Please choose another name"
    );
    assert_eq!(
        upload_message(UploadOutcome::Refused(UploadRuling::NumericName), 2),
        "Please ensure the sound name contains a non-numerical character"
    );
    assert_eq!(
        upload_message(refused, 2),
        "You are already using that name. Please choose a unique name for your upload."
    );
}

#[test]
fn deleting() {
    let mut s = store();
    assert_eq!(delete_sound(&mut s, "none", 1, 10, true, 0), DeleteOutcome::NotFound);
    // Sound 3 is public, of guild 1, uploaded by 20.
    assert_eq!(delete_sound(&mut s, "3", 9, 10, true, 0), DeleteOutcome::NotYours);
    assert_eq!(delete_sound(&mut s, "3", 1, 10, false, 0), DeleteOutcome::AdminsOnly);
    assert_eq!(s.sounds().len(), 4);
    assert_eq!(delete_sound(&mut s, "3", 1, 10, true, 0), DeleteOutcome::Deleted);
    assert_eq!(delete_sound(&mut s, "id:1", 7, 10, false, 0), DeleteOutcome::Deleted);
    let left: Vec<u32> = s.sounds().iter().map(|x| x.id).collect();
    assert_eq!(left, vec![4, 2]);
    assert_eq!(delete_message(DeleteOutcome::Deleted), "Sound has been deleted");
    assert_eq!(delete_message(DeleteOutcome::NotFound), "Sound could not be found by that name.");
    assert_eq!(
        delete_message(DeleteOutcome::NotYours),
        "You can only delete sounds from this guild or that you have uploaded."
    );
    assert_eq!(
        delete_message(DeleteOutcome::AdminsOnly),
        "Only server admins can delete sounds uploaded by other users."
    );
}

#[test]
fn flipping_visibility() {
    let mut s = store();
    assert_eq!(change_public(&mut s, "none", 1, 10, 0), PublicOutcome::NotFound);
    assert_eq!(change_public(&mut s, "gong", 1, 10, 0), PublicOutcome::NotYours);
    assert_eq!(change_public(&mut s, "ding", 1, 10, 0), PublicOutcome::MadePublic);
    assert!(s.sound_with_id(1).unwrap().public);
    assert_eq!(change_public(&mut s, "ding", 1, 10, 0), PublicOutcome::MadePrivate);
    assert!(!s.sound_with_id(1).unwrap().public);
    assert!(s.sound_with_id(2).unwrap().public);
    assert_eq!(public_message(PublicOutcome::MadePrivate), "Sound has been set to private 🔒");
    assert_eq!(public_message(PublicOutcome::MadePublic), "Sound has been set to public 🔓");
    assert_eq!(public_message(PublicOutcome::NotFound), "Sound could not be found by that name.");
    assert_eq!(
        public_message(PublicOutcome::NotYours),
        "You can only change the visibility of sounds you have uploaded. Use `/list` to view your sounds"
    );
    assert_eq!(download_name(&sound(12, "air horn", true, 1, None)), "12-air horn.opus");
    let download = download_file(&s, "gong", 1, 10, 0).unwrap();
    assert_eq!((download.sound.id, download.file_name.as_str()), (3, "3-gong.opus"));
    assert!(download_file(&s, "4", 1, 10, 0).is_none());
}

#[test]
fn favorite_commands() {
    let mut s = store();
    let added = add_favorite(&mut s, "gong", 1, 10, 0);
    assert_eq!(favorite_message(&added), "Sound gong (ID 3) added to favorites.");
    assert!(s.is_favorite(10, 3));
    let again = add_favorite(&mut s, "gong", 1, 10, 0);
    assert!(matches!(again, FavoriteOutcome::Failed(ErrorTypes::StoreError)));
    let missing = add_favorite(&mut s, "none", 1, 10, 0);
    assert!(matches!(missing, FavoriteOutcome::NotFound));
    assert_eq!(favorite_message(&missing), "Failed to find sound.");
    let removed = remove_favorite(&mut s, "3", 1, 10, 0);
    assert_eq!(favorite_message(&removed), "Sound gong (ID 3) removed from favorites.");
    assert!(!s.is_favorite(10, 3));
    assert!(matches!(remove_favorite(&mut s, "none", 1, 10, 0), FavoriteOutcome::NotFound));
}

#[test]
fn playing() {
    let s = store();
    let none = play_from_query(&s, 1, 10, None, None, "bell", 0);
    assert!(matches!(none, PlayDecision::NotInVoice));
    assert_eq!(play_message(&none), "You are not in a voice chat!");
    let missing = play_from_query(&s, 1, 10, None, Some(7), "none", 0);
    assert!(matches!(missing, PlayDecision::NotFound));
    assert_eq!(play_message(&missing), "Couldn't find sound by term provided");
    let own = play_from_query(&s, 1, 10, None, Some(7), "bell", 0);
    assert_eq!(play_message(&own), "Playing sound bell with ID 2");
    assert!(matches!(own, PlayDecision::Play { channel_id: 7, .. }));
    let named = play_from_query(&s, 1, 10, Some(8), Some(7), "4", 0);
    // Sound 4 is private to guild 2 and user 20.
    assert!(matches!(named, PlayDecision::NotFound));
    let named = play_from_query(&s, 2, 10, Some(8), Some(7), "4", 0);
    assert!(matches!(named, PlayDecision::Play { channel_id: 8, sound } if sound.id == 4));
}

#[test]
fn playing_any_sound_of_the_guild() {
    let s = store();
    // Guild 1 holds sounds 3, 2, 1, in this order.
    for (draw, id) in [(0, 3), (1, 2), (2, 1), (3, 3), (1_000_000, 2)] {
        let d = play_random(&s, 1, None, Some(6), draw);
        assert!(matches!(&d, PlayDecision::Play { channel_id: 6, sound } if sound.id == id));
    }
    let d = play_random(&s, 1, Some(5), None, 1);
    assert_eq!(random_message(&d), "Playing bell (ID 2)");
    let d = play_random(&s, 9, Some(5), None, 1);
    assert!(matches!(d, PlayDecision::NotFound));
    assert_eq!(random_message(&d), "No sounds in this server!");
    let d = play_random(&s, 1, None, None, 1);
    assert_eq!(random_message(&d), "You are not in a voice chat!");
}

#[test]
fn queue_and_soundboard() {
    let s = store();
    let terms: Vec<String> =
        ["bell", "none", "gong", "2", "ding"].iter().map(|t| t.to_string()).collect();
    let queued: Vec<u32> = queue_play(&s, &terms, 1, 10, 0).iter().map(|x| x.id).collect();
    assert_eq!(queued, vec![2, 3, 2, 1]);
    assert_eq!(queue_message(4), "Queued 4 sounds!");
    let board = soundboard_sounds(&s, &terms, 1, 10, 0);
    let on_board: Vec<u32> = board.iter().map(|x| x.id).collect();
    assert_eq!(on_board, vec![2, 3, 1]);
    let rows = soundboard_rows(&board);
    assert_eq!(rows.len(), 2);
    assert_eq!(soundboard(&s, &terms, 1, 10, 0)[0].len(), 3);
    let ids: Vec<&str> = rows[0].iter().map(|b| b.custom_id.as_str()).collect();
    assert_eq!(ids, vec!["2", "3", "1"]);
    assert_eq!(rows[0][1].label, "gong");
    assert_eq!(rows[0][1].style, ButtonStyle::Primary);
    assert!(rows[0][1].emoji.is_none() && !rows[0][1].disabled);
    let controls: Vec<(&str, &str, Option<&str>, ButtonStyle, bool)> = rows[1]
        .iter()
        .map(|b| (b.custom_id.as_str(), b.label.as_str(), b.emoji.as_deref(), b.style, b.disabled))
        .collect();
    assert_eq!(
        controls,
        vec![
            ("#stop", "Stop", Some("⏹"), ButtonStyle::Danger, false),
            ("#mode", "Mode:", None, ButtonStyle::Secondary, true),
            ("#instant", "Instant", Some("▶"), ButtonStyle::Secondary, true),
            ("#loop", "Loop", Some("🔁"), ButtonStyle::Secondary, false),
        ]
    );
}

#[test]
fn soundboard_rows_hold_five_sounds() {
    let many: Vec<Sound> = (1..=11).map(|i| sound(i, "s", true, 1, None)).collect();
    let rows = soundboard_rows(&many);
    let sizes: Vec<usize> = rows.iter().map(|r| r.len()).collect();
    assert_eq!(sizes, vec![5, 5, 1, 4]);
    assert_eq!(rows[2][0].custom_id, "11");
    let ten: Vec<Sound> = (1..=10).map(|i| sound(i, "s", true, 1, None)).collect();
    let sizes: Vec<usize> = soundboard_rows(&ten).iter().map(|r| r.len()).collect();
    assert_eq!(sizes, vec![5, 5, 4]);
    assert_eq!(soundboard_rows(&vec![]).len(), 1);
}

#[test]
fn search_results_fit_the_message() {
    let found: Vec<Sound> = (1..=30).map(|i| sound(i, "name", true, 1, None)).collect();
    let e = format_search_results(&found, 2000);
    assert_eq!(e.title, "Public sounds matching filter:");
    assert_eq!(e.description, "");
    assert_eq!(e.fields.len(), 25);
    assert_eq!((e.fields[9].name.as_str(), e.fields[9].value.as_str()), ("name", "ID: 10"));
    assert!(e.fields[9].inline);
    // 30 bytes of title; each of the first nine entries takes 4 + 5 bytes, the tenth 4 + 6.
    assert_eq!(format_search_results(&found, 30 + 9 * 9).fields.len(), 9);
    assert_eq!(format_search_results(&found, 30 + 9 * 9 + 9).fields.len(), 9);
    assert_eq!(format_search_results(&found, 30 + 9 * 9 + 10).fields.len(), 10);
    assert_eq!(format_search_results(&found, 30 + 8).fields.len(), 0);
    assert_eq!(format_search_results(&found, 29).fields.len(), 0);
    assert_eq!(format_search_results(&found, 0).fields.len(), 0);
    let wide = vec![sound(1, "ää", true, 1, None), sound(2, "a", true, 1, None)];
    assert_eq!(format_search_results(&wide, 30 + 8).fields.len(), 0);
    assert_eq!(format_search_results(&wide, 30 + 9).fields.len(), 1);
    let e = search_sounds(&store(), "el", 1, 10, 0, 2000);
    let names: Vec<&str> = e.fields.iter().map(|f| f.value.as_str()).collect();
    assert_eq!(names, vec!["ID: 2"]);
}

#[test]
fn suggestions() {
    let mut s = store();
    let c = autocomplete_sound(&s, "b", 10, 1);
    let shown: Vec<(&str, &str)> = c.iter().map(|c| (c.name.as_str(), c.value.as_str())).collect();
    assert_eq!(shown, vec![("bell", "2")]);
    assert!(autocomplete_favorite(&s, "b", 10, 1).is_empty());
    s.sound_with_id(2).unwrap().add_favorite(10, &mut s).unwrap();
    assert_eq!(autocomplete_favorite(&s, "b", 10, 1)[0].value, "2");
}

#[test]
fn volume() {
    let mut data = Data::new(Database::new());
    let current = change_volume(&mut data, 4, None);
    assert_eq!(current, VolumeOutcome::Current(100));
    assert_eq!(
        volume_message(current),
        "Current server volume: 100%. Change the volume with `/volume <new volume>`"
    );
    let changed = change_volume(&mut data, 4, Some(50));
    assert_eq!(changed, VolumeOutcome::Changed(50));
    assert_eq!(volume_message(changed), "Volume changed to 50%");
    assert_eq!(data.guild_data(4).volume, 50);
    assert_eq!(data.database.servers.get(4).unwrap().volume, 50);
    for (asked, stored) in [(0, 0), (100, 100), (1, 1)] {
        assert_eq!(change_volume(&mut data, 4, Some(asked)), VolumeOutcome::Changed(stored));
        assert_eq!(data.guild_data(4).volume, stored);
        assert_eq!(data.database.servers.get(4).unwrap().volume, stored);
    }
    assert_eq!(
        volume_message(change_volume(&mut data, 4, None)),
        "Current server volume: 1%. Change the volume with `/volume <new volume>`"
    );
}

#[test]
fn volume_over_100_is_refused() {
    let mut data = Data::new(Database::new());
    assert_eq!(change_volume(&mut data, 4, Some(60)), VolumeOutcome::Changed(60));
    for asked in [101, 200, 256, 300, 356, usize::MAX] {
        let refused = change_volume(&mut data, 4, Some(asked));
        assert_eq!(refused, VolumeOutcome::Refused(asked));
        assert_eq!(data.guild_data(4).volume, 60);
        assert_eq!(data.database.servers.get(4).unwrap().volume, 60);
    }
    assert_eq!(
        volume_message(VolumeOutcome::Refused(300)),
        "Volume not changed: 300% is more than 100%"
    );
    // A guild that nobody looked up yet is not even given a row by a refusal.
    assert_eq!(change_volume(&mut data, 5, Some(101)), VolumeOutcome::Refused(101));
    assert!(data.cached_guild_data(5).is_none());
    assert!(data.database.servers.get(5).is_none());
}

#[test]
fn greet_policies() {
    let mut data = Data::new(Database::new());
    assert_eq!(
        disable_greet_sound(&mut data, 4),
        "Greet sounds have been disabled in this server"
    );
    assert_eq!(data.guild_data(4).allow_greets, AllowGreet::Disabled);
    assert_eq!(data.database.servers.get(4).unwrap().allow_greets, AllowGreet::Disabled);
    assert_eq!(
        enable_guild_greet_sound(&mut data, 4),
        "Greet sounds have been partially enable in this server. Use \"/greet server set\" to configure server greet sounds."
    );
    assert_eq!(data.guild_data(4).allow_greets, AllowGreet::GuildOnly);
    assert_eq!(enable_greet_sound(&mut data, 4), "Greet sounds have been enable in this server");
    assert_eq!(data.database.servers.get(4).unwrap().allow_greets, AllowGreet::Enabled);
    assert_eq!(data.guild_data(4).volume, 100);
}

#[test]
fn greet_sounds() {
    let mut db = Database::new();
    db.sounds = store();
    let mut data = Data::new(db);
    let refused = set_guild_greet_sound(&mut data, "bell", 20, 10, 1, false, 0);
    assert_eq!(greet_message(&refused), "Only admins can change other user's greet sounds.");
    assert!(data.database.join_sounds.rows().is_empty());
    let missing = set_guild_greet_sound(&mut data, "none", 10, 10, 1, false, 0);
    assert_eq!(greet_message(&missing), "Could not find a sound by that name.");
    let own = set_guild_greet_sound(&mut data, "bell", 10, 10, 1, false, 0);
    assert_eq!(greet_message(&own), "Greet sound has been set to bell (ID 2)");
    assert_eq!(data.join_sound(10, Some(1), true), Some(2));
    let other = set_guild_greet_sound(&mut data, "gong", 20, 10, 1, true, 0);
    assert!(matches!(other, GreetOutcome::Bound(s) if s.id == 3));
    assert_eq!(data.database.join_sounds.get(20, Some(1)), Some(3));
    let global = set_user_greet_sound(&mut data, "ding", 10, 1, 0);
    assert!(matches!(global, GreetOutcome::Bound(s) if s.id == 1));
    assert_eq!(data.database.join_sounds.get(10, None), Some(1));
    let refused = unset_guild_greet_sound(&mut data, 20, 10, 1, false);
    assert!(matches!(refused, GreetOutcome::AdminsOnly));
    assert_eq!(data.database.join_sounds.get(20, Some(1)), Some(3));
    let unset = unset_guild_greet_sound(&mut data, 20, 10, 1, true);
    assert_eq!(greet_message(&unset), "Greet sound has been unset");
    assert_eq!(data.database.join_sounds.get(20, Some(1)), None);
    assert!(matches!(unset_user_greet_sound(&mut data, 10), GreetOutcome::Unset));
    assert_eq!(data.database.join_sounds.get(10, None), None);
    assert_eq!(data.database.join_sounds.get(10, Some(1)), Some(2));
}
