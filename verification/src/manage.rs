use crate::error::ErrorTypes;
use crate::sound::{Sound, SoundView};
use crate::store::SoundStore;
use crate::text::{all_digits, chars_of, decimal, is_digit, push_decimal};
use vstd::prelude::*;

verus! {

/// The greatest length of the name of a sound, in bytes.
pub const MAX_NAME_LENGTH: usize = 20;

/// What an upload under some name comes to before the file is looked at.
#[derive(Clone, Copy, Debug, PartialEq, Eq, Structural)]
pub enum UploadRuling {
    /// The name is empty or too long.
    BadName,
    /// The name begins with `@`.
    LeadingAt,
    /// The name is made of digits only.
    NumericName,
    /// The uploader has a sound of that name.
    NameTaken,
    /// The uploader holds as many sounds as anyone may: patrons alone may go on.
    PatronsOnly,
    /// The upload may go ahead.
    Allowed,
}

/// What `upload_ruling` decides for a name, given how many sounds the uploader holds under
/// it and how many they hold in all.
pub open spec fn ruling_of(name: &str, named: nat, held: nat, max_sounds: nat) -> UploadRuling {
    if name@.len() == 0 || name.len() > MAX_NAME_LENGTH {
        UploadRuling::BadName
    } else if name@[0] == '@' {
        UploadRuling::LeadingAt
    } else if all_digits(name@) {
        UploadRuling::NumericName
    } else if named > 0 {
        UploadRuling::NameTaken
    } else if held >= max_sounds {
        UploadRuling::PatronsOnly
    } else {
        UploadRuling::Allowed
    }
}

/// Whether `name` is made of ASCII digits only.
pub fn is_numeric(name: &str) -> (r: bool)
    ensures
        r == all_digits(name@),
{
    let v = chars_of(name);
    let mut i: usize = 0;
    while i < v.len()
        invariant
            i <= v.len(),
            v@ == name@,
            forall|k: int| 0 <= k < i ==> is_digit(#[trigger] v@[k]),
        decreases v.len() - i,
    {
        let code: u32 = v[i] as u32;
        if code < 48 || code > 57 {
            assert(!is_digit(v@[i as int]));
            return false;
        }
        i += 1;
    }
    true
}

/// Decides whether `user_id` may upload a sound called `name`, where nobody may hold more
/// than `max_sounds` sounds unless they are a patron.
pub fn upload_ruling(store: &SoundStore, name: &str, user_id: u64, max_sounds: u64) -> (ruling:
    UploadRuling)
    ensures
        ruling == ruling_of(
            name,
            store@.uploads_named(user_id, name@).len(),
            store@.uploads_of(user_id).len(),
            max_sounds as nat,
        ),
{
    if name.is_empty() || name.len() > MAX_NAME_LENGTH {
        return UploadRuling::BadName;
    }
    let v = chars_of(name);
    if v[0] == '@' {
        UploadRuling::LeadingAt
    } else if is_numeric(name) {
        UploadRuling::NumericName
    } else if store.count_named_user_sounds(user_id, name) > 0 {
        UploadRuling::NameTaken
    } else if store.count_user_sounds(user_id) >= max_sounds {
        UploadRuling::PatronsOnly
    } else {
        UploadRuling::Allowed
    }
}

/// Whether a member with the roles `roles` is a patron: `patreon_role` is among them.
pub fn is_patron(roles: &Vec<u64>, patreon_role: u64) -> (r: bool)
    ensures
        r == roles@.contains(patreon_role),
{
    let mut i: usize = 0;
    while i < roles.len()
        invariant
            i <= roles.len(),
            forall|k: int| 0 <= k < i ==> roles@[k] != patreon_role,
        decreases roles.len() - i,
    {
        if roles[i] == patreon_role {
            return true;
        }
        i += 1;
    }
    false
}

/// How an upload ended.
#[derive(Clone, Copy, Debug, PartialEq, Eq, Structural)]
pub enum UploadOutcome {
    /// The upload was refused; the ruling says why.
    Refused(UploadRuling),
    /// The sound is in the store.
    Uploaded,
    /// The file was no sound, or the store refused it.
    Failed(ErrorTypes),
}

/// Uploads a sound called `name` for `user_id` in `guild_id`. `patron` says whether the
/// uploader is a patron, `transcoded` whether the file could be turned into a sound. The
/// store changes only where the upload is allowed, for a patron also at the limit, and the
/// file is a sound.
pub fn upload_new_sound(
    store: &mut SoundStore,
    name: &str,
    guild_id: u64,
    user_id: u64,
    max_sounds: u64,
    patron: bool,
    transcoded: bool,
) -> (outcome: UploadOutcome)
    requires
        old(store).wf(),
    ensures
        final(store).wf(),
        ({
            let ruling = ruling_of(
                name,
                old(store)@.uploads_named(user_id, name@).len(),
                old(store)@.uploads_of(user_id).len(),
                max_sounds as nat,
            );
            let allowed = ruling == UploadRuling::Allowed || (ruling == UploadRuling::PatronsOnly && patron);
            &&& !allowed ==> outcome == UploadOutcome::Refused(ruling)
            &&& allowed && !transcoded ==> outcome == UploadOutcome::Failed(ErrorTypes::InvalidFile)
            &&& allowed && transcoded && old(store)@.next_id > u32::MAX ==> outcome
                == UploadOutcome::Failed(ErrorTypes::StoreError)
            &&& allowed && transcoded && old(store)@.next_id <= u32::MAX ==> outcome
                == UploadOutcome::Uploaded
            &&& outcome == UploadOutcome::Uploaded ==> final(store)@ == old(store)@.uploaded(
                name@,
                guild_id,
                user_id,
            )
            &&& outcome != UploadOutcome::Uploaded ==> final(store)@ == old(store)@
        }),
{
    let ruling = upload_ruling(store, name, user_id, max_sounds);
    let allowed = match ruling {
        UploadRuling::Allowed => true,
        UploadRuling::PatronsOnly => patron,
        _ => false,
    };
    if !allowed {
        return UploadOutcome::Refused(ruling);
    }
    match Sound::create_anon(name, transcoded, guild_id, user_id, store) {
        Ok(_) => UploadOutcome::Uploaded,
        Err(e) => UploadOutcome::Failed(e),
    }
}

/// How a request to delete a sound ended.
#[derive(Clone, Copy, Debug, PartialEq, Eq, Structural)]
pub enum DeleteOutcome {
    /// No sound answers the query.
    NotFound,
    /// The sound is neither the caller's nor their guild's.
    NotYours,
    /// The sound is another member's, and the caller does not manage the guild.
    AdminsOnly,
    /// The sound is gone.
    Deleted,
}

/// What a request of `user` in `guild` to delete `found` comes to, where `may_manage`
/// says that the caller manages the guild.
pub open spec fn delete_verdict(found: Option<SoundView>, guild: u64, user: u64, may_manage: bool) -> DeleteOutcome {
    match found {
        None => DeleteOutcome::NotFound,
        Some(s) => if !s.owned_by(user) && s.server_id != guild {
            DeleteOutcome::NotYours
        } else if s.owned_by(user) || may_manage {
            DeleteOutcome::Deleted
        } else {
            DeleteOutcome::AdminsOnly
        },
    }
}

/// Deletes the first sound that answers `name`, if the caller may: their own sounds
/// always, those of their guild where they manage it.
pub fn delete_sound(
    store: &mut SoundStore,
    name: &str,
    guild_id: u64,
    user_id: u64,
    may_manage: bool,
    tie_break: u64,
) -> (outcome: DeleteOutcome)
    requires
        old(store).wf(),
    ensures
        final(store).wf(),
        ({
            let found = old(store)@.first_hit(name@, guild_id, user_id, tie_break as nat);
            &&& outcome == delete_verdict(found, guild_id, user_id, may_manage)
            &&& outcome == DeleteOutcome::Deleted ==> final(store)@ == old(store)@.without_sound(
                found.unwrap().id,
            )
            &&& outcome != DeleteOutcome::Deleted ==> final(store)@ == old(store)@
        }),
{
    match store.first_hit(name, guild_id, user_id, tie_break) {
        None => DeleteOutcome::NotFound,
        Some(sound) => {
            let own = sound.owned_by(user_id);
            if !own && sound.server_id != guild_id {
                DeleteOutcome::NotYours
            } else if own || may_manage {
                sound.delete(store);
                DeleteOutcome::Deleted
            } else {
                DeleteOutcome::AdminsOnly
            }
        },
    }
}

/// How a request to make a sound public or private ended.
#[derive(Clone, Copy, Debug, PartialEq, Eq, Structural)]
pub enum PublicOutcome {
    /// No sound answers the query.
    NotFound,
    /// The sound is not the caller's own.
    NotYours,
    /// The sound was public and is private now.
    MadePrivate,
    /// The sound was private and is public now.
    MadePublic,
}

/// What a request of `user` to flip `found` between public and private comes to.
pub open spec fn public_verdict(found: Option<SoundView>, user: u64) -> PublicOutcome {
    match found {
        None => PublicOutcome::NotFound,
        Some(s) => if !s.owned_by(user) {
            PublicOutcome::NotYours
        } else if s.public {
            PublicOutcome::MadePrivate
        } else {
            PublicOutcome::MadePublic
        },
    }
}

/// Flips the first sound that answers `name` between public and private, if it is the
/// caller's own.
pub fn change_public(store: &mut SoundStore, name: &str, guild_id: u64, user_id: u64, tie_break: u64) -> (outcome:
    PublicOutcome)
    requires
        old(store).wf(),
    ensures
        final(store).wf(),
        ({
            let found = old(store)@.first_hit(name@, guild_id, user_id, tie_break as nat);
            &&& outcome == public_verdict(found, user_id)
            &&& outcome == PublicOutcome::MadePrivate ==> final(store)@
                == old(store)@.with_visibility(found.unwrap().id, false)
            &&& outcome == PublicOutcome::MadePublic ==> final(store)@
                == old(store)@.with_visibility(found.unwrap().id, true)
            &&& (outcome == PublicOutcome::NotFound || outcome == PublicOutcome::NotYours)
                ==> final(store)@ == old(store)@
        }),
{
    match store.first_hit(name, guild_id, user_id, tie_break) {
        None => PublicOutcome::NotFound,
        Some(sound) => {
            if !sound.owned_by(user_id) {
                PublicOutcome::NotYours
            } else {
                let mut sound = sound;
                let was_public = sound.public;
                sound.public = !was_public;
                sound.commit(store);
                if was_public {
                    PublicOutcome::MadePrivate
                } else {
                    PublicOutcome::MadePublic
                }
            }
        },
    }
}

/// The name of the file under which the sound `s` is handed out.
pub open spec fn file_name(s: SoundView) -> Seq<char> {
    decimal(s.id as nat) + "-"@ + s.name + ".opus"@
}

/// The name of the file under which `sound` is handed out: its id, its name, `.opus`.
pub fn download_name(sound: &Sound) -> (name: String)
    ensures
        name@ == file_name(sound@),
{
    let mut name = String::new();
    push_decimal(&mut name, sound.id as u64);
    name.append("-");
    name.append(sound.name.as_str());
    name.append(".opus");
    assert(name@ =~= file_name(sound@));
    name
}

/// A sound to hand out as a file, and the name of the file.
#[derive(Debug)]
pub struct Download {
    pub sound: Sound,
    pub file_name: String,
}

/// Finds the sound to hand out for `name`: the first that a strict search returns.
pub fn download_file(store: &SoundStore, name: &str, guild_id: u64, user_id: u64, tie_break: u64) -> (r:
    Option<Download>)
    ensures
        match store@.first_hit(name@, guild_id, user_id, tie_break as nat) {
            None => r is None,
            Some(s) => r matches Some(d) && d.sound@ == s && d.file_name@ == file_name(s),
        },
{
    match store.first_hit(name, guild_id, user_id, tie_break) {
        None => None,
        Some(sound) => {
            let file_name = download_name(&sound);
            Some(Download { sound, file_name })
        },
    }
}

/// What the caller is told about an upload, where nobody may hold more than `max_sounds`
/// sounds unless they are a patron.
pub open spec fn upload_text(outcome: UploadOutcome, max_sounds: u64) -> Seq<char> {
    match outcome {
        UploadOutcome::Refused(UploadRuling::BadName) => "Usage: `/upload <name>`. Please ensure the name provided is less than 20 characters in length"@,
        UploadOutcome::Refused(UploadRuling::LeadingAt) => "Sound names cannot start with an @ symbol. Please choose another name"@,
        UploadOutcome::Refused(UploadRuling::NumericName) => "Please ensure the sound name contains a non-numerical character"@,
        UploadOutcome::Refused(UploadRuling::NameTaken) => "You are already using that name. Please choose a unique name for your upload."@,
        UploadOutcome::Refused(_) => "You have reached the maximum number of sounds ("@ + decimal(
            max_sounds as nat,
        )
            + "). Either delete some with `/delete` or join our Patreon for unlimited uploads at **https://patreon.com/jellywx**"@,
        UploadOutcome::Uploaded => "Sound has been uploaded"@,
        UploadOutcome::Failed(_) => "Sound failed to upload."@,
    }
}

/// What the caller is told about an upload.
pub fn upload_message(outcome: UploadOutcome, max_sounds: u64) -> (text: String)
    ensures
        text@ == upload_text(outcome, max_sounds),
{
    match outcome {
        UploadOutcome::Refused(UploadRuling::BadName) => String::from_str(
            "Usage: `/upload <name>`. Please ensure the name provided is less than 20 characters in length",
        ),
        UploadOutcome::Refused(UploadRuling::LeadingAt) => String::from_str(
            "Sound names cannot start with an @ symbol. Please choose another name",
        ),
        UploadOutcome::Refused(UploadRuling::NumericName) => String::from_str(
            "Please ensure the sound name contains a non-numerical character",
        ),
        UploadOutcome::Refused(UploadRuling::NameTaken) => String::from_str(
            "You are already using that name. Please choose a unique name for your upload.",
        ),
        UploadOutcome::Refused(_) => {
            let mut text = String::from_str("You have reached the maximum number of sounds (");
            push_decimal(&mut text, max_sounds);
            text.append(
                "). Either delete some with `/delete` or join our Patreon for unlimited uploads at **https://patreon.com/jellywx**",
            );
            assert(text@ =~= upload_text(outcome, max_sounds));
            text
        },
        UploadOutcome::Uploaded => String::from_str("Sound has been uploaded"),
        UploadOutcome::Failed(_) => String::from_str("Sound failed to upload."),
    }
}

/// What the caller is told about a request to delete a sound.
pub fn delete_message(outcome: DeleteOutcome) -> (text: &'static str)
    ensures
        text@ == (match outcome {
            DeleteOutcome::NotFound => "Sound could not be found by that name."@,
            DeleteOutcome::NotYours => "You can only delete sounds from this guild or that you have uploaded."@,
            DeleteOutcome::AdminsOnly => "Only server admins can delete sounds uploaded by other users."@,
            DeleteOutcome::Deleted => "Sound has been deleted"@,
        }),
{
    match outcome {
        DeleteOutcome::NotFound => "Sound could not be found by that name.",
        DeleteOutcome::NotYours => "You can only delete sounds from this guild or that you have uploaded.",
        DeleteOutcome::AdminsOnly => "Only server admins can delete sounds uploaded by other users.",
        DeleteOutcome::Deleted => "Sound has been deleted",
    }
}

/// What the caller is told about a request to make a sound public or private.
pub fn public_message(outcome: PublicOutcome) -> (text: &'static str)
    ensures
        text@ == (match outcome {
            PublicOutcome::NotFound => "Sound could not be found by that name."@,
            PublicOutcome::NotYours => "You can only change the visibility of sounds you have uploaded. Use `/list` to view your sounds"@,
            PublicOutcome::MadePrivate => "Sound has been set to private 🔒"@,
            PublicOutcome::MadePublic => "Sound has been set to public 🔓"@,
        }),
{
    match outcome {
        PublicOutcome::NotFound => "Sound could not be found by that name.",
        PublicOutcome::NotYours => "You can only change the visibility of sounds you have uploaded. Use `/list` to view your sounds",
        PublicOutcome::MadePrivate => "Sound has been set to private 🔒",
        PublicOutcome::MadePublic => "Sound has been set to public 🔓",
    }
}

} // verus!
