use crate::error::ErrorTypes;
use crate::sound::Sound;
use crate::store::SoundStore;
use crate::text::{decimal, push_decimal};
use vstd::prelude::*;

verus! {

/// How a request to change the favorites ended.
#[derive(Debug)]
pub enum FavoriteOutcome {
    /// No sound answers the query.
    NotFound,
    /// The sound is a favorite of the caller now.
    Added(Sound),
    /// The sound is no favorite of the caller any more.
    Removed(Sound),
    /// The sound was found, and the store refused the change.
    Failed(ErrorTypes),
}

/// Marks the first sound that answers `name` a favorite of `user_id`.
pub fn add_favorite(store: &mut SoundStore, name: &str, guild_id: u64, user_id: u64, tie_break: u64) -> (outcome:
    FavoriteOutcome)
    requires
        old(store).wf(),
    ensures
        final(store).wf(),
        match old(store)@.first_hit(name@, guild_id, user_id, tie_break as nat) {
            None => outcome is NotFound && final(store)@ == old(store)@,
            Some(s) => if old(store)@.is_favorite(user_id, s.id) {
                outcome matches FavoriteOutcome::Failed(e) && e == ErrorTypes::StoreError
                    && final(store)@ == old(store)@
            } else {
                outcome matches FavoriteOutcome::Added(sound) && sound@ == s && final(store)@
                    == old(store)@.with_favorite(user_id, s.id)
            },
        },
{
    match store.first_hit(name, guild_id, user_id, tie_break) {
        None => FavoriteOutcome::NotFound,
        Some(sound) => match sound.add_favorite(user_id, store) {
            Ok(_) => FavoriteOutcome::Added(sound),
            Err(e) => FavoriteOutcome::Failed(e),
        },
    }
}

/// Takes the first sound that answers `name` off the favorites of `user_id`.
pub fn remove_favorite(store: &mut SoundStore, name: &str, guild_id: u64, user_id: u64, tie_break: u64) -> (outcome:
    FavoriteOutcome)
    requires
        old(store).wf(),
    ensures
        final(store).wf(),
        match old(store)@.first_hit(name@, guild_id, user_id, tie_break as nat) {
            None => outcome is NotFound && final(store)@ == old(store)@,
            Some(s) => outcome matches FavoriteOutcome::Removed(sound) && sound@ == s
                && final(store)@ == old(store)@.without_favorite(user_id, s.id),
        },
{
    match store.first_hit(name, guild_id, user_id, tie_break) {
        None => FavoriteOutcome::NotFound,
        Some(sound) => {
            sound.remove_favorite(user_id, store);
            FavoriteOutcome::Removed(sound)
        },
    }
}

/// What the caller is told about a request to change the favorites.
pub open spec fn favorite_text(outcome: FavoriteOutcome) -> Seq<char> {
    match outcome {
        FavoriteOutcome::NotFound => "Failed to find sound."@,
        FavoriteOutcome::Failed(_) => "Failed to find sound."@,
        FavoriteOutcome::Added(sound) => "Sound "@ + sound@.name + " (ID "@ + decimal(
            sound.id as nat,
        ) + ") added to favorites."@,
        FavoriteOutcome::Removed(sound) => "Sound "@ + sound@.name + " (ID "@ + decimal(
            sound.id as nat,
        ) + ") removed from favorites."@,
    }
}

/// What the caller is told about a request to change the favorites.
pub fn favorite_message(outcome: &FavoriteOutcome) -> (text: String)
    ensures
        text@ == favorite_text(*outcome),
{
    match outcome {
        FavoriteOutcome::NotFound => String::from_str("Failed to find sound."),
        FavoriteOutcome::Failed(_) => String::from_str("Failed to find sound."),
        FavoriteOutcome::Added(sound) => {
            let mut text = String::from_str("Sound ");
            text.append(sound.name.as_str());
            text.append(" (ID ");
            push_decimal(&mut text, sound.id as u64);
            text.append(") added to favorites.");
            assert(text@ =~= favorite_text(*outcome));
            text
        },
        FavoriteOutcome::Removed(sound) => {
            let mut text = String::from_str("Sound ");
            text.append(sound.name.as_str());
            text.append(" (ID ");
            push_decimal(&mut text, sound.id as u64);
            text.append(") removed from favorites.");
            assert(text@ =~= favorite_text(*outcome));
            text
        },
    }
}

} // verus!
