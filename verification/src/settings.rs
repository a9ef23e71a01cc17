use crate::data::{guild_settings, Data};
use crate::guild_data::{default_settings, AllowGreet, GuildDataView};
use crate::cache_map::with_binding;
use crate::join_sound::replaced;
use crate::sound::Sound;
use crate::text::{decimal, decimal_chars, push_chars, push_decimal};
use vstd::prelude::*;

verus! {

/// A change to the settings of a guild.
#[derive(Clone, Copy, Debug, PartialEq, Eq, Structural)]
pub enum SettingsChange {
    Volume(u8),
    Greets(AllowGreet),
}

/// The settings `before` of `guild` after `change`.
pub open spec fn changed(before: GuildDataView, guild: u64, change: SettingsChange) -> GuildDataView {
    match change {
        SettingsChange::Volume(volume) => GuildDataView { id: guild, volume, ..before },
        SettingsChange::Greets(allow_greets) => GuildDataView { id: guild, allow_greets, ..before },
    }
}

/// The table of settings after a lookup of `guild` that the cache could not answer made
/// the missing row.
pub open spec fn servers_after_lookup(
    cache: Map<u64, GuildDataView>,
    servers: Map<u64, GuildDataView>,
    guild: u64,
) -> Map<u64, GuildDataView> {
    if cache.contains_key(guild) || servers.contains_key(guild) {
        servers
    } else {
        servers.insert(guild, default_settings(guild))
    }
}

/// The table of settings after `row` was committed: written over the row of its guild,
/// where there is one.
pub open spec fn committed(servers: Map<u64, GuildDataView>, row: GuildDataView) -> Map<
    u64,
    GuildDataView,
> {
    if servers.contains_key(row.id) {
        servers.insert(row.id, row)
    } else {
        servers
    }
}

/// Changes the settings of `guild_id`: in the cache first, then in the table.
fn change_settings(data: &mut Data, guild_id: u64, change: SettingsChange)
    requires
        old(data).database.servers.wf(),
    ensures
        final(data).database.servers.wf(),
        ({
            let before = guild_settings(
                old(data).guild_cache(),
                old(data).database.servers@,
                guild_id,
            );
            let after = changed(before, guild_id, change);
            &&& final(data).guild_cache() == old(data).guild_cache().insert(guild_id, after)
            &&& final(data).database.servers@ == committed(
                servers_after_lookup(
                    old(data).guild_cache(),
                    old(data).database.servers@,
                    guild_id,
                ),
                after,
            )
        }),
        final(data).database.sounds == old(data).database.sounds,
        final(data).database.join_sounds == old(data).database.join_sounds,
        final(data).join_cache() == old(data).join_cache(),
{
    let mut settings = data.guild_data(guild_id);
    settings.id = guild_id;
    match change {
        SettingsChange::Volume(volume) => {
            settings.volume = volume;
        },
        SettingsChange::Greets(allow_greets) => {
            settings.allow_greets = allow_greets;
        },
    }
    data.set_guild_data(settings.clone());
    settings.commit(&mut data.database.servers);
    assert(data.guild_cache() =~= old(data).guild_cache().insert(guild_id, settings@));
}

/// The greatest volume that a guild can have, in percent.
pub const MAX_VOLUME: u8 = 100;

/// How a request about the volume ended.
#[derive(Clone, Copy, Debug, PartialEq, Eq)]
pub enum VolumeOutcome {
    /// No volume was asked for: this one is in force.
    Current(u8),
    /// The volume is this one now.
    Changed(u8),
    /// The volume asked for is over `MAX_VOLUME`: nothing was changed.
    Refused(usize),
}

/// What a request for `volume` comes to in a guild whose volume is `current`.
pub open spec fn volume_verdict(volume: Option<usize>, current: u8) -> VolumeOutcome {
    match volume {
        None => VolumeOutcome::Current(current),
        Some(v) => if v <= MAX_VOLUME {
            VolumeOutcome::Changed(v as u8)
        } else {
            VolumeOutcome::Refused(v)
        },
    }
}

/// Sets the volume of `guild_id` to `volume` percent, or with `None` reports the volume in
/// force. A volume over `MAX_VOLUME` is refused: neither the cache nor the table changes.
pub fn change_volume(data: &mut Data, guild_id: u64, volume: Option<usize>) -> (outcome:
    VolumeOutcome)
    requires
        old(data).database.servers.wf(),
    ensures
        final(data).database.servers.wf(),
        ({
            let before = guild_settings(
                old(data).guild_cache(),
                old(data).database.servers@,
                guild_id,
            );
            let servers = servers_after_lookup(
                old(data).guild_cache(),
                old(data).database.servers@,
                guild_id,
            );
            &&& outcome == volume_verdict(volume, before.volume)
            &&& match outcome {
                VolumeOutcome::Current(_) => {
                    &&& final(data).guild_cache() == old(data).guild_cache().insert(
                        guild_id,
                        before,
                    )
                    &&& final(data).database.servers@ == servers
                },
                VolumeOutcome::Changed(v) => {
                    let after = changed(before, guild_id, SettingsChange::Volume(v));
                    &&& v <= MAX_VOLUME
                    &&& final(data).guild_cache() == old(data).guild_cache().insert(guild_id, after)
                    &&& final(data).database.servers@ == committed(servers, after)
                },
                VolumeOutcome::Refused(_) => {
                    &&& final(data).guild_cache() == old(data).guild_cache()
                    &&& final(data).database.servers@ == old(data).database.servers@
                },
            }
        }),
        final(data).database.sounds == old(data).database.sounds,
        final(data).database.join_sounds == old(data).database.join_sounds,
        final(data).join_cache() == old(data).join_cache(),
{
    match volume {
        Some(v) => {
            if v > MAX_VOLUME as usize {
                return VolumeOutcome::Refused(v);
            }
            change_settings(data, guild_id, SettingsChange::Volume(v as u8));
            VolumeOutcome::Changed(v as u8)
        },
        None => {
            let settings = data.guild_data(guild_id);
            VolumeOutcome::Current(settings.volume)
        },
    }
}

/// What the caller is told about a request about the volume.
pub open spec fn volume_text(outcome: VolumeOutcome) -> Seq<char> {
    match outcome {
        VolumeOutcome::Current(volume) => "Current server volume: "@ + decimal(volume as nat)
            + "%. Change the volume with `/volume <new volume>`"@,
        VolumeOutcome::Changed(volume) => "Volume changed to "@ + decimal(volume as nat) + "%"@,
        VolumeOutcome::Refused(volume) => "Volume not changed: "@ + decimal(volume as nat)
            + "% is more than 100%"@,
    }
}

/// What the caller is told about a request about the volume.
pub fn volume_message(outcome: VolumeOutcome) -> (text: String)
    ensures
        text@ == volume_text(outcome),
{
    match outcome {
        VolumeOutcome::Current(volume) => {
            let mut text = String::from_str("Current server volume: ");
            push_decimal(&mut text, volume as u64);
            text.append("%. Change the volume with `/volume <new volume>`");
            assert(text@ =~= volume_text(outcome));
            text
        },
        VolumeOutcome::Changed(volume) => {
            let mut text = String::from_str("Volume changed to ");
            push_decimal(&mut text, volume as u64);
            text.append("%");
            assert(text@ =~= volume_text(outcome));
            text
        },
        VolumeOutcome::Refused(volume) => {
            let mut text = String::from_str("Volume not changed: ");
            let number = decimal_chars(volume as u128);
            push_chars(&mut text, &number);
            text.append("% is more than 100%");
            assert(text@ =~= volume_text(outcome));
            text
        },
    }
}

/// Disables every greet sound in `guild_id`.
pub fn disable_greet_sound(data: &mut Data, guild_id: u64) -> (text: String)
    requires
        old(data).database.servers.wf(),
    ensures
        final(data).database.servers.wf(),
        text@ == "Greet sounds have been disabled in this server"@,
        greets_set(*old(data), *final(data), guild_id, AllowGreet::Disabled),
{
    change_settings(data, guild_id, SettingsChange::Greets(AllowGreet::Disabled));
    String::from_str("Greet sounds have been disabled in this server")
}

/// Enables in `guild_id` the greet sounds that were set for the guild itself, and no other.
pub fn enable_guild_greet_sound(data: &mut Data, guild_id: u64) -> (text: String)
    requires
        old(data).database.servers.wf(),
    ensures
        final(data).database.servers.wf(),
        text@
            == "Greet sounds have been partially enable in this server. Use \"/greet server set\" to configure server greet sounds."@,
        greets_set(*old(data), *final(data), guild_id, AllowGreet::GuildOnly),
{
    change_settings(data, guild_id, SettingsChange::Greets(AllowGreet::GuildOnly));
    String::from_str(
        "Greet sounds have been partially enable in this server. Use \"/greet server set\" to configure server greet sounds.",
    )
}

/// Enables every greet sound in `guild_id`.
pub fn enable_greet_sound(data: &mut Data, guild_id: u64) -> (text: String)
    requires
        old(data).database.servers.wf(),
    ensures
        final(data).database.servers.wf(),
        text@ == "Greet sounds have been enable in this server"@,
        greets_set(*old(data), *final(data), guild_id, AllowGreet::Enabled),
{
    change_settings(data, guild_id, SettingsChange::Greets(AllowGreet::Enabled));
    String::from_str("Greet sounds have been enable in this server")
}

/// Whether `after` is `before` with the greet policy of `guild` set to `policy`, in the
/// cache and in the table, and nothing else changed.
pub open spec fn greets_set(before: Data, after: Data, guild: u64, policy: AllowGreet) -> bool {
    let settings = changed(
        guild_settings(before.guild_cache(), before.database.servers@, guild),
        guild,
        SettingsChange::Greets(policy),
    );
    &&& after.guild_cache() == before.guild_cache().insert(guild, settings)
    &&& after.database.servers@ == committed(
        servers_after_lookup(before.guild_cache(), before.database.servers@, guild),
        settings,
    )
    &&& after.database.sounds == before.database.sounds
    &&& after.database.join_sounds == before.database.join_sounds
    &&& after.join_cache() == before.join_cache()
}

/// How a request to set or unset a greet sound ended.
#[derive(Debug)]
pub enum GreetOutcome {
    /// The caller asked for another member and does not manage the guild.
    AdminsOnly,
    /// No sound answers the query.
    NotFound,
    /// This sound greets the member from now on.
    Bound(Sound),
    /// No sound greets the member any more.
    Unset,
}

/// Whether `after` is `before` with the greet sound of `user` in `scope` set to `sound`,
/// in the cache and in the table, and nothing else changed.
pub open spec fn greet_bound(
    before: Data,
    after: Data,
    user: u64,
    scope: Option<u64>,
    sound: Option<u32>,
) -> bool {
    &&& after.join_cache() == with_binding(before.join_cache(), user, scope, sound)
    &&& after.database.join_sounds@ == replaced(before.database.join_sounds@, user, scope, sound)
    &&& after.database.sounds == before.database.sounds
    &&& after.database.servers == before.database.servers
    &&& after.guild_cache() == before.guild_cache()
}

/// Whether `after` holds what `before` held of join sounds.
pub open spec fn greets_kept(before: Data, after: Data) -> bool {
    &&& after.join_cache() == before.join_cache()
    &&& after.database.join_sounds@ == before.database.join_sounds@
    &&& after.database.sounds == before.database.sounds
    &&& after.database.servers == before.database.servers
    &&& after.guild_cache() == before.guild_cache()
}

/// Binds the first sound that answers `name` as the greet sound of `user` in `guild_id`.
/// Only who manages the guild may do so for another member.
pub fn set_guild_greet_sound(
    data: &mut Data,
    name: &str,
    user: u64,
    author: u64,
    guild_id: u64,
    may_manage: bool,
    tie_break: u64,
) -> (outcome: GreetOutcome)
    requires
        old(data).database.join_sounds.wf(),
    ensures
        final(data).database.join_sounds.wf(),
        if user != author && !may_manage {
            outcome is AdminsOnly && greets_kept(*old(data), *final(data))
        } else {
            match old(data).database.sounds@.first_hit(name@, guild_id, author, tie_break as nat) {
                None => outcome is NotFound && greets_kept(*old(data), *final(data)),
                Some(s) => outcome matches GreetOutcome::Bound(sound) && sound@ == s && greet_bound(
                    *old(data),
                    *final(data),
                    user,
                    Some(guild_id),
                    Some(s.id),
                ),
            }
        },
{
    if user != author && !may_manage {
        return GreetOutcome::AdminsOnly;
    }
    match data.database.sounds.first_hit(name, guild_id, author, tie_break) {
        None => GreetOutcome::NotFound,
        Some(sound) => {
            data.update_join_sound(user, Some(guild_id), Some(sound.id));
            GreetOutcome::Bound(sound)
        },
    }
}

/// Unbinds the greet sound of `user` in `guild_id`. Only who manages the guild may do so
/// for another member.
pub fn unset_guild_greet_sound(
    data: &mut Data,
    user: u64,
    author: u64,
    guild_id: u64,
    may_manage: bool,
) -> (outcome: GreetOutcome)
    requires
        old(data).database.join_sounds.wf(),
    ensures
        final(data).database.join_sounds.wf(),
        if user != author && !may_manage {
            outcome is AdminsOnly && greets_kept(*old(data), *final(data))
        } else {
            outcome is Unset && greet_bound(*old(data), *final(data), user, Some(guild_id), None)
        },
{
    if user != author && !may_manage {
        return GreetOutcome::AdminsOnly;
    }
    data.update_join_sound(user, Some(guild_id), None);
    GreetOutcome::Unset
}

/// Binds the first sound that answers `name` as the greet sound of `author` in every guild.
pub fn set_user_greet_sound(data: &mut Data, name: &str, author: u64, guild_id: u64, tie_break: u64) -> (outcome:
    GreetOutcome)
    requires
        old(data).database.join_sounds.wf(),
    ensures
        final(data).database.join_sounds.wf(),
        match old(data).database.sounds@.first_hit(name@, guild_id, author, tie_break as nat) {
            None => outcome is NotFound && greets_kept(*old(data), *final(data)),
            Some(s) => outcome matches GreetOutcome::Bound(sound) && sound@ == s && greet_bound(
                *old(data),
                *final(data),
                author,
                None,
                Some(s.id),
            ),
        },
{
    match data.database.sounds.first_hit(name, guild_id, author, tie_break) {
        None => GreetOutcome::NotFound,
        Some(sound) => {
            data.update_join_sound(author, None, Some(sound.id));
            GreetOutcome::Bound(sound)
        },
    }
}

/// Unbinds the greet sound that `author` has for every guild.
pub fn unset_user_greet_sound(data: &mut Data, author: u64) -> (outcome: GreetOutcome)
    requires
        old(data).database.join_sounds.wf(),
    ensures
        final(data).database.join_sounds.wf(),
        outcome is Unset,
        greet_bound(*old(data), *final(data), author, None, None),
{
    data.update_join_sound(author, None, None);
    GreetOutcome::Unset
}

/// What the caller is told about a request to set or unset a greet sound.
pub open spec fn greet_text(outcome: GreetOutcome) -> Seq<char> {
    match outcome {
        GreetOutcome::AdminsOnly => "Only admins can change other user's greet sounds."@,
        GreetOutcome::NotFound => "Could not find a sound by that name."@,
        GreetOutcome::Bound(sound) => "Greet sound has been set to "@ + sound@.name + " (ID "@
            + decimal(sound.id as nat) + ")"@,
        GreetOutcome::Unset => "Greet sound has been unset"@,
    }
}

/// What the caller is told about a request to set or unset a greet sound.
pub fn greet_message(outcome: &GreetOutcome) -> (text: String)
    ensures
        text@ == greet_text(*outcome),
{
    match outcome {
        GreetOutcome::AdminsOnly => String::from_str(
            "Only admins can change other user's greet sounds.",
        ),
        GreetOutcome::NotFound => String::from_str("Could not find a sound by that name."),
        GreetOutcome::Bound(sound) => {
            let mut text = String::from_str("Greet sound has been set to ");
            text.append(sound.name.as_str());
            text.append(" (ID ");
            push_decimal(&mut text, sound.id as u64);
            text.append(")");
            assert(text@ =~= greet_text(*outcome));
            text
        },
        GreetOutcome::Unset => String::from_str("Greet sound has been unset"),
    }
}

} // verus!
