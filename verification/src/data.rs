use crate::cache_map::{
    binding_entries, cached_in, get_binding, get_guild, guild_entries, new_binding_map,
    new_guild_map, put_binding, put_guild, with_binding,
};
use crate::events::greet_scope;
use crate::guild_data::{default_settings, AllowGreet, GuildData, GuildDataView, GuildTable};
use crate::sound::{Sound, SoundView};
use crate::join_sound::{replaced, resolve_binding, JoinSoundTable};
use crate::store::SoundStore;
use dashmap::DashMap;
use vstd::prelude::*;

verus! {

/// The relational store, table by table.
pub struct Database {
    pub sounds: SoundStore,
    pub servers: GuildTable,
    pub join_sounds: JoinSoundTable,
}

impl Database {
    /// Every table holds to its own rules.
    pub open spec fn wf(&self) -> bool {
        &&& self.sounds.wf()
        &&& self.servers.wf()
        &&& self.join_sounds.wf()
    }

    /// A store whose tables are all empty. Its first upload gets the id 1.
    pub fn new() -> (db: Database)
        ensures
            db.wf(),
            db.servers@ == Map::<u64, GuildDataView>::empty(),
            db.join_sounds@ == Map::<(u64, Option<u64>), u32>::empty(),
            db.sounds@.sounds == Seq::<SoundView>::empty(),
            db.sounds@.favorites == Seq::<(u64, u32)>::empty(),
            db.sounds@.next_id == 1,
    {
        Database {
            sounds: SoundStore::new(),
            servers: GuildTable::new(),
            join_sounds: JoinSoundTable::new(),
        }
    }
}

/// What was cached of the relational store: the settings of guilds, and the answers to
/// which sound greets whom. The maps are reached through `Data` alone.
pub struct Caches {
    guild_data_cache: DashMap<u64, GuildData>,
    join_sound_cache: DashMap<u64, DashMap<Option<u64>, Option<u32>>>,
}

impl Caches {
    /// The cached answers to which sound greets whom.
    pub closed spec fn join_cache(&self) -> Map<u64, Map<Option<u64>, Option<u32>>> {
        binding_entries(self.join_sound_cache)
    }

    /// The cached settings of guilds.
    pub closed spec fn guild_cache(&self) -> Map<u64, GuildDataView> {
        guild_entries(self.guild_data_cache)
    }

    /// Caches that hold nothing yet.
    pub fn new() -> (caches: Caches)
        ensures
            caches.join_cache() == Map::<u64, Map<Option<u64>, Option<u32>>>::empty(),
            caches.guild_cache() == Map::<u64, GuildDataView>::empty(),
    {
        Caches { guild_data_cache: new_guild_map(), join_sound_cache: new_binding_map() }
    }
}

/// The relational store together with what was cached of it.
pub struct Data {
    pub database: Database,
    pub caches: Caches,
}

/// What a lookup of the join sound of `user` in `scope` returns: the cached answer where
/// there is one, whatever it is, and else what the table resolves to.
pub open spec fn join_sound_answer(
    cache: Map<u64, Map<Option<u64>, Option<u32>>>,
    bindings: Map<(u64, Option<u64>), u32>,
    user: u64,
    scope: Option<u64>,
    guild_only: bool,
) -> Option<u32> {
    match cached_in(cache, user, scope) {
        Some(answer) => answer,
        None => resolve_binding(bindings, user, scope, guild_only),
    }
}

/// The cache after such a lookup: as before where it had the answer, and else with the
/// answer put in.
pub open spec fn join_cache_after(
    cache: Map<u64, Map<Option<u64>, Option<u32>>>,
    bindings: Map<(u64, Option<u64>), u32>,
    user: u64,
    scope: Option<u64>,
    guild_only: bool,
) -> Map<u64, Map<Option<u64>, Option<u32>>> {
    match cached_in(cache, user, scope) {
        Some(_) => cache,
        None => with_binding(cache, user, scope, resolve_binding(bindings, user, scope, guild_only)),
    }
}

/// The settings that a lookup of guild `id` returns: the cached ones, else the row of the
/// table, else the defaults.
pub open spec fn guild_settings(
    cache: Map<u64, GuildDataView>,
    servers: Map<u64, GuildDataView>,
    id: u64,
) -> GuildDataView {
    if cache.contains_key(id) {
        cache[id]
    } else if servers.contains_key(id) {
        servers[id]
    } else {
        default_settings(id)
    }
}

/// Once a join sound was set, a lookup of the same user in the same scope returns it,
/// whatever the table holds by then: the table is not asked.
pub proof fn lemma_update_then_lookup(
    cache: Map<u64, Map<Option<u64>, Option<u32>>>,
    bindings: Map<(u64, Option<u64>), u32>,
    user: u64,
    scope: Option<u64>,
    join_id: Option<u32>,
    guild_only: bool,
)
    ensures
        join_sound_answer(
            with_binding(cache, user, scope, join_id),
            bindings,
            user,
            scope,
            guild_only,
        ) == join_id,
{
}

/// A second lookup of the same user in the same scope returns what the first returned and
/// leaves the cache as it is, whatever the table holds by then: of two lookups at most the
/// first asks the table, also where the answer is that no sound is bound.
pub proof fn lemma_lookup_twice(
    cache: Map<u64, Map<Option<u64>, Option<u32>>>,
    first: Map<(u64, Option<u64>), u32>,
    second: Map<(u64, Option<u64>), u32>,
    user: u64,
    scope: Option<u64>,
    first_guild_only: bool,
    second_guild_only: bool,
)
    ensures
        ({
            let after = join_cache_after(cache, first, user, scope, first_guild_only);
            &&& cached_in(after, user, scope) is Some
            &&& join_sound_answer(after, second, user, scope, second_guild_only)
                == join_sound_answer(cache, first, user, scope, first_guild_only)
            &&& join_cache_after(after, second, user, scope, second_guild_only) == after
        }),
{
}

/// Caching an answer changes no answer but the one of its own user and scope.
pub proof fn lemma_other_answers_kept(
    cache: Map<u64, Map<Option<u64>, Option<u32>>>,
    user: u64,
    scope: Option<u64>,
    answer: Option<u32>,
    other_user: u64,
    other_scope: Option<u64>,
)
    requires
        other_user != user || other_scope != scope,
    ensures
        cached_in(with_binding(cache, user, scope, answer), other_user, other_scope) == cached_in(
            cache,
            other_user,
            other_scope,
        ),
{
}

/// Settings that were put into the cache are what the next lookup of their guild returns,
/// whatever the table holds: a change is seen before it is committed, and by everyone who
/// looks the guild up.
pub proof fn lemma_cached_settings_shared(
    cache: Map<u64, GuildDataView>,
    servers: Map<u64, GuildDataView>,
    guild: u64,
    settings: GuildDataView,
)
    ensures
        guild_settings(cache.insert(guild, settings), servers, guild) == settings,
{
}

impl Data {
    /// The cached answers to which sound greets whom.
    pub open spec fn join_cache(&self) -> Map<u64, Map<Option<u64>, Option<u32>>> {
        self.caches.join_cache()
    }

    /// The cached settings of guilds.
    pub open spec fn guild_cache(&self) -> Map<u64, GuildDataView> {
        self.caches.guild_cache()
    }

    /// `database` with nothing cached of it yet.
    pub fn new(database: Database) -> (data: Data)
        ensures
            data.database == database,
            data.join_cache() == Map::<u64, Map<Option<u64>, Option<u32>>>::empty(),
            data.guild_cache() == Map::<u64, GuildDataView>::empty(),
    {
        Data { database, caches: Caches::new() }
    }

    /// The cached answer to which sound greets `user_id` in `guild_id`: `None` where the
    /// question was not asked yet, `Some(None)` where the answer was that none does.
    pub fn cached_join_sound(&self, user_id: u64, guild_id: Option<u64>) -> (r: Option<
        Option<u32>,
    >)
        ensures
            r == cached_in(self.join_cache(), user_id, guild_id),
    {
        get_binding(&self.caches.join_sound_cache, user_id, guild_id)
    }

    /// The sound that greets `user_id` on joining a voice channel in `guild_id`. A cached
    /// answer is returned as it is and the table is not read. Without one the table
    /// decides, and its answer is cached, also where it is that no sound does.
    pub fn join_sound(&mut self, user_id: u64, guild_id: Option<u64>, guild_only: bool) -> (r:
        Option<u32>)
        requires
            old(self).database.join_sounds.wf(),
        ensures
            r == join_sound_answer(
                old(self).join_cache(),
                old(self).database.join_sounds@,
                user_id,
                guild_id,
                guild_only,
            ),
            final(self).join_cache() == join_cache_after(
                old(self).join_cache(),
                old(self).database.join_sounds@,
                user_id,
                guild_id,
                guild_only,
            ),
            final(self).database == old(self).database,
            final(self).guild_cache() == old(self).guild_cache(),
    {
        match get_binding(&self.caches.join_sound_cache, user_id, guild_id) {
            Some(answer) => answer,
            None => {
                let answer = self.database.join_sounds.resolve(user_id, guild_id, guild_only);
                put_binding(&mut self.caches.join_sound_cache, user_id, guild_id, answer);
                answer
            },
        }
    }

    /// Sets, or with `None` unsets, the sound that greets `user_id` in `guild_id`. The
    /// cache takes the new answer first, then the table has the binding replaced.
    pub fn update_join_sound(&mut self, user_id: u64, guild_id: Option<u64>, join_id: Option<u32>)
        requires
            old(self).database.join_sounds.wf(),
        ensures
            final(self).database.join_sounds.wf(),
            final(self).join_cache() == with_binding(
                old(self).join_cache(),
                user_id,
                guild_id,
                join_id,
            ),
            final(self).database.join_sounds@ == replaced(
                old(self).database.join_sounds@,
                user_id,
                guild_id,
                join_id,
            ),
            final(self).database.sounds == old(self).database.sounds,
            final(self).database.servers == old(self).database.servers,
            final(self).guild_cache() == old(self).guild_cache(),
    {
        put_binding(&mut self.caches.join_sound_cache, user_id, guild_id, join_id);
        self.database.join_sounds.replace(user_id, guild_id, join_id);
    }

    /// The cached settings of guild `guild_id`, if any are cached.
    pub fn cached_guild_data(&self, guild_id: u64) -> (r: Option<GuildData>)
        ensures
            r is Some == self.guild_cache().contains_key(guild_id),
            r matches Some(g) ==> g@ == self.guild_cache()[guild_id],
    {
        get_guild(&self.caches.guild_data_cache, guild_id)
    }

    /// The settings of guild `guild_id`. Cached settings are returned as they are. Without
    /// them the table is read, a row of default settings is made where the guild has none,
    /// and what was found is cached.
    pub fn guild_data(&mut self, guild_id: u64) -> (g: GuildData)
        requires
            old(self).database.servers.wf(),
        ensures
            final(self).database.servers.wf(),
            g@ == guild_settings(old(self).guild_cache(), old(self).database.servers@, guild_id),
            final(self).guild_cache() == old(self).guild_cache().insert(guild_id, g@),
            final(self).database.servers@ == (if old(self).guild_cache().contains_key(guild_id)
                || old(self).database.servers@.contains_key(guild_id) {
                old(self).database.servers@
            } else {
                old(self).database.servers@.insert(guild_id, default_settings(guild_id))
            }),
            final(self).database.sounds == old(self).database.sounds,
            final(self).database.join_sounds == old(self).database.join_sounds,
            final(self).join_cache() == old(self).join_cache(),
    {
        match get_guild(&self.caches.guild_data_cache, guild_id) {
            Some(g) => {
                assert(self.guild_cache() =~= self.guild_cache().insert(guild_id, g@));
                g
            },
            None => {
                let g = GuildData::from_id(guild_id, &mut self.database.servers);
                put_guild(&mut self.caches.guild_data_cache, guild_id, g.clone());
                g
            },
        }
    }

    /// Puts `settings` in place of the cached settings of their guild. The table is not
    /// written: that is what `GuildData::commit` does.
    pub fn set_guild_data(&mut self, settings: GuildData)
        ensures
            final(self).guild_cache() == old(self).guild_cache().insert(settings.id, settings@),
            final(self).database == old(self).database,
            final(self).join_cache() == old(self).join_cache(),
    {
        let id = settings.id;
        put_guild(&mut self.caches.guild_data_cache, id, settings);
    }
}

/// What greets a member who joins a voice channel: the sound, and how loud to play it.
#[derive(Debug)]
pub struct Greeting {
    pub sound: Sound,
    pub volume: u8,
}

/// The id of the sound that greets `user` in `guild`, whose settings are `settings`, if
/// the guild allows greets and a sound is bound.
pub open spec fn greeting_id(
    settings: GuildDataView,
    cache: Map<u64, Map<Option<u64>, Option<u32>>>,
    bindings: Map<(u64, Option<u64>), u32>,
    user: u64,
    guild: u64,
) -> Option<u32> {
    if settings.allow_greets == AllowGreet::Disabled {
        None
    } else {
        join_sound_answer(
            cache,
            bindings,
            user,
            Some(guild),
            settings.allow_greets == AllowGreet::GuildOnly,
        )
    }
}

impl Data {
    /// What greets `user_id` on joining a voice channel of `guild_id`: nothing where the
    /// guild has greets disabled, where no sound is bound, or where the bound sound is
    /// gone; else the bound sound, at the volume of the guild.
    pub fn greeting(&mut self, user_id: u64, guild_id: u64) -> (r: Option<Greeting>)
        requires
            old(self).database.servers.wf(),
            old(self).database.join_sounds.wf(),
        ensures
            final(self).database.servers.wf(),
            final(self).database.join_sounds.wf(),
            final(self).database.sounds == old(self).database.sounds,
            final(self).database.join_sounds == old(self).database.join_sounds,
            ({
                let settings = guild_settings(
                    old(self).guild_cache(),
                    old(self).database.servers@,
                    guild_id,
                );
                let id = greeting_id(
                    settings,
                    old(self).join_cache(),
                    old(self).database.join_sounds@,
                    user_id,
                    guild_id,
                );
                &&& final(self).guild_cache() == old(self).guild_cache().insert(guild_id, settings)
                &&& final(self).join_cache() == (if settings.allow_greets == AllowGreet::Disabled {
                    old(self).join_cache()
                } else {
                    join_cache_after(
                        old(self).join_cache(),
                        old(self).database.join_sounds@,
                        user_id,
                        Some(guild_id),
                        settings.allow_greets == AllowGreet::GuildOnly,
                    )
                })
                &&& r matches Some(g) ==> id == Some(g.sound.id) && g.volume == settings.volume
                    && old(self).database.sounds@.sounds.contains(g.sound@)
                &&& r is None ==> id is None || forall|i: int|
                    0 <= i < old(self).database.sounds@.sounds.len() ==> Some(
                        (#[trigger] old(self).database.sounds@.sounds[i]).id,
                    ) != id
            }),
    {
        let settings = self.guild_data(guild_id);
        let guild_only = match greet_scope(settings.allow_greets) {
            Some(guild_only) => guild_only,
            None => { return None; },
        };
        let id = match self.join_sound(user_id, Some(guild_id), guild_only) {
            Some(id) => id,
            None => { return None; },
        };
        match self.database.sounds.sound_with_id(id) {
            Some(sound) => Some(Greeting { sound, volume: settings.volume }),
            None => None,
        }
    }
}

} // verus!
