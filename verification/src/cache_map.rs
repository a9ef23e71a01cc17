use crate::guild_data::{GuildData, GuildDataView};
use dashmap::DashMap;
use vstd::prelude::*;

verus! {

/// `dashmap::DashMap`: a hash map that is carried through as it is. What one holds is
/// known only by the names below and by what the wrappers say of them.
#[verifier::external_type_specification]
#[verifier::external_body]
#[verifier::reject_recursive_types(K)]
#[verifier::reject_recursive_types(V)]
#[verifier::reject_recursive_types(S)]
pub struct ExDashMap<K, V, S>(DashMap<K, V, S>);

/// What a map of cached join-sound answers holds: for each user an inner map, from the
/// scope asked about to the answer that was given.
pub uninterp spec fn binding_entries(
    m: DashMap<u64, DashMap<Option<u64>, Option<u32>>>,
) -> Map<u64, Map<Option<u64>, Option<u32>>>;

/// The answer that `e` holds for `user` in `scope`, if it holds one.
pub open spec fn cached_in(
    e: Map<u64, Map<Option<u64>, Option<u32>>>,
    user: u64,
    scope: Option<u64>,
) -> Option<Option<u32>> {
    if e.contains_key(user) && e[user].contains_key(scope) {
        Some(e[user][scope])
    } else {
        None
    }
}

/// `e` after `answer` was put under `user` and `scope`, into the inner map of `user` or,
/// where `user` had none, into a new one.
pub open spec fn with_binding(
    e: Map<u64, Map<Option<u64>, Option<u32>>>,
    user: u64,
    scope: Option<u64>,
    answer: Option<u32>,
) -> Map<u64, Map<Option<u64>, Option<u32>>> {
    let inner = if e.contains_key(user) {
        e[user]
    } else {
        Map::empty()
    };
    e.insert(user, inner.insert(scope, answer))
}

/// `DashMap::new`: the map it makes holds no entry.
#[verifier::external_body]
pub(crate) fn new_binding_map() -> (m: DashMap<u64, DashMap<Option<u64>, Option<u32>>>)
    ensures
        binding_entries(m) =~= Map::empty(),
{
    DashMap::new()
}

/// `DashMap::get` on the outer map and then on the inner one: the value under `user` and
/// `scope`, where both keys are present, and nothing where either is missing.
#[verifier::external_body]
pub(crate) fn get_binding(
    m: &DashMap<u64, DashMap<Option<u64>, Option<u32>>>,
    user: u64,
    scope: Option<u64>,
) -> (r: Option<Option<u32>>)
    ensures
        r == cached_in(binding_entries(*m), user, scope),
{
    match m.get(&user) {
        Some(inner) => match inner.get(&scope) {
            Some(answer) => Some(*answer.value()),
            None => None,
        },
        None => None,
    }
}

/// `DashMap::entry` with `Entry::or_default` on the outer map, then `DashMap::insert` on
/// the inner one: the inner map of `user` is made if it is missing, and `answer` replaces
/// whatever it held under `scope`. No other entry changes.
#[verifier::external_body]
pub(crate) fn put_binding(
    m: &mut DashMap<u64, DashMap<Option<u64>, Option<u32>>>,
    user: u64,
    scope: Option<u64>,
    answer: Option<u32>,
)
    ensures
        binding_entries(*final(m)) == with_binding(binding_entries(*old(m)), user, scope, answer),
{
    m.entry(user).or_default().insert(scope, answer);
}

/// What a map of cached guild settings holds: the settings by guild.
pub uninterp spec fn guild_entries(m: DashMap<u64, GuildData>) -> Map<u64, GuildDataView>;

/// `DashMap::new`: the map it makes holds no entry.
#[verifier::external_body]
pub(crate) fn new_guild_map() -> (m: DashMap<u64, GuildData>)
    ensures
        guild_entries(m) =~= Map::empty(),
{
    DashMap::new()
}

/// `DashMap::get`: a copy of the settings under `guild`, or nothing where the map has no
/// such key.
#[verifier::external_body]
pub(crate) fn get_guild(m: &DashMap<u64, GuildData>, guild: u64) -> (r: Option<GuildData>)
    ensures
        r is Some == guild_entries(*m).contains_key(guild),
        r matches Some(g) ==> g@ == guild_entries(*m)[guild],
{
    m.get(&guild).map(|found| found.value().clone())
}

/// `DashMap::insert`: `settings` stand under `guild` afterwards, in place of what stood
/// there. No other entry changes.
#[verifier::external_body]
pub(crate) fn put_guild(m: &mut DashMap<u64, GuildData>, guild: u64, settings: GuildData)
    ensures
        guild_entries(*final(m)) == guild_entries(*old(m)).insert(guild, settings@),
{
    m.insert(guild, settings);
}

} // verus!
