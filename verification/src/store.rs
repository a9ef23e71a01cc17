use crate::catalog::{
    ids_descending, lemma_filter_keeps_all, lemma_filter_removes, name_matches, page_of, rotated,
    Catalog,
};
use crate::error::ErrorTypes;
use crate::query::extract_id;
use crate::sound::{Sound, SoundView};
use crate::text::{chars_of, has_at, starts_at};
use vstd::prelude::*;

verus! {

/// The views of a run of sounds, in order.
pub open spec fn views(v: Seq<Sound>) -> Seq<SoundView> {
    v.map_values(|s: Sound| s@)
}

/// The sounds of the relational store and the favorites that users marked among them.
pub struct SoundStore {
    sounds: Vec<Sound>,
    favorites: Vec<(u64, u32)>,
    next_id: u64,
}

impl View for SoundStore {
    type V = Catalog;

    closed spec fn view(&self) -> Catalog {
        Catalog {
            sounds: views(self.sounds@),
            favorites: self.favorites@,
            next_id: self.next_id as nat,
        }
    }
}

/// Whether a name answers a search for `query`.
pub fn matches_name(name: &Vec<char>, query: &Vec<char>, strict: bool) -> (r: bool)
    ensures
        r == name_matches(name@, query@, strict),
{
    if strict {
        let r = name.len() == query.len() && starts_at(name, 0, query);
        assert(r ==> name@ =~= name@.subrange(0, query@.len() as int));
        assert(name@ == query@ ==> name@.subrange(0, name@.len() as int) =~= query@);
        return r;
    }
    if query.len() > name.len() {
        return false;
    }
    let last: usize = name.len() - query.len();
    let mut i: usize = 0;
    loop
        invariant
            !strict,
            last == name.len() - query.len(),
            i <= last,
            forall|k: int| 0 <= k < i ==> !has_at(name@, k, query@),
        decreases last - i,
    {
        if starts_at(name, i, query) {
            return true;
        }
        if i == last {
            return false;
        }
        i += 1;
    }
}

/// The sounds of `rows` whose flag is set, in order.
fn keep(rows: &Vec<Sound>, flags: &Vec<bool>, Ghost(p): Ghost<spec_fn(SoundView) -> bool>) -> (out:
    Vec<Sound>)
    requires
        flags.len() == rows.len(),
        forall|i: int| 0 <= i < rows.len() ==> flags[i] == p(#[trigger] rows[i]@),
    ensures
        views(out@) == views(rows@).filter(p),
{
    let mut out: Vec<Sound> = Vec::new();
    let mut i: usize = 0;
    proof {
        reveal(Seq::filter);
        assert(views(out@) =~= views(rows@).take(0).filter(p));
    }
    while i < rows.len()
        invariant
            i <= rows.len(),
            flags.len() == rows.len(),
            forall|i: int| 0 <= i < rows.len() ==> flags[i] == p(#[trigger] rows[i]@),
            views(out@) == views(rows@).take(i as int).filter(p),
        decreases rows.len() - i,
    {
        let ghost before = views(out@);
        proof {
            assert(views(rows@).take(i + 1) =~= views(rows@).take(i as int).push(rows[i as int]@));
            views(rows@).take(i as int).lemma_filter_push(rows[i as int]@, p);
        }
        if flags[i] {
            out.push(rows[i].clone());
            assert(views(out@) =~= before.push(rows[i as int]@));
        }
        i += 1;
    }
    assert(views(rows@).take(rows.len() as int) =~= views(rows@));
    out
}

/// Appends to `out` the sounds of `b`, turned by `k`.
fn append_rotated(out: &mut Vec<Sound>, b: &Vec<Sound>, k: u64)
    ensures
        views(final(out)@) == views(old(out)@) + rotated(views(b@), k as nat),
{
    let n = b.len();
    if n == 0 {
        assert(views(out@) =~= views(out@) + rotated(views(b@), k as nat));
        return ;
    }
    let m: usize = (k % (n as u64)) as usize;
    let ghost turned = rotated(views(b@), k as nat);
    assert(turned =~= views(b@).subrange(m as int, n as int) + views(b@).subrange(0, m as int));
    let mut i: usize = 0;
    while i < n
        invariant
            i <= n,
            n == b.len(),
            m < n,
            turned.len() == n,
            forall|j: int| 0 <= j < n - m ==> turned[j] == b[j + m]@,
            forall|j: int| n - m <= j < n ==> turned[j] == b[j - (n - m)]@,
            views(out@) == views(old(out)@) + turned.take(i as int),
        decreases n - i,
    {
        let ghost before = views(out@);
        let from: usize = if i < n - m {
            i + m
        } else {
            i - (n - m)
        };
        out.push(b[from].clone());
        assert(views(out@) =~= before.push(turned[i as int]));
        assert(turned.take(i + 1) =~= turned.take(i as int).push(turned[i as int]));
        i += 1;
    }
    assert(turned.take(n as int) =~= turned);
}

/// The sounds of `v` from `from` up to `to`.
fn copy_range(v: &Vec<Sound>, from: usize, to: usize) -> (out: Vec<Sound>)
    requires
        from <= to <= v.len(),
    ensures
        views(out@) == views(v@).subrange(from as int, to as int),
{
    let mut out: Vec<Sound> = Vec::new();
    let mut i: usize = from;
    assert(views(out@) =~= views(v@).subrange(from as int, from as int));
    while i < to
        invariant
            from <= i <= to <= v.len(),
            views(out@) == views(v@).subrange(from as int, i as int),
        decreases to - i,
    {
        let ghost before = views(out@);
        out.push(v[i].clone());
        assert(views(out@) =~= before.push(v[i as int]@));
        i += 1;
        assert(views(v@).subrange(from as int, i as int) =~= before.push(v[i - 1]@));
    }
    out
}

/// Page `page` of `all`, at 25 sounds a page.
fn page_of_sounds(all: &Vec<Sound>, page: u64) -> (out: Vec<Sound>)
    ensures
        views(out@) == page_of(views(all@), page as nat, 25),
{
    let len = all.len();
    let wanted: u128 = page as u128 * 25;
    let from: usize = if wanted < len as u128 {
        wanted as usize
    } else {
        len
    };
    let to: usize = if len - from > 25 {
        from + 25
    } else {
        len
    };
    copy_range(all, from, to)
}

fn listing_of(all: Vec<Sound>, page: Option<u64>) -> (out: Vec<Sound>)
    ensures
        views(out@) == Catalog::listing(views(all@), page),
{
    match page {
        Some(p) => page_of_sounds(&all, p),
        None => all,
    }
}

impl SoundStore {
    /// What every store holds to: see `Catalog::wf`.
    pub open spec fn wf(&self) -> bool {
        self@.wf()
    }

    /// A store with no sound and no favorite.
    pub fn new() -> (s: SoundStore)
        ensures
            s@.sounds == Seq::<SoundView>::empty(),
            s@.favorites == Seq::<(u64, u32)>::empty(),
            s@.next_id == 1,
            s.wf(),
    {
        let s = SoundStore { sounds: Vec::new(), favorites: Vec::new(), next_id: 1 };
        assert(s@.sounds =~= Seq::<SoundView>::empty());
        s
    }

    /// Whether `user` marked the sound with id `id` a favorite.
    pub fn is_favorite(&self, user: u64, id: u32) -> (r: bool)
        ensures
            r == self@.is_favorite(user, id),
    {
        let mut i: usize = 0;
        while i < self.favorites.len()
            invariant
                i <= self.favorites.len(),
                forall|k: int| 0 <= k < i ==> self.favorites@[k] != (user, id),
            decreases self.favorites.len() - i,
        {
            let pair = self.favorites[i];
            if pair.0 == user && pair.1 == id {
                assert(self.favorites@[i as int] == (user, id));
                return true;
            }
            i += 1;
        }
        false
    }

    fn by_id(&self, id: u32, guild: u64, user: u64) -> (out: Vec<Sound>)
        ensures
            views(out@) == self@.by_id(id, guild, user),
    {
        let mut flags: Vec<bool> = Vec::new();
        let mut i: usize = 0;
        while i < self.sounds.len()
            invariant
                i <= self.sounds.len(),
                flags.len() == i,
                forall|k: int|
                    0 <= k < i ==> flags[k] == Catalog::id_filter(id, guild, user)(
                        #[trigger] self.sounds[k]@,
                    ),
            decreases self.sounds.len() - i,
        {
            let s = &self.sounds[i];
            flags.push(s.id == id && s.visible_to(guild, user));
            i += 1;
        }
        keep(&self.sounds, &flags, Ghost(Catalog::id_filter(id, guild, user)))
    }

    fn named(&self, query: &Vec<char>, strict: bool, guild: u64, user: u64) -> (out: Vec<Sound>)
        ensures
            views(out@) == self@.named(query@, strict, guild, user),
    {
        let mut flags: Vec<bool> = Vec::new();
        let mut i: usize = 0;
        while i < self.sounds.len()
            invariant
                i <= self.sounds.len(),
                flags.len() == i,
                forall|k: int|
                    0 <= k < i ==> flags[k] == Catalog::name_filter(query@, strict, guild, user)(
                        #[trigger] self.sounds[k]@,
                    ),
            decreases self.sounds.len() - i,
        {
            let s = &self.sounds[i];
            let name = chars_of(s.name.as_str());
            flags.push(matches_name(&name, query, strict) && s.visible_to(guild, user));
            i += 1;
        }
        keep(&self.sounds, &flags, Ghost(Catalog::name_filter(query@, strict, guild, user)))
    }

    fn tier(&self, named: &Vec<Sound>, guild: u64, user: u64, r: u8) -> (out: Vec<Sound>)
        ensures
            views(out@) == views(named@).filter(self@.tier_filter(guild, user, r as nat)),
    {
        let mut flags: Vec<bool> = Vec::new();
        let mut i: usize = 0;
        while i < named.len()
            invariant
                i <= named.len(),
                flags.len() == i,
                forall|k: int|
                    0 <= k < i ==> flags[k] == self@.tier_filter(guild, user, r as nat)(
                        #[trigger] named[k]@,
                    ),
            decreases named.len() - i,
        {
            let s = &named[i];
            let favorite = self.is_favorite(user, s.id);
            flags.push(s.rank(guild, user, favorite) == r);
            i += 1;
        }
        keep(named, &flags, Ghost(self@.tier_filter(guild, user, r as nat)))
    }

    /// Searches the store for `query` on behalf of `user_id` in `guild_id`. Sounds of one
    /// rank come in an order that `tie_break` turns: hand in a number that changes from
    /// call to call.
    pub fn search_for_sound(
        &self,
        query: &str,
        guild_id: u64,
        user_id: u64,
        strict: bool,
        tie_break: u64,
    ) -> (found: Vec<Sound>)
        ensures
            views(found@) == self@.search(query@, guild_id, user_id, strict, tie_break as nat),
    {
        match extract_id(query) {
            Some(id) => self.by_id(id, guild_id, user_id),
            None => {
                let q = chars_of(query);
                let named = self.named(&q, strict, guild_id, user_id);
                let mut found: Vec<Sound> = Vec::new();
                let ghost full = self@.ranked(
                    query@,
                    strict,
                    guild_id,
                    user_id,
                    tie_break as nat,
                    16,
                );
                let mut r: u8 = 16;
                assert(views(found@) =~= Seq::<SoundView>::empty());
                while r > 0
                    invariant
                        r <= 16,
                        q@ == query@,
                        views(named@) == self@.named(query@, strict, guild_id, user_id),
                        views(found@) + self@.ranked(
                            query@,
                            strict,
                            guild_id,
                            user_id,
                            tie_break as nat,
                            r as nat,
                        ) == full,
                    decreases r,
                {
                    r -= 1;
                    let tier = self.tier(&named, guild_id, user_id, r);
                    let ghost before = views(found@);
                    append_rotated(&mut found, &tier, tie_break);
                    assert(views(found@) + self@.ranked(
                        query@,
                        strict,
                        guild_id,
                        user_id,
                        tie_break as nat,
                        r as nat,
                    ) =~= before + self@.ranked(
                        query@,
                        strict,
                        guild_id,
                        user_id,
                        tie_break as nat,
                        (r + 1) as nat,
                    ));
                }
                assert(views(found@) =~= full);
                found
            },
        }
    }
}

impl SoundStore {
    fn uploads_of(&self, user_id: u64) -> (out: Vec<Sound>)
        ensures
            views(out@) == self@.uploads_of(user_id),
    {
        let mut flags: Vec<bool> = Vec::new();
        let mut i: usize = 0;
        while i < self.sounds.len()
            invariant
                i <= self.sounds.len(),
                flags.len() == i,
                forall|k: int|
                    0 <= k < i ==> flags[k] == Catalog::owner_filter(user_id)(
                        #[trigger] self.sounds[k]@,
                    ),
            decreases self.sounds.len() - i,
        {
            flags.push(self.sounds[i].owned_by(user_id));
            i += 1;
        }
        keep(&self.sounds, &flags, Ghost(Catalog::owner_filter(user_id)))
    }

    fn sounds_of_guild(&self, guild_id: u64) -> (out: Vec<Sound>)
        ensures
            views(out@) == self@.sounds_of_guild(guild_id),
    {
        let mut flags: Vec<bool> = Vec::new();
        let mut i: usize = 0;
        while i < self.sounds.len()
            invariant
                i <= self.sounds.len(),
                flags.len() == i,
                forall|k: int|
                    0 <= k < i ==> flags[k] == Catalog::guild_filter(guild_id)(
                        #[trigger] self.sounds[k]@,
                    ),
            decreases self.sounds.len() - i,
        {
            flags.push(self.sounds[i].server_id == guild_id);
            i += 1;
        }
        keep(&self.sounds, &flags, Ghost(Catalog::guild_filter(guild_id)))
    }

    fn favorites_of(&self, user_id: u64) -> (out: Vec<Sound>)
        ensures
            views(out@) == self@.favorites_of(user_id),
    {
        let mut flags: Vec<bool> = Vec::new();
        let mut i: usize = 0;
        while i < self.sounds.len()
            invariant
                i <= self.sounds.len(),
                flags.len() == i,
                forall|k: int|
                    0 <= k < i ==> flags[k] == self@.favorite_filter(user_id)(
                        #[trigger] self.sounds[k]@,
                    ),
            decreases self.sounds.len() - i,
        {
            flags.push(self.is_favorite(user_id, self.sounds[i].id));
            i += 1;
        }
        keep(&self.sounds, &flags, Ghost(self@.favorite_filter(user_id)))
    }

    /// The sounds that `user_id` uploaded, most recent first: all of them, or one page.
    pub fn user_sounds(&self, user_id: u64, page: Option<u64>) -> (out: Vec<Sound>)
        ensures
            views(out@) == Catalog::listing(self@.uploads_of(user_id), page),
    {
        listing_of(self.uploads_of(user_id), page)
    }

    /// The favorites of `user_id`, most recent first: all of them, or one page.
    pub fn favorite_sounds(&self, user_id: u64, page: Option<u64>) -> (out: Vec<Sound>)
        ensures
            views(out@) == Catalog::listing(self@.favorites_of(user_id), page),
    {
        listing_of(self.favorites_of(user_id), page)
    }

    /// The sounds of `guild_id`, most recent first: all of them, or one page.
    pub fn guild_sounds(&self, guild_id: u64, page: Option<u64>) -> (out: Vec<Sound>)
        ensures
            views(out@) == Catalog::listing(self@.sounds_of_guild(guild_id), page),
    {
        listing_of(self.sounds_of_guild(guild_id), page)
    }

    /// How many sounds `user_id` uploaded.
    pub fn count_user_sounds(&self, user_id: u64) -> (n: u64)
        ensures
            n == self@.uploads_of(user_id).len(),
    {
        let all = self.uploads_of(user_id);
        assert(views(all@).len() == all@.len());
        all.len() as u64
    }

    /// How many sounds belong to `guild_id`.
    pub fn count_guild_sounds(&self, guild_id: u64) -> (n: u64)
        ensures
            n == self@.sounds_of_guild(guild_id).len(),
    {
        let all = self.sounds_of_guild(guild_id);
        assert(views(all@).len() == all@.len());
        all.len() as u64
    }

    /// How many favorites `user_id` marked, whether or not their sounds still exist.
    pub fn count_favorite_sounds(&self, user_id: u64) -> (n: u64)
        ensures
            n == self@.favorites.filter(Catalog::favorite_of(user_id)).len(),
    {
        let ghost p = Catalog::favorite_of(user_id);
        let mut n: usize = 0;
        let mut i: usize = 0;
        proof {
            reveal(Seq::filter);
            assert(self.favorites@.take(0).filter(p) =~= Seq::<(u64, u32)>::empty());
        }
        while i < self.favorites.len()
            invariant
                i <= self.favorites.len(),
                n <= i,
                p == Catalog::favorite_of(user_id),
                n == self.favorites@.take(i as int).filter(p).len(),
            decreases self.favorites.len() - i,
        {
            proof {
                assert(self.favorites@.take(i + 1) =~= self.favorites@.take(i as int).push(
                    self.favorites@[i as int],
                ));
                self.favorites@.take(i as int).lemma_filter_push(self.favorites@[i as int], p);
            }
            if self.favorites[i].0 == user_id {
                n += 1;
            }
            i += 1;
        }
        assert(self.favorites@.take(self.favorites.len() as int) =~= self.favorites@);
        n as u64
    }

    /// How many sounds `user_id` uploaded under exactly the name `name`.
    pub fn count_named_user_sounds(&self, user_id: u64, name: &str) -> (n: u64)
        ensures
            n == self@.uploads_named(user_id, name@).len(),
    {
        let wanted = chars_of(name);
        let mut flags: Vec<bool> = Vec::new();
        let mut i: usize = 0;
        while i < self.sounds.len()
            invariant
                i <= self.sounds.len(),
                flags.len() == i,
                wanted@ == name@,
                forall|k: int|
                    0 <= k < i ==> flags[k] == Catalog::named_owner_filter(user_id, name@)(
                        #[trigger] self.sounds[k]@,
                    ),
            decreases self.sounds.len() - i,
        {
            let s = &self.sounds[i];
            let called = chars_of(s.name.as_str());
            flags.push(s.owned_by(user_id) && matches_name(&called, &wanted, true));
            i += 1;
        }
        let all = keep(&self.sounds, &flags, Ghost(Catalog::named_owner_filter(user_id, name@)));
        assert(views(all@).len() == all@.len());
        all.len() as u64
    }

    /// Up to 25 sounds whose name begins with `query`, among those that `user_id` may see
    /// in `guild_id`.
    pub fn autocomplete_user_sounds(&self, query: &str, user_id: u64, guild_id: u64) -> (out: Vec<
        Sound,
    >)
        ensures
            views(out@) == self@.suggestions(query@, user_id, guild_id),
    {
        let prefix = chars_of(query);
        let mut flags: Vec<bool> = Vec::new();
        let mut i: usize = 0;
        while i < self.sounds.len()
            invariant
                i <= self.sounds.len(),
                flags.len() == i,
                prefix@ == query@,
                forall|k: int|
                    0 <= k < i ==> flags[k] == Catalog::prefix_filter(query@, guild_id, user_id)(
                        #[trigger] self.sounds[k]@,
                    ),
            decreases self.sounds.len() - i,
        {
            let s = &self.sounds[i];
            let called = chars_of(s.name.as_str());
            flags.push(starts_at(&called, 0, &prefix) && s.visible_to(guild_id, user_id));
            i += 1;
        }
        let all = keep(&self.sounds, &flags, Ghost(Catalog::prefix_filter(query@, guild_id, user_id)));
        page_of_sounds(&all, 0)
    }

    /// Up to 25 favorites of `user_id` whose name begins with `query`, among those that
    /// `user_id` may see in `guild_id`.
    pub fn autocomplete_favorite_sounds(&self, query: &str, user_id: u64, guild_id: u64) -> (out:
        Vec<Sound>)
        ensures
            views(out@) == self@.favorite_suggestions(query@, user_id, guild_id),
    {
        let prefix = chars_of(query);
        let mut flags: Vec<bool> = Vec::new();
        let mut i: usize = 0;
        while i < self.sounds.len()
            invariant
                i <= self.sounds.len(),
                flags.len() == i,
                prefix@ == query@,
                forall|k: int|
                    0 <= k < i ==> flags[k] == self@.favorite_prefix_filter(
                        query@,
                        guild_id,
                        user_id,
                    )(#[trigger] self.sounds[k]@),
            decreases self.sounds.len() - i,
        {
            let s = &self.sounds[i];
            let called = chars_of(s.name.as_str());
            flags.push(starts_at(&called, 0, &prefix) && s.visible_to(guild_id, user_id)
                && self.is_favorite(user_id, s.id));
            i += 1;
        }
        let all = keep(
            &self.sounds,
            &flags,
            Ghost(self@.favorite_prefix_filter(query@, guild_id, user_id)),
        );
        page_of_sounds(&all, 0)
    }
}

impl SoundStore {
    fn position(&self, id: u32) -> (r: Option<usize>)
        ensures
            r matches Some(i) ==> i < self.sounds.len() && self.sounds[i as int].id == id,
            r is None ==> forall|i: int|
                0 <= i < self.sounds.len() ==> (#[trigger] views(self.sounds@)[i]).id != id,
    {
        let mut i: usize = 0;
        while i < self.sounds.len()
            invariant
                i <= self.sounds.len(),
                forall|k: int| 0 <= k < i ==> (#[trigger] views(self.sounds@)[k]).id != id,
            decreases self.sounds.len() - i,
        {
            if self.sounds[i].id == id {
                return Some(i);
            }
            i += 1;
        }
        None
    }

    fn favorite_position(&self, user: u64, id: u32) -> (r: Option<usize>)
        ensures
            r matches Some(i) ==> i < self.favorites.len() && self.favorites[i as int] == (user, id),
            r is None ==> !self.favorites@.contains((user, id)),
    {
        let mut i: usize = 0;
        while i < self.favorites.len()
            invariant
                i <= self.favorites.len(),
                forall|k: int| 0 <= k < i ==> self.favorites@[k] != (user, id),
            decreases self.favorites.len() - i,
        {
            let pair = self.favorites[i];
            if pair.0 == user && pair.1 == id {
                return Some(i);
            }
            i += 1;
        }
        None
    }

    /// The sounds of the store, most recent first.
    pub fn sounds(&self) -> (all: &Vec<Sound>)
        ensures
            views(all@) == self@.sounds,
    {
        &self.sounds
    }

    /// The favorites of the store, as pairs of a user and the id of a sound.
    pub fn favorites(&self) -> (all: &Vec<(u64, u32)>)
        ensures
            all@ == self@.favorites,
    {
        &self.favorites
    }
}

impl Sound {
    /// Adds an uploaded sound to the store, where `transcoded` says that the uploaded file
    /// could be turned into a sound. The new sound is private.
    pub fn create_anon(
        name: &str,
        transcoded: bool,
        server_id: u64,
        user_id: u64,
        store: &mut SoundStore,
    ) -> (r: Result<(), ErrorTypes>)
        requires
            old(store).wf(),
        ensures
            final(store).wf(),
            !transcoded ==> r == Err::<(), ErrorTypes>(ErrorTypes::InvalidFile),
            transcoded && old(store)@.next_id > u32::MAX ==> r == Err::<(), ErrorTypes>(
                ErrorTypes::StoreError,
            ),
            transcoded && old(store)@.next_id <= u32::MAX ==> r is Ok,
            r is Ok ==> final(store)@ == old(store)@.uploaded(name@, server_id, user_id),
            r is Err ==> final(store)@ == old(store)@,
    {
        if !transcoded {
            return Err(ErrorTypes::InvalidFile);
        }
        if store.next_id > 0xffff_ffff {
            return Err(ErrorTypes::StoreError);
        }
        let sound = Sound {
            name: String::from_str(name),
            id: store.next_id as u32,
            public: false,
            server_id,
            uploader_id: Some(user_id),
        };
        let ghost before = views(store.sounds@);
        let ghost added = sound@;
        store.sounds.insert(0, sound);
        store.next_id = store.next_id + 1;
        proof {
            let after = views(store.sounds@);
            assert(after =~= seq![added] + before);
            assert forall|i: int, j: int| 0 <= i < j < after.len() implies after[i].id
                > after[j].id by {
                assert(after[j] == before[j - 1]);
                if i > 0 {
                    assert(after[i] == before[i - 1]);
                }
            }
            assert forall|i: int| 0 <= i < after.len() implies (#[trigger] after[i]).id
                < store@.next_id by {
                if i > 0 {
                    assert(after[i] == before[i - 1]);
                }
            }
        }
        Ok(())
    }

    /// Writes whether this sound is public to the sound of the same id in the store. A
    /// store without such a sound stays as it is.
    pub fn commit(&self, store: &mut SoundStore)
        requires
            old(store).wf(),
        ensures
            final(store).wf(),
            final(store)@ == old(store)@.with_visibility(self.id, self.public),
    {
        let ghost before = views(store.sounds@);
        match store.position(self.id) {
            Some(i) => {
                let mut changed = store.sounds[i].clone();
                changed.public = self.public;
                store.sounds.set(i, changed);
                proof {
                    let after = views(store.sounds@);
                    assert forall|k: int| 0 <= k < after.len() implies after[k].id
                        == before[k].id by {}
                    assert forall|k: int| 0 <= k < before.len() && k != i implies (
                    #[trigger] before[k]).id != self.id by {
                        if k < i {
                            assert(before[k].id > before[i as int].id);
                        } else {
                            assert(before[i as int].id > before[k].id);
                        }
                    }
                    assert(after =~= old(store)@.with_visibility(self.id, self.public).sounds);
                }
            },
            None => {
                assert(before =~= old(store)@.with_visibility(self.id, self.public).sounds);
            },
        }
    }

    /// Takes the sound of this id out of the store.
    pub fn delete(&self, store: &mut SoundStore)
        requires
            old(store).wf(),
        ensures
            final(store).wf(),
            final(store)@ == old(store)@.without_sound(self.id),
    {
        let ghost before = views(store.sounds@);
        let ghost p = Catalog::other_than(self.id);
        match store.position(self.id) {
            Some(i) => {
                proof {
                    assert forall|k: int| 0 <= k < before.len() && k != i implies p(
                        #[trigger] before[k],
                    ) by {
                        if k < i {
                            assert(before[k].id > before[i as int].id);
                        } else {
                            assert(before[i as int].id > before[k].id);
                        }
                    }
                    lemma_filter_removes(before, p, i as int);
                }
                store.sounds.remove(i);
                proof {
                    let after = views(store.sounds@);
                    assert(after =~= before.remove(i as int));
                    assert forall|a: int, b: int| 0 <= a < b < after.len() implies after[a].id
                        > after[b].id by {
                        let a2 = if a < i { a } else { a + 1 };
                        let b2 = if b < i { b } else { b + 1 };
                        assert(after[a] == before[a2] && after[b] == before[b2]);
                    }
                    assert forall|a: int| 0 <= a < after.len() implies (#[trigger] after[a]).id
                        < store@.next_id by {
                        let a2 = if a < i { a } else { a + 1 };
                        assert(after[a] == before[a2]);
                    }
                }
            },
            None => {
                proof {
                    lemma_filter_keeps_all(before, p);
                }
            },
        }
    }

    /// Marks this sound a favorite of `user_id`. A sound that already is one stays one, and
    /// the store refuses the second mark.
    pub fn add_favorite(&self, user_id: u64, store: &mut SoundStore) -> (r: Result<(), ErrorTypes>)
        requires
            old(store).wf(),
        ensures
            final(store).wf(),
            old(store)@.is_favorite(user_id, self.id) ==> r == Err::<(), ErrorTypes>(
                ErrorTypes::StoreError,
            ) && final(store)@ == old(store)@,
            !old(store)@.is_favorite(user_id, self.id) ==> r is Ok && final(store)@
                == old(store)@.with_favorite(user_id, self.id),
    {
        match store.favorite_position(user_id, self.id) {
            Some(_) => Err(ErrorTypes::StoreError),
            None => {
                let ghost before = store.favorites@;
                store.favorites.push((user_id, self.id));
                proof {
                    let after = store.favorites@;
                    assert forall|a: int, b: int|
                        0 <= a < after.len() && 0 <= b < after.len() && a != b implies after[a]
                        != after[b] by {
                        if a < before.len() {
                            assert(after[a] == before[a]);
                            assert(before.contains(before[a]));
                        }
                        if b < before.len() {
                            assert(after[b] == before[b]);
                            assert(before.contains(before[b]));
                        }
                    }
                }
                Ok(())
            },
        }
    }

    /// Takes this sound off the favorites of `user_id`.
    pub fn remove_favorite(&self, user_id: u64, store: &mut SoundStore)
        requires
            old(store).wf(),
        ensures
            final(store).wf(),
            final(store)@ == old(store)@.without_favorite(user_id, self.id),
            !final(store)@.is_favorite(user_id, self.id),
    {
        let ghost before = store.favorites@;
        let ghost p = Catalog::other_pair(user_id, self.id);
        match store.favorite_position(user_id, self.id) {
            Some(i) => {
                proof {
                    lemma_filter_removes(before, p, i as int);
                }
                store.favorites.remove(i);
                proof {
                    let after = store.favorites@;
                    assert(after =~= before.remove(i as int));
                    assert forall|a: int, b: int|
                        0 <= a < after.len() && 0 <= b < after.len() && a != b implies after[a]
                        != after[b] by {
                        let a2 = if a < i { a } else { a + 1 };
                        let b2 = if b < i { b } else { b + 1 };
                        assert(after[a] == before[a2] && after[b] == before[b2]);
                    }
                    if after.contains((user_id, self.id)) {
                        let a = choose|a: int| 0 <= a < after.len() && after[a] == (user_id, self.id);
                        let a2 = if a < i { a } else { a + 1 };
                        assert(after[a] == before[a2]);
                    }
                }
            },
            None => {
                proof {
                    assert forall|j: int| 0 <= j < before.len() implies p(#[trigger] before[j]) by {
                        assert(before.contains(before[j]));
                    }
                    lemma_filter_keeps_all(before, p);
                }
            },
        }
    }
}

/// Whether no two sounds of `s` share an id.
pub open spec fn ids_distinct(s: Seq<SoundView>) -> bool {
    forall|i: int, j: int| 0 <= i < j < s.len() ==> s[i].id != s[j].id
}

/// Puts `sound` into `sorted` at its place by id, greatest id first, unless a sound of
/// `sorted` has its id already.
fn insert_by_id(sorted: &mut Vec<Sound>, sound: Sound) -> (done: bool)
    requires
        ids_descending(views(old(sorted)@)),
    ensures
        ids_descending(views(final(sorted)@)),
        done == !exists|k: int|
            0 <= k < old(sorted).len() && (#[trigger] views(old(sorted)@)[k]).id == sound.id,
        !done ==> final(sorted)@ == old(sorted)@,
        done ==> final(sorted).len() == old(sorted).len() + 1,
        done ==> forall|x: SoundView|
            views(final(sorted)@).contains(x) <==> views(old(sorted)@).contains(x) || x == sound@,
{
    let ghost before = views(sorted@);
    let mut at: usize = 0;
    while at < sorted.len() && sorted[at].id > sound.id
        invariant
            at <= sorted.len(),
            before == views(sorted@),
            forall|k: int| 0 <= k < at ==> (#[trigger] before[k]).id > sound.id,
        decreases sorted.len() - at,
    {
        at += 1;
    }
    if at < sorted.len() && sorted[at].id == sound.id {
        assert(before[at as int].id == sound.id);
        return false;
    }
    assert forall|k: int| 0 <= k < before.len() implies (#[trigger] before[k]).id != sound.id by {
        if k > at {
            assert(before[at as int].id > before[k].id);
        }
    }
    let ghost added = sound@;
    sorted.insert(at, sound);
    proof {
        let after = views(sorted@);
        assert(after =~= before.insert(at as int, added));
        assert forall|i: int, j: int| 0 <= i < j < after.len() implies after[i].id
            > after[j].id by {
            let i2 = if i < at { i } else { i - 1 };
            let j2 = if j < at { j } else { j - 1 };
            if i != at {
                assert(after[i] == before[i2]);
            }
            if j != at {
                assert(after[j] == before[j2]);
            }
            if j == at {
                assert(before[i].id > added.id);
            } else if i == at {
                if j2 > at {
                    assert(before[at as int].id > before[j2].id);
                }
            } else {
                assert(before[i2].id > before[j2].id);
            }
        }
        assert forall|x: SoundView| after.contains(x) <==> before.contains(x) || x == added by {
            if after.contains(x) {
                let i = choose|i: int| 0 <= i < after.len() && after[i] == x;
                if i != at {
                    let i2 = if i < at { i } else { i - 1 };
                    assert(before[i2] == x);
                }
            }
            if before.contains(x) {
                let i = choose|i: int| 0 <= i < before.len() && before[i] == x;
                let i2 = if i < at { i } else { i + 1 };
                assert(after[i2] == x);
            }
            assert(after[at as int] == added);
        }
    }
    true
}

impl SoundStore {
    /// Makes a store of rows read elsewhere and puts the sounds in order, most recent
    /// first. Rows that hold an id or a favorite twice make no store. The next upload gets
    /// the id after the greatest there is.
    pub fn load(sounds: Vec<Sound>, favorites: Vec<(u64, u32)>) -> (r: Option<SoundStore>)
        ensures
            r is Some <==> ids_distinct(views(sounds@)) && favorites@.no_duplicates(),
            r matches Some(s) ==> {
                &&& s.wf()
                &&& s@.sounds.len() == sounds.len()
                &&& forall|x: SoundView| s@.sounds.contains(x) <==> views(sounds@).contains(x)
                &&& s@.favorites == favorites@
                &&& s@.next_id == (if sounds.len() == 0 {
                    1
                } else {
                    s@.sounds[0].id + 1
                })
            },
    {
        let ghost rows = views(sounds@);
        let mut sorted: Vec<Sound> = Vec::new();
        let mut i: usize = 0;
        while i < sounds.len()
            invariant
                i <= sounds.len(),
                rows == views(sounds@),
                sorted.len() == i,
                ids_descending(views(sorted@)),
                ids_distinct(rows.take(i as int)),
                forall|x: SoundView| views(sorted@).contains(x) <==> rows.take(i as int).contains(x),
            decreases sounds.len() - i,
        {
            let ghost placed = views(sorted@);
            let ghost seen = rows.take(i as int);
            let ghost next = rows.take(i + 1);
            assert(next =~= seen.push(rows[i as int]));
            if !insert_by_id(&mut sorted, sounds[i].clone()) {
                proof {
                    let k = choose|k: int|
                        0 <= k < placed.len() && (#[trigger] placed[k]).id == rows[i as int].id;
                    assert(placed.contains(placed[k]));
                    let j = choose|j: int| 0 <= j < seen.len() && seen[j] == placed[k];
                    assert(rows[j].id == rows[i as int].id);
                }
                return None;
            }
            proof {
                assert forall|a: int, b: int| 0 <= a < b < next.len() implies next[a].id
                    != next[b].id by {
                    if b == i {
                        assert(next[a] == seen[a]);
                        assert(seen.contains(seen[a]));
                        assert(placed.contains(seen[a]));
                        let k = choose|k: int| 0 <= k < placed.len() && placed[k] == seen[a];
                        assert(placed[k].id != sounds[i as int].id);
                    } else {
                        assert(next[a] == seen[a] && next[b] == seen[b]);
                    }
                }
                assert forall|x: SoundView| views(sorted@).contains(x) <==> next.contains(x) by {
                    if seen.contains(x) {
                        let j = choose|j: int| 0 <= j < seen.len() && seen[j] == x;
                        assert(next[j] == x);
                    }
                    if next.contains(x) {
                        let j = choose|j: int| 0 <= j < next.len() && next[j] == x;
                        if j < i {
                            assert(seen[j] == x);
                        }
                    }
                    assert(next[i as int] == rows[i as int]);
                }
            }
            i += 1;
        }
        assert(rows.take(sounds.len() as int) =~= rows);
        let mut j: usize = 0;
        while j < favorites.len()
            invariant
                j <= favorites.len(),
                forall|a: int, b: int| 0 <= a < b < j ==> favorites@[a] != favorites@[b],
            decreases favorites.len() - j,
        {
            let mut k: usize = 0;
            while k < j
                invariant
                    k <= j < favorites.len(),
                    forall|a: int| 0 <= a < k ==> favorites@[a] != favorites@[j as int],
                decreases j - k,
            {
                if favorites[k].0 == favorites[j].0 && favorites[k].1 == favorites[j].1 {
                    assert(favorites@[k as int] == favorites@[j as int]);
                    return None;
                }
                k += 1;
            }
            j += 1;
        }
        let next_id: u64 = if sorted.len() == 0 {
            1
        } else {
            sorted[0].id as u64 + 1
        };
        let ghost placed = views(sorted@);
        assert forall|a: int| 0 <= a < placed.len() implies (#[trigger] placed[a]).id < next_id by {
            if a > 0 {
                assert(placed[0].id > placed[a].id);
            }
        }
        Some(SoundStore { sounds: sorted, favorites, next_id })
    }
}

impl SoundStore {
    /// The sound with id `id`, whoever may see it.
    pub fn sound_with_id(&self, id: u32) -> (r: Option<Sound>)
        ensures
            r matches Some(s) ==> s.id == id && self@.sounds.contains(s@),
            r is None ==> forall|i: int|
                0 <= i < self@.sounds.len() ==> (#[trigger] self@.sounds[i]).id != id,
    {
        match self.position(id) {
            Some(i) => {
                assert(views(self.sounds@)[i as int] == self.sounds[i as int]@);
                Some(self.sounds[i].clone())
            },
            None => None,
        }
    }
}

impl SoundStore {
    /// The first sound that a strict search for `query` returns, if it returns any.
    pub fn first_hit(&self, query: &str, guild_id: u64, user_id: u64, tie_break: u64) -> (r: Option<
        Sound,
    >)
        ensures
            r is Some == self@.first_hit(query@, guild_id, user_id, tie_break as nat) is Some,
            r matches Some(s) ==> Some(s@) == self@.first_hit(
                query@,
                guild_id,
                user_id,
                tie_break as nat,
            ),
    {
        let mut found = self.search_for_sound(query, guild_id, user_id, true, tie_break);
        assert(views(found@).len() == found@.len());
        if found.len() > 0 {
            assert(views(found@)[0] == found@[0]@);
            Some(found.swap_remove(0))
        } else {
            None
        }
    }
}

impl Sound {
    /// How many sounds `user_id` uploaded.
    pub fn count_user_sounds(user_id: u64, store: &SoundStore) -> (n: u64)
        ensures
            n == store@.uploads_of(user_id).len(),
    {
        store.count_user_sounds(user_id)
    }

    /// How many sounds `user_id` uploaded under exactly the name `name`.
    pub fn count_named_user_sounds(user_id: u64, name: &str, store: &SoundStore) -> (n: u64)
        ensures
            n == store@.uploads_named(user_id, name@).len(),
    {
        store.count_named_user_sounds(user_id, name)
    }
}

} // verus!
