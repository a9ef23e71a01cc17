use crate::query::id_of_query;
use crate::sound::SoundView;
use crate::text::has_at;
use vstd::prelude::*;

verus! {

/// Whether a sound called `name` answers a search for `query`: by being called exactly
/// that where the search is strict, by holding it somewhere in its name where it is not.
pub open spec fn name_matches(name: Seq<char>, query: Seq<char>, strict: bool) -> bool {
    if strict {
        name == query
    } else {
        exists|i: int| has_at(name, i, query)
    }
}

/// Whether each sound of `s` has a greater id than all that follow it.
pub open spec fn ids_descending(s: Seq<SoundView>) -> bool {
    forall|i: int, j: int| 0 <= i < j < s.len() ==> s[i].id > s[j].id
}

/// `b` with its first `k mod len` items moved to the end.
pub open spec fn rotated(b: Seq<SoundView>, k: nat) -> Seq<SoundView> {
    if b.len() == 0 {
        b
    } else {
        b.subrange((k % b.len()) as int, b.len() as int) + b.subrange(0, (k % b.len()) as int)
    }
}

/// The slice of `s` that page `page` shows, at `size` items a page.
pub open spec fn page_of(s: Seq<SoundView>, page: nat, size: nat) -> Seq<SoundView> {
    let from = if page * size < s.len() {
        page * size
    } else {
        s.len()
    };
    let to = if from + size < s.len() {
        from + size
    } else {
        s.len()
    };
    s.subrange(from as int, to as int)
}

/// What the relational store holds of sounds: the sounds, most recent first, and who
/// marked which sound a favorite.
pub struct Catalog {
    pub sounds: Seq<SoundView>,
    pub favorites: Seq<(u64, u32)>,
    /// The id that the next upload gets. Ids are never given out twice.
    pub next_id: nat,
}

impl Catalog {
    /// No two sounds share an id, the most recent comes first, every id was given out
    /// already, and no favorite is held twice.
    pub open spec fn wf(self) -> bool {
        &&& ids_descending(self.sounds)
        &&& forall|i: int| 0 <= i < self.sounds.len() ==> (#[trigger] self.sounds[i]).id < self.next_id
        &&& self.next_id >= 1
        &&& self.favorites.no_duplicates()
    }

    pub open spec fn other_than(id: u32) -> spec_fn(SoundView) -> bool {
        |s: SoundView| s.id != id
    }

    pub open spec fn other_pair(user: u64, id: u32) -> spec_fn((u64, u32)) -> bool {
        |pair: (u64, u32)| pair != (user, id)
    }

    /// The catalog after `user` uploaded a sound called `name` in `server`: the sound is
    /// private, gets the next id, and stands first.
    pub open spec fn uploaded(self, name: Seq<char>, server: u64, user: u64) -> Catalog {
        Catalog {
            sounds: seq![
                SoundView {
                    name,
                    id: self.next_id as u32,
                    public: false,
                    server_id: server,
                    uploader_id: Some(user),
                },
            ] + self.sounds,
            favorites: self.favorites,
            next_id: self.next_id + 1,
        }
    }

    /// The catalog after the sound with id `id` was made public or private.
    pub open spec fn with_visibility(self, id: u32, public: bool) -> Catalog {
        Catalog {
            sounds: self.sounds.map_values(
                |s: SoundView|
                    if s.id == id {
                        SoundView { public, ..s }
                    } else {
                        s
                    },
            ),
            favorites: self.favorites,
            next_id: self.next_id,
        }
    }

    /// The catalog without the sound with id `id`.
    pub open spec fn without_sound(self, id: u32) -> Catalog {
        Catalog {
            sounds: self.sounds.filter(Self::other_than(id)),
            favorites: self.favorites,
            next_id: self.next_id,
        }
    }

    /// The catalog after `user` marked the sound with id `id` a favorite.
    pub open spec fn with_favorite(self, user: u64, id: u32) -> Catalog {
        Catalog {
            sounds: self.sounds,
            favorites: self.favorites.push((user, id)),
            next_id: self.next_id,
        }
    }

    /// The catalog after `user` took the sound with id `id` off their favorites.
    pub open spec fn without_favorite(self, user: u64, id: u32) -> Catalog {
        Catalog {
            sounds: self.sounds,
            favorites: self.favorites.filter(Self::other_pair(user, id)),
            next_id: self.next_id,
        }
    }

    pub open spec fn is_favorite(self, user: u64, id: u32) -> bool {
        self.favorites.contains((user, id))
    }

    /// The place of `s` in a search by `user` in `guild`.
    pub open spec fn rank_of(self, s: SoundView, guild: u64, user: u64) -> nat {
        s.rank(guild, user, self.is_favorite(user, s.id))
    }

    pub open spec fn id_filter(id: u32, guild: u64, user: u64) -> spec_fn(SoundView) -> bool {
        |s: SoundView| s.id == id && s.visible_to(guild, user)
    }

    pub open spec fn name_filter(query: Seq<char>, strict: bool, guild: u64, user: u64) -> spec_fn(
        SoundView,
    ) -> bool {
        |s: SoundView| name_matches(s.name, query, strict) && s.visible_to(guild, user)
    }

    pub open spec fn tier_filter(self, guild: u64, user: u64, r: nat) -> spec_fn(SoundView) -> bool {
        |s: SoundView| self.rank_of(s, guild, user) == r
    }

    /// The sound with id `id`, where the caller may see it.
    pub open spec fn by_id(self, id: u32, guild: u64, user: u64) -> Seq<SoundView> {
        self.sounds.filter(Self::id_filter(id, guild, user))
    }

    /// The sounds that answer `query` by name and that the caller may see, most recent first.
    pub open spec fn named(self, query: Seq<char>, strict: bool, guild: u64, user: u64) -> Seq<
        SoundView,
    > {
        self.sounds.filter(Self::name_filter(query, strict, guild, user))
    }

    /// Those of `named` that the search places at rank `r`.
    pub open spec fn tier(
        self,
        query: Seq<char>,
        strict: bool,
        guild: u64,
        user: u64,
        r: nat,
    ) -> Seq<SoundView> {
        self.named(query, strict, guild, user).filter(self.tier_filter(guild, user, r))
    }

    /// The sounds of `named` whose rank is under `below`, highest rank first; among sounds
    /// of one rank the order is that of `tier`, turned by `tie_break`.
    pub open spec fn ranked(
        self,
        query: Seq<char>,
        strict: bool,
        guild: u64,
        user: u64,
        tie_break: nat,
        below: nat,
    ) -> Seq<SoundView>
        decreases below,
    {
        if below == 0 {
            Seq::empty()
        } else {
            rotated(self.tier(query, strict, guild, user, (below - 1) as nat), tie_break)
                + self.ranked(query, strict, guild, user, tie_break, (below - 1) as nat)
        }
    }

    /// What a search returns. A query that asks for an id gives the sound with that id, if
    /// the caller may see it. Any other query gives the sounds it names, ranked.
    pub open spec fn search(
        self,
        query: Seq<char>,
        guild: u64,
        user: u64,
        strict: bool,
        tie_break: nat,
    ) -> Seq<SoundView> {
        match id_of_query(query) {
            Some(id) => self.by_id(id, guild, user),
            None => self.ranked(query, strict, guild, user, tie_break, 16),
        }
    }

    pub open spec fn owner_filter(user: u64) -> spec_fn(SoundView) -> bool {
        |s: SoundView| s.owned_by(user)
    }

    pub open spec fn guild_filter(guild: u64) -> spec_fn(SoundView) -> bool {
        |s: SoundView| s.server_id == guild
    }

    pub open spec fn favorite_filter(self, user: u64) -> spec_fn(SoundView) -> bool {
        |s: SoundView| self.is_favorite(user, s.id)
    }

    pub open spec fn named_owner_filter(user: u64, name: Seq<char>) -> spec_fn(SoundView) -> bool {
        |s: SoundView| s.owned_by(user) && s.name == name
    }

    pub open spec fn prefix_filter(query: Seq<char>, guild: u64, user: u64) -> spec_fn(
        SoundView,
    ) -> bool {
        |s: SoundView| has_at(s.name, 0, query) && s.visible_to(guild, user)
    }

    pub open spec fn favorite_prefix_filter(self, query: Seq<char>, guild: u64, user: u64) -> spec_fn(
        SoundView,
    ) -> bool {
        |s: SoundView|
            has_at(s.name, 0, query) && s.visible_to(guild, user) && self.is_favorite(user, s.id)
    }

    pub open spec fn favorite_of(user: u64) -> spec_fn((u64, u32)) -> bool {
        |pair: (u64, u32)| pair.0 == user
    }

    /// The sounds that `user` uploaded, most recent first.
    pub open spec fn uploads_of(self, user: u64) -> Seq<SoundView> {
        self.sounds.filter(Self::owner_filter(user))
    }

    /// The sounds that belong to `guild`, most recent first.
    pub open spec fn sounds_of_guild(self, guild: u64) -> Seq<SoundView> {
        self.sounds.filter(Self::guild_filter(guild))
    }

    /// The sounds that `user` marked as favorites, most recent first.
    pub open spec fn favorites_of(self, user: u64) -> Seq<SoundView> {
        self.sounds.filter(self.favorite_filter(user))
    }

    /// The sounds that `user` uploaded under the name `name`.
    pub open spec fn uploads_named(self, user: u64, name: Seq<char>) -> Seq<SoundView> {
        self.sounds.filter(Self::named_owner_filter(user, name))
    }

    /// Up to 25 sounds whose name begins with `query`, among those the caller may see.
    pub open spec fn suggestions(self, query: Seq<char>, user: u64, guild: u64) -> Seq<SoundView> {
        page_of(self.sounds.filter(Self::prefix_filter(query, guild, user)), 0, 25)
    }

    /// Up to 25 favorites of the caller whose name begins with `query`, among those the
    /// caller may see.
    pub open spec fn favorite_suggestions(self, query: Seq<char>, user: u64, guild: u64) -> Seq<
        SoundView,
    > {
        page_of(self.sounds.filter(self.favorite_prefix_filter(query, guild, user)), 0, 25)
    }

    /// All of `all` where no page is asked for, else that page of it, at 25 sounds a page.
    pub open spec fn listing(all: Seq<SoundView>, page: Option<u64>) -> Seq<SoundView> {
        match page {
            Some(p) => page_of(all, p as nat, 25),
            None => all,
        }
    }

    /// The first sound that a strict search returns, if it returns any.
    pub open spec fn first_hit(self, query: Seq<char>, guild: u64, user: u64, tie_break: nat) -> Option<
        SoundView,
    > {
        let found = self.search(query, guild, user, true, tie_break);
        if found.len() > 0 {
            Some(found[0])
        } else {
            None
        }
    }

    /// Whether `s` answers `query`: by its id where the query asks for one, else by name.
    pub open spec fn answers(s: SoundView, query: Seq<char>, strict: bool) -> bool {
        match id_of_query(query) {
            Some(id) => s.id == id,
            None => name_matches(s.name, query, strict),
        }
    }
}

/// A filtered sequence holds exactly the items of the sequence that pass the filter.
pub proof fn lemma_filter_holds<A>(s: Seq<A>, p: spec_fn(A) -> bool, x: A)
    ensures
        s.filter(p).contains(x) <==> s.contains(x) && p(x),
    decreases s.len(),
{
    reveal(Seq::filter);
    if s.len() > 0 {
        let rest = s.drop_last();
        lemma_filter_holds(rest, p, x);
        if s.contains(x) {
            let i = choose|i: int| 0 <= i < s.len() && s[i] == x;
            if i < s.len() - 1 {
                assert(rest[i] == x);
            }
        }
        if rest.contains(x) {
            let i = choose|i: int| 0 <= i < rest.len() && rest[i] == x;
            assert(s[i] == x);
        }
        assert(s.last() == s[s.len() - 1]);
        if p(s.last()) {
            let f = rest.filter(p);
            assert(s.filter(p) == f.push(s.last()));
            if f.push(s.last()).contains(x) {
                let i = choose|i: int| 0 <= i < f.len() + 1 && f.push(s.last())[i] == x;
                if i < f.len() {
                    assert(f[i] == x);
                }
            }
            if f.contains(x) {
                let i = choose|i: int| 0 <= i < f.len() && f[i] == x;
                assert(f.push(s.last())[i] == x);
            }
            assert(f.push(s.last())[f.len() as int] == s.last());
        }
    }
}

/// Turning a sequence neither adds nor loses an item.
pub proof fn lemma_rotated_holds(b: Seq<SoundView>, k: nat, x: SoundView)
    ensures
        rotated(b, k).contains(x) <==> b.contains(x),
        rotated(b, k).len() == b.len(),
{
    if b.len() > 0 {
        let m = (k % b.len()) as int;
        let r = rotated(b, k);
        if b.contains(x) {
            let i = choose|i: int| 0 <= i < b.len() && b[i] == x;
            if i >= m {
                assert(r[i - m] == x);
            } else {
                assert(r[b.len() - m + i] == x);
            }
        }
        if r.contains(x) {
            let i = choose|i: int| 0 <= i < r.len() && r[i] == x;
            if i < b.len() - m {
                assert(b[i + m] == x);
            } else {
                assert(b[i - (b.len() - m)] == x);
            }
        }
    }
}

impl Catalog {
    /// The ranked sounds under `below` are the named sounds whose rank is under `below`.
    pub proof fn lemma_ranked_holds(
        self,
        query: Seq<char>,
        strict: bool,
        guild: u64,
        user: u64,
        tie_break: nat,
        below: nat,
        s: SoundView,
    )
        ensures
            self.ranked(query, strict, guild, user, tie_break, below).contains(s) <==> self.named(
                query,
                strict,
                guild,
                user,
            ).contains(s) && self.rank_of(s, guild, user) < below,
        decreases below,
    {
        if below > 0 {
            let r = (below - 1) as nat;
            let head = rotated(self.tier(query, strict, guild, user, r), tie_break);
            let tail = self.ranked(query, strict, guild, user, tie_break, r);
            self.lemma_ranked_holds(query, strict, guild, user, tie_break, r, s);
            lemma_rotated_holds(self.tier(query, strict, guild, user, r), tie_break, s);
            lemma_filter_holds(
                self.named(query, strict, guild, user),
                self.tier_filter(guild, user, r),
                s,
            );
            vstd::seq_lib::lemma_seq_concat_contains_all_elements(head, tail, s);
        }
    }

    /// A search returns exactly the sounds of the catalog that answer the query and that
    /// the caller may see.
    pub proof fn lemma_search_holds(
        self,
        query: Seq<char>,
        guild: u64,
        user: u64,
        strict: bool,
        tie_break: nat,
        s: SoundView,
    )
        ensures
            self.search(query, guild, user, strict, tie_break).contains(s) <==> self.sounds.contains(
                s,
            ) && Self::answers(s, query, strict) && s.visible_to(guild, user),
    {
        match id_of_query(query) {
            Some(id) => {
                lemma_filter_holds(self.sounds, Self::id_filter(id, guild, user), s);
            },
            None => {
                self.lemma_ranked_holds(query, strict, guild, user, tie_break, 16, s);
                lemma_filter_holds(self.sounds, Self::name_filter(query, strict, guild, user), s);
            },
        }
    }

    /// A public sound that answers the query is found, whoever searches and from where.
    pub proof fn lemma_public_found(
        self,
        query: Seq<char>,
        guild: u64,
        user: u64,
        strict: bool,
        tie_break: nat,
        s: SoundView,
    )
        requires
            self.sounds.contains(s),
            s.public,
            Self::answers(s, query, strict),
        ensures
            self.search(query, guild, user, strict, tie_break).contains(s),
    {
        self.lemma_search_holds(query, guild, user, strict, tie_break, s);
    }

    /// A private sound is found only by its uploader or from the guild it belongs to.
    pub proof fn lemma_private_hidden(
        self,
        query: Seq<char>,
        guild: u64,
        user: u64,
        strict: bool,
        tie_break: nat,
        s: SoundView,
    )
        requires
            !s.public,
            self.search(query, guild, user, strict, tie_break).contains(s),
        ensures
            s.uploader_id == Some(user) || s.server_id == guild,
    {
        self.lemma_search_holds(query, guild, user, strict, tie_break, s);
    }
}

/// A filter keeps the order of what it keeps: sounds that descend by id still do.
pub proof fn lemma_filter_descending(s: Seq<SoundView>, p: spec_fn(SoundView) -> bool)
    requires
        ids_descending(s),
    ensures
        ids_descending(s.filter(p)),
    decreases s.len(),
{
    reveal(Seq::filter);
    if s.len() > 0 {
        let rest = s.drop_last();
        lemma_filter_descending(rest, p);
        let f = rest.filter(p);
        if p(s.last()) {
            assert forall|i: int, j: int| 0 <= i < j < f.len() + 1 implies f.push(s.last())[i].id
                > f.push(s.last())[j].id by {
                if j == f.len() {
                    assert(f.contains(f[i]));
                    lemma_filter_holds(rest, p, f[i]);
                    let k = choose|k: int| 0 <= k < rest.len() && rest[k] == f[i];
                    assert(s[k] == f[i]);
                }
            }
        }
    }
}

impl Catalog {
    /// The ranked sounds stand in the order of their ranks, highest first.
    pub proof fn lemma_ranked_order(
        self,
        query: Seq<char>,
        strict: bool,
        guild: u64,
        user: u64,
        tie_break: nat,
        below: nat,
    )
        ensures
            forall|i: int, j: int|
                #![trigger self.ranked(query, strict, guild, user, tie_break, below)[i], self.ranked(query, strict, guild, user, tie_break, below)[j]]
                0 <= i < j < self.ranked(query, strict, guild, user, tie_break, below).len()
                    ==> self.rank_of(
                    self.ranked(query, strict, guild, user, tie_break, below)[i],
                    guild,
                    user,
                ) >= self.rank_of(
                    self.ranked(query, strict, guild, user, tie_break, below)[j],
                    guild,
                    user,
                ),
        decreases below,
    {
        let res = self.ranked(query, strict, guild, user, tie_break, below);
        if below > 0 {
            let r = (below - 1) as nat;
            let tier = self.tier(query, strict, guild, user, r);
            let head = rotated(tier, tie_break);
            let tail = self.ranked(query, strict, guild, user, tie_break, r);
            self.lemma_ranked_order(query, strict, guild, user, tie_break, r);
            assert forall|i: int, j: int| 0 <= i < j < res.len() implies self.rank_of(
                res[i],
                guild,
                user,
            ) >= self.rank_of(res[j], guild, user) by {
                if i < head.len() {
                    assert(head.contains(head[i]));
                    lemma_rotated_holds(tier, tie_break, head[i]);
                    lemma_filter_holds(
                        self.named(query, strict, guild, user),
                        self.tier_filter(guild, user, r),
                        head[i],
                    );
                    assert(self.rank_of(res[i], guild, user) == r);
                }
                if j < head.len() {
                    assert(head.contains(head[j]));
                    lemma_rotated_holds(tier, tie_break, head[j]);
                    lemma_filter_holds(
                        self.named(query, strict, guild, user),
                        self.tier_filter(guild, user, r),
                        head[j],
                    );
                    assert(self.rank_of(res[j], guild, user) == r);
                } else {
                    let x = tail[j - head.len()];
                    assert(res[j] == x);
                    assert(tail.contains(x));
                    self.lemma_ranked_holds(query, strict, guild, user, tie_break, r, x);
                    if i >= head.len() {
                        assert(res[i] == tail[i - head.len()]);
                    }
                }
            }
        }
    }

    /// At most one sound answers a query for an id.
    pub proof fn lemma_by_id_single(self, id: u32, guild: u64, user: u64)
        requires
            self.wf(),
        ensures
            self.by_id(id, guild, user).len() <= 1,
    {
        let f = self.by_id(id, guild, user);
        lemma_filter_descending(self.sounds, Self::id_filter(id, guild, user));
        if f.len() > 1 {
            assert(f.contains(f[0]));
            assert(f.contains(f[1]));
            lemma_filter_holds(self.sounds, Self::id_filter(id, guild, user), f[0]);
            lemma_filter_holds(self.sounds, Self::id_filter(id, guild, user), f[1]);
        }
    }

    /// In what a search returns, a sound that the caller uploaded stands before every sound
    /// that the caller did not upload.
    pub proof fn lemma_own_first(
        self,
        query: Seq<char>,
        guild: u64,
        user: u64,
        strict: bool,
        tie_break: nat,
        i: int,
        j: int,
    )
        requires
            self.wf(),
            0 <= i < self.search(query, guild, user, strict, tie_break).len(),
            0 <= j < self.search(query, guild, user, strict, tie_break).len(),
            self.search(query, guild, user, strict, tie_break)[i].owned_by(user),
            !self.search(query, guild, user, strict, tie_break)[j].owned_by(user),
        ensures
            i < j,
    {
        match id_of_query(query) {
            Some(id) => {
                self.lemma_by_id_single(id, guild, user);
            },
            None => {
                self.lemma_ranked_order(query, strict, guild, user, tie_break, 16);
                let res = self.ranked(query, strict, guild, user, tie_break, 16);
                if j < i {
                    assert(self.rank_of(res[j], guild, user) >= self.rank_of(res[i], guild, user));
                }
            },
        }
    }
}

/// A filter that every item passes keeps the sequence as it is.
pub proof fn lemma_filter_keeps_all<A>(s: Seq<A>, p: spec_fn(A) -> bool)
    requires
        forall|j: int| 0 <= j < s.len() ==> p(#[trigger] s[j]),
    ensures
        s.filter(p) == s,
    decreases s.len(),
{
    reveal(Seq::filter);
    if s.len() > 0 {
        let rest = s.drop_last();
        assert forall|j: int| 0 <= j < rest.len() implies p(#[trigger] rest[j]) by {
            assert(rest[j] == s[j]);
        }
        lemma_filter_keeps_all(rest, p);
        assert(rest.push(s.last()) =~= s);
    } else {
        assert(s.filter(p) =~= s);
    }
}

/// A filter that only the item at `i` fails removes that item and no other.
pub proof fn lemma_filter_removes<A>(s: Seq<A>, p: spec_fn(A) -> bool, i: int)
    requires
        0 <= i < s.len(),
        !p(s[i]),
        forall|j: int| 0 <= j < s.len() && j != i ==> p(#[trigger] s[j]),
    ensures
        s.filter(p) == s.remove(i),
    decreases s.len(),
{
    reveal(Seq::filter);
    let rest = s.drop_last();
    if i == s.len() - 1 {
        assert forall|j: int| 0 <= j < rest.len() implies p(#[trigger] rest[j]) by {
            assert(rest[j] == s[j]);
        }
        lemma_filter_keeps_all(rest, p);
        assert(s.remove(i) =~= rest);
    } else {
        assert(rest[i] == s[i]);
        assert forall|j: int| 0 <= j < rest.len() && j != i implies p(#[trigger] rest[j]) by {
            assert(rest[j] == s[j]);
        }
        lemma_filter_removes(rest, p, i);
        assert(p(s[s.len() - 1]));
        assert(rest.remove(i).push(s.last()) =~= s.remove(i));
    }
}

/// Sounds that descend by id hold no sound twice, and turning them keeps it so.
pub proof fn lemma_rotated_distinct(b: Seq<SoundView>, k: nat)
    requires
        ids_descending(b),
    ensures
        forall|i: int, j: int|
            0 <= i < j < rotated(b, k).len() ==> rotated(b, k)[i].id != rotated(b, k)[j].id,
{
    if b.len() > 0 {
        let m = (k % b.len()) as int;
        let r = rotated(b, k);
        assert forall|i: int, j: int| 0 <= i < j < r.len() implies r[i].id != r[j].id by {
            let i2 = if i < b.len() - m { i + m } else { i - (b.len() - m) };
            let j2 = if j < b.len() - m { j + m } else { j - (b.len() - m) };
            assert(r[i] == b[i2] && r[j] == b[j2]);
            if i2 < j2 {
                assert(b[i2].id > b[j2].id);
            } else {
                assert(b[j2].id > b[i2].id);
            }
        }
    }
}

impl Catalog {
    /// Among the ranked sounds no id comes twice.
    pub proof fn lemma_ranked_distinct(
        self,
        query: Seq<char>,
        strict: bool,
        guild: u64,
        user: u64,
        tie_break: nat,
        below: nat,
    )
        requires
            self.wf(),
        ensures
            forall|i: int, j: int|
                #![trigger self.ranked(query, strict, guild, user, tie_break, below)[i], self.ranked(query, strict, guild, user, tie_break, below)[j]]
                0 <= i < j < self.ranked(query, strict, guild, user, tie_break, below).len()
                    ==> self.ranked(query, strict, guild, user, tie_break, below)[i].id
                    != self.ranked(query, strict, guild, user, tie_break, below)[j].id,
        decreases below,
    {
        let res = self.ranked(query, strict, guild, user, tie_break, below);
        if below > 0 {
            let r = (below - 1) as nat;
            let named = self.named(query, strict, guild, user);
            let tier = self.tier(query, strict, guild, user, r);
            let head = rotated(tier, tie_break);
            let tail = self.ranked(query, strict, guild, user, tie_break, r);
            self.lemma_ranked_distinct(query, strict, guild, user, tie_break, r);
            lemma_filter_descending(self.sounds, Self::name_filter(query, strict, guild, user));
            lemma_filter_descending(named, self.tier_filter(guild, user, r));
            lemma_rotated_distinct(tier, tie_break);
            assert forall|i: int, j: int| 0 <= i < j < res.len() implies res[i].id
                != res[j].id by {
                if i < head.len() && j >= head.len() {
                    let x = head[i];
                    let y = tail[j - head.len()];
                    assert(res[i] == x && res[j] == y);
                    assert(head.contains(x));
                    assert(tail.contains(y));
                    lemma_rotated_holds(tier, tie_break, x);
                    lemma_filter_holds(named, self.tier_filter(guild, user, r), x);
                    self.lemma_ranked_holds(query, strict, guild, user, tie_break, r, y);
                    lemma_filter_holds(
                        self.sounds,
                        Self::name_filter(query, strict, guild, user),
                        x,
                    );
                    lemma_filter_holds(
                        self.sounds,
                        Self::name_filter(query, strict, guild, user),
                        y,
                    );
                    let a = choose|a: int| 0 <= a < self.sounds.len() && self.sounds[a] == x;
                    let b = choose|b: int| 0 <= b < self.sounds.len() && self.sounds[b] == y;
                    if a < b {
                        assert(self.sounds[a].id > self.sounds[b].id);
                    } else if b < a {
                        assert(self.sounds[b].id > self.sounds[a].id);
                    }
                } else if i >= head.len() {
                    assert(res[i] == tail[i - head.len()] && res[j] == tail[j - head.len()]);
                } else {
                    assert(res[i] == head[i] && res[j] == head[j]);
                }
            }
        }
    }

    /// A search returns no sound twice.
    pub proof fn lemma_search_distinct(
        self,
        query: Seq<char>,
        guild: u64,
        user: u64,
        strict: bool,
        tie_break: nat,
        i: int,
        j: int,
    )
        requires
            self.wf(),
            0 <= i < j < self.search(query, guild, user, strict, tie_break).len(),
        ensures
            self.search(query, guild, user, strict, tie_break)[i].id != self.search(
                query,
                guild,
                user,
                strict,
                tie_break,
            )[j].id,
    {
        match id_of_query(query) {
            Some(id) => {
                self.lemma_by_id_single(id, guild, user);
            },
            None => {
                self.lemma_ranked_distinct(query, strict, guild, user, tie_break, 16);
            },
        }
    }
}

/// A page holds at most as many sounds as a page may, and every sound of it is a sound
/// of the listing.
pub proof fn lemma_page_of(s: Seq<SoundView>, page: nat, size: nat, i: int)
    requires
        0 <= i < page_of(s, page, size).len(),
    ensures
        page_of(s, page, size).len() <= size,
        page * size + i < s.len(),
        page_of(s, page, size)[i] == s[page * size + i],
{
    assert(page * size < s.len());
}

/// A page of sounds that descend by id descends by id.
pub proof fn lemma_page_descending(s: Seq<SoundView>, page: nat, size: nat)
    requires
        ids_descending(s),
    ensures
        ids_descending(page_of(s, page, size)),
{
    let p = page_of(s, page, size);
    assert forall|i: int, j: int| 0 <= i < j < p.len() implies p[i].id > p[j].id by {
        lemma_page_of(s, page, size, i);
        lemma_page_of(s, page, size, j);
    }
}

impl Catalog {
    /// Every listing shows the most recent sound first: the uploads of a user, the sounds
    /// of a guild, the favorites of a user and what is suggested, whole or by the page.
    pub proof fn lemma_listings_descending(
        self,
        user: u64,
        guild: u64,
        query: Seq<char>,
        page: Option<u64>,
    )
        requires
            self.wf(),
        ensures
            ids_descending(Self::listing(self.uploads_of(user), page)),
            ids_descending(Self::listing(self.sounds_of_guild(guild), page)),
            ids_descending(Self::listing(self.favorites_of(user), page)),
            ids_descending(self.suggestions(query, user, guild)),
            ids_descending(self.favorite_suggestions(query, user, guild)),
            self.suggestions(query, user, guild).len() <= 25,
            self.favorite_suggestions(query, user, guild).len() <= 25,
    {
        lemma_filter_descending(self.sounds, Self::owner_filter(user));
        lemma_filter_descending(self.sounds, Self::guild_filter(guild));
        lemma_filter_descending(self.sounds, self.favorite_filter(user));
        lemma_filter_descending(self.sounds, Self::prefix_filter(query, guild, user));
        lemma_filter_descending(self.sounds, self.favorite_prefix_filter(query, guild, user));
        lemma_page_descending(self.sounds.filter(Self::prefix_filter(query, guild, user)), 0, 25);
        lemma_page_descending(
            self.sounds.filter(self.favorite_prefix_filter(query, guild, user)),
            0,
            25,
        );
        match page {
            Some(p) => {
                lemma_page_descending(self.uploads_of(user), p as nat, 25);
                lemma_page_descending(self.sounds_of_guild(guild), p as nat, 25);
                lemma_page_descending(self.favorites_of(user), p as nat, 25);
            },
            None => {},
        }
    }
}

impl Catalog {
    /// A sound that was just uploaded is private. A strict search for its name finds it
    /// for every member of the guild it was uploaded in and for its uploader, and for
    /// nobody else.
    pub proof fn lemma_upload_found_in_guild(
        self,
        name: Seq<char>,
        server: u64,
        user: u64,
        guild: u64,
        searcher: u64,
        tie_break: nat,
    )
        requires
            id_of_query(name) is None,
        ensures
            ({
                let after = self.uploaded(name, server, user);
                let s = after.sounds[0];
                &&& !s.public
                &&& s.name == name
                &&& s.server_id == server
                &&& s.uploader_id == Some(user)
                &&& after.search(name, guild, searcher, true, tie_break).contains(s) <==> guild
                    == server || searcher == user
            }),
    {
        let after = self.uploaded(name, server, user);
        let s = after.sounds[0];
        assert(after.sounds.contains(s));
        after.lemma_search_holds(name, guild, searcher, true, tie_break, s);
    }
}

} // verus!
