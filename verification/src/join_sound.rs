use vstd::prelude::*;

verus! {

/// One row of the table of join sounds: `user` is greeted with sound `join_sound_id` in
/// `guild`, or in every guild where `guild` is `None`.
#[derive(Clone, Copy, Debug, PartialEq, Eq)]
pub struct JoinSoundRow {
    pub user: u64,
    pub guild: Option<u64>,
    pub join_sound_id: u32,
}

impl JoinSoundRow {
    /// The user and scope that the row binds.
    pub open spec fn key(self) -> (u64, Option<u64>) {
        (self.user, self.guild)
    }
}

/// Whether no two rows bind the same user in the same scope.
pub open spec fn keys_distinct(rows: Seq<JoinSoundRow>) -> bool {
    forall|i: int, j: int| 0 <= i < j < rows.len() ==> rows[i].key() != rows[j].key()
}

/// The bindings that rows make, a later row overruling an earlier one of the same key.
pub open spec fn bindings_of(rows: Seq<JoinSoundRow>) -> Map<(u64, Option<u64>), u32>
    decreases rows.len(),
{
    if rows.len() == 0 {
        Map::empty()
    } else {
        bindings_of(rows.drop_last()).insert(rows.last().key(), rows.last().join_sound_id)
    }
}

/// The sound that greets `user` on joining in `scope`. A binding for the guild itself
/// comes first. The binding for every guild stands in for it, unless only bindings of the
/// guild are wanted.
pub open spec fn resolve_binding(
    bindings: Map<(u64, Option<u64>), u32>,
    user: u64,
    scope: Option<u64>,
    guild_only: bool,
) -> Option<u32> {
    if scope is Some && bindings.contains_key((user, scope)) {
        Some(bindings[(user, scope)])
    } else if !guild_only && bindings.contains_key((user, None)) {
        Some(bindings[(user, None)])
    } else {
        None
    }
}

/// The bindings after the one of `user` in `scope` was replaced by `new`.
pub open spec fn replaced(
    bindings: Map<(u64, Option<u64>), u32>,
    user: u64,
    scope: Option<u64>,
    new: Option<u32>,
) -> Map<(u64, Option<u64>), u32> {
    match new {
        Some(id) => bindings.insert((user, scope), id),
        None => bindings.remove((user, scope)),
    }
}

/// A user is bound in a scope exactly where a row binds them there.
pub proof fn lemma_bindings_keys(rows: Seq<JoinSoundRow>, k: (u64, Option<u64>))
    ensures
        bindings_of(rows).contains_key(k) <==> exists|i: int|
            0 <= i < rows.len() && #[trigger] rows[i].key() == k,
    decreases rows.len(),
{
    if rows.len() > 0 {
        let rest = rows.drop_last();
        lemma_bindings_keys(rest, k);
        if bindings_of(rows).contains_key(k) {
            if rows.last().key() == k {
                assert(rows[rows.len() - 1].key() == k);
            } else {
                let i = choose|i: int| 0 <= i < rest.len() && #[trigger] rest[i].key() == k;
                assert(rows[i].key() == k);
            }
        }
        if exists|i: int| 0 <= i < rows.len() && #[trigger] rows[i].key() == k {
            let i = choose|i: int| 0 <= i < rows.len() && #[trigger] rows[i].key() == k;
            if i < rows.len() - 1 {
                assert(rest[i].key() == k);
            }
        }
    }
}

/// Where no two rows share a key, each row is the binding of its key.
pub proof fn lemma_bindings_value(rows: Seq<JoinSoundRow>, i: int)
    requires
        keys_distinct(rows),
        0 <= i < rows.len(),
    ensures
        bindings_of(rows).contains_key(rows[i].key()),
        bindings_of(rows)[rows[i].key()] == rows[i].join_sound_id,
    decreases rows.len(),
{
    let rest = rows.drop_last();
    if i < rows.len() - 1 {
        assert(keys_distinct(rest)) by {
            assert forall|a: int, b: int| 0 <= a < b < rest.len() implies rest[a].key()
                != rest[b].key() by {
                assert(rest[a] == rows[a] && rest[b] == rows[b]);
            }
        }
        lemma_bindings_value(rest, i);
        assert(rest[i] == rows[i]);
        assert(rows[i].key() != rows[rows.len() - 1].key());
    }
}

/// Taking a row away takes away the binding of its key and no other.
pub proof fn lemma_bindings_remove(rows: Seq<JoinSoundRow>, i: int)
    requires
        keys_distinct(rows),
        0 <= i < rows.len(),
    ensures
        keys_distinct(rows.remove(i)),
        bindings_of(rows.remove(i)) == bindings_of(rows).remove(rows[i].key()),
    decreases rows.len(),
{
    let gone = rows.remove(i);
    assert(keys_distinct(gone)) by {
        assert forall|a: int, b: int| 0 <= a < b < gone.len() implies gone[a].key()
            != gone[b].key() by {
            let a2 = if a < i { a } else { a + 1 };
            let b2 = if b < i { b } else { b + 1 };
            assert(gone[a] == rows[a2] && gone[b] == rows[b2]);
        }
    }
    let rest = rows.drop_last();
    if i == rows.len() - 1 {
        assert(gone =~= rest);
        lemma_bindings_keys(rest, rows[i].key());
        if bindings_of(rest).contains_key(rows[i].key()) {
            let j = choose|j: int| 0 <= j < rest.len() && #[trigger] rest[j].key() == rows[i].key();
            assert(rows[j].key() == rows[i].key());
        }
        assert(bindings_of(rest) =~= bindings_of(rows).remove(rows[i].key()));
    } else {
        assert(keys_distinct(rest)) by {
            assert forall|a: int, b: int| 0 <= a < b < rest.len() implies rest[a].key()
                != rest[b].key() by {
                assert(rest[a] == rows[a] && rest[b] == rows[b]);
            }
        }
        lemma_bindings_remove(rest, i);
        assert(rest[i] == rows[i]);
        assert(gone.drop_last() =~= rest.remove(i));
        assert(gone.last() == rows.last());
        assert(rows[i].key() != rows[rows.len() - 1].key());
        assert(bindings_of(gone) =~= bindings_of(rows).remove(rows[i].key()));
    }
}

/// Rows of which no two share a key hold exactly one row for each binding and none for
/// anything else: a user bound in a scope has one row, which names the bound sound, and a
/// user not bound there has none.
pub proof fn lemma_one_row_per_binding(rows: Seq<JoinSoundRow>, user: u64, scope: Option<u64>)
    requires
        keys_distinct(rows),
    ensures
        bindings_of(rows).contains_key((user, scope)) <==> exists|i: int|
            0 <= i < rows.len() && #[trigger] rows[i].key() == (user, scope),
        forall|i: int, j: int|
            0 <= i < rows.len() && 0 <= j < rows.len() && #[trigger] rows[i].key() == (user, scope)
                && #[trigger] rows[j].key() == (user, scope) ==> i == j,
        forall|i: int|
            0 <= i < rows.len() && #[trigger] rows[i].key() == (user, scope) ==> bindings_of(
                rows,
            )[(user, scope)] == rows[i].join_sound_id,
{
    lemma_bindings_keys(rows, (user, scope));
    assert forall|i: int|
        0 <= i < rows.len() && #[trigger] rows[i].key() == (user, scope) implies bindings_of(
        rows,
    )[(user, scope)] == rows[i].join_sound_id by {
        lemma_bindings_value(rows, i);
    }
}

/// Of two replacements of one binding only the second shows: no row of the first is left.
pub proof fn lemma_replace_twice(
    bindings: Map<(u64, Option<u64>), u32>,
    user: u64,
    scope: Option<u64>,
    first: Option<u32>,
    second: Option<u32>,
)
    ensures
        replaced(replaced(bindings, user, scope, first), user, scope, second) == replaced(
            bindings,
            user,
            scope,
            second,
        ),
        second matches Some(id) ==> replaced(bindings, user, scope, second)[(user, scope)] == id,
        second is None ==> !replaced(bindings, user, scope, second).contains_key((user, scope)),
{
    assert(replaced(replaced(bindings, user, scope, first), user, scope, second) =~= replaced(
        bindings,
        user,
        scope,
        second,
    ));
}

/// A replacement leaves the bindings of every other user and scope as they were.
pub proof fn lemma_replace_elsewhere(
    bindings: Map<(u64, Option<u64>), u32>,
    user: u64,
    scope: Option<u64>,
    new: Option<u32>,
    other: (u64, Option<u64>),
)
    requires
        other != (user, scope),
    ensures
        replaced(bindings, user, scope, new).contains_key(other) == bindings.contains_key(other),
        bindings.contains_key(other) ==> replaced(bindings, user, scope, new)[other]
            == bindings[other],
{
}

/// The table of join sounds: at most one binding for each user in each scope.
pub struct JoinSoundTable {
    rows: Vec<JoinSoundRow>,
}

impl View for JoinSoundTable {
    type V = Map<(u64, Option<u64>), u32>;

    closed spec fn view(&self) -> Map<(u64, Option<u64>), u32> {
        bindings_of(self.rows@)
    }
}

impl JoinSoundTable {
    /// No user is bound twice in one scope.
    pub closed spec fn wf(&self) -> bool {
        keys_distinct(self.rows@)
    }

    /// A table with no binding.
    pub fn new() -> (t: JoinSoundTable)
        ensures
            t.wf(),
            t@ == Map::<(u64, Option<u64>), u32>::empty(),
    {
        JoinSoundTable { rows: Vec::new() }
    }

    fn find(&self, user: u64, scope: Option<u64>) -> (r: Option<usize>)
        ensures
            r matches Some(i) ==> i < self.rows.len() && self.rows[i as int].key() == (user, scope),
            r is None ==> forall|i: int|
                0 <= i < self.rows.len() ==> #[trigger] self.rows[i].key() != (user, scope),
    {
        let mut i: usize = 0;
        while i < self.rows.len()
            invariant
                i <= self.rows.len(),
                forall|k: int| 0 <= k < i ==> #[trigger] self.rows[k].key() != (user, scope),
            decreases self.rows.len() - i,
        {
            let row = self.rows[i];
            let same_scope = match (row.guild, scope) {
                (Some(a), Some(b)) => a == b,
                (None, None) => true,
                _ => false,
            };
            if row.user == user && same_scope {
                return Some(i);
            }
            i += 1;
        }
        None
    }

    /// The sound bound to exactly `user` and `scope`, if one is.
    pub fn get(&self, user: u64, scope: Option<u64>) -> (r: Option<u32>)
        requires
            self.wf(),
        ensures
            r == (if self@.contains_key((user, scope)) {
                Some(self@[(user, scope)])
            } else {
                None
            }),
    {
        proof {
            lemma_bindings_keys(self.rows@, (user, scope));
        }
        match self.find(user, scope) {
            Some(i) => {
                proof {
                    lemma_bindings_value(self.rows@, i as int);
                }
                Some(self.rows[i].join_sound_id)
            },
            None => None,
        }
    }

    /// The sound that greets `user` on joining in `scope`.
    pub fn resolve(&self, user: u64, scope: Option<u64>, guild_only: bool) -> (r: Option<u32>)
        requires
            self.wf(),
        ensures
            r == resolve_binding(self@, user, scope, guild_only),
    {
        if scope.is_some() {
            match self.get(user, scope) {
                Some(id) => { return Some(id); },
                None => {},
            }
        }
        if guild_only {
            None
        } else {
            self.get(user, None)
        }
    }

    /// Replaces the binding of `user` in `scope`: the old row goes, and where `new` names a
    /// sound a row for it comes. No other binding changes.
    pub fn replace(&mut self, user: u64, scope: Option<u64>, new: Option<u32>)
        requires
            old(self).wf(),
        ensures
            final(self).wf(),
            final(self)@ == replaced(old(self)@, user, scope, new),
    {
        proof {
            lemma_bindings_keys(self.rows@, (user, scope));
        }
        match self.find(user, scope) {
            Some(i) => {
                proof {
                    lemma_bindings_remove(self.rows@, i as int);
                }
                self.rows.remove(i);
            },
            None => {
                assert(self@ =~= self@.remove((user, scope)));
            },
        }
        proof {
            lemma_bindings_keys(self.rows@, (user, scope));
        }
        assert(self@ == old(self)@.remove((user, scope)));
        assert(!self@.contains_key((user, scope)));
        match new {
            Some(id) => {
                let ghost before = self.rows@;
                let row = JoinSoundRow { user, guild: scope, join_sound_id: id };
                self.rows.push(row);
                assert(self.rows@.drop_last() =~= before);
                assert(keys_distinct(self.rows@)) by {
                    assert forall|a: int, b: int| 0 <= a < b < self.rows@.len() implies self.rows@[a].key()
                        != self.rows@[b].key() by {
                        if b < before.len() {
                            assert(self.rows@[a] == before[a] && self.rows@[b] == before[b]);
                        } else {
                            assert(self.rows@[a] == before[a]);
                        }
                    }
                }
                assert(self@ =~= old(self)@.insert((user, scope), id));
            },
            None => {},
        }
    }
}

impl JoinSoundTable {
    /// Makes a table of rows read elsewhere. Rows that bind a user twice in one scope make
    /// no table.
    pub fn load(rows: Vec<JoinSoundRow>) -> (r: Option<JoinSoundTable>)
        ensures
            r is Some <==> keys_distinct(rows@),
            r matches Some(t) ==> t.wf() && t@ == bindings_of(rows@),
    {
        let mut j: usize = 0;
        while j < rows.len()
            invariant
                j <= rows.len(),
                forall|a: int, b: int| 0 <= a < b < j ==> rows@[a].key() != rows@[b].key(),
            decreases rows.len() - j,
        {
            let mut k: usize = 0;
            while k < j
                invariant
                    k <= j < rows.len(),
                    forall|a: int| 0 <= a < k ==> rows@[a].key() != rows@[j as int].key(),
                decreases j - k,
            {
                let same_scope = match (rows[k].guild, rows[j].guild) {
                    (Some(a), Some(b)) => a == b,
                    (None, None) => true,
                    _ => false,
                };
                if rows[k].user == rows[j].user && same_scope {
                    assert(rows@[k as int].key() == rows@[j as int].key());
                    return None;
                }
                k += 1;
            }
            j += 1;
        }
        Some(JoinSoundTable { rows })
    }

    /// The rows of the table: one for each binding.
    pub fn rows(&self) -> (rows: &Vec<JoinSoundRow>)
        requires
            self.wf(),
        ensures
            keys_distinct(rows@),
            bindings_of(rows@) == self@,
    {
        &self.rows
    }
}

} // verus!
