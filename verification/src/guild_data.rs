use vstd::prelude::*;

verus! {

/// Whether a guild lets its members be greeted with a sound when they join a voice channel.
#[derive(Copy, Clone, Debug, PartialEq, Eq, Structural)]
pub enum AllowGreet {
    /// Every join sound plays.
    Enabled,
    /// Only a join sound that was set for this guild plays.
    GuildOnly,
    /// No join sound plays.
    Disabled,
}

impl AllowGreet {
    /// The number under which the relational store keeps the policy.
    pub open spec fn code_of(self) -> int {
        match self {
            AllowGreet::Enabled => 1,
            AllowGreet::GuildOnly => 0,
            AllowGreet::Disabled => -1,
        }
    }

    /// The number under which the relational store keeps the policy.
    pub fn code(&self) -> (c: i32)
        ensures
            c == self.code_of(),
    {
        match self {
            AllowGreet::Enabled => 1,
            AllowGreet::GuildOnly => 0,
            AllowGreet::Disabled => -1,
        }
    }

    /// The policy that the relational store keeps under `code`, where it is one.
    pub fn from_code(code: i32) -> (r: Option<AllowGreet>)
        ensures
            r matches Some(policy) ==> policy.code_of() == code,
            r is None ==> forall|policy: AllowGreet| #[trigger] policy.code_of() != code,
    {
        if code == 1 {
            Some(AllowGreet::Enabled)
        } else if code == 0 {
            Some(AllowGreet::GuildOnly)
        } else if code == -1 {
            Some(AllowGreet::Disabled)
        } else {
            None
        }
    }
}

/// The settings of one guild.
#[derive(Debug)]
pub struct GuildData {
    pub id: u64,
    pub prefix: String,
    pub volume: u8,
    pub allow_greets: AllowGreet,
    pub allowed_role: Option<u64>,
}

/// What a `GuildData` holds, with its prefix as a sequence of characters.
pub struct GuildDataView {
    pub id: u64,
    pub prefix: Seq<char>,
    pub volume: u8,
    pub allow_greets: AllowGreet,
    pub allowed_role: Option<u64>,
}

impl View for GuildData {
    type V = GuildDataView;

    open spec fn view(&self) -> GuildDataView {
        GuildDataView {
            id: self.id,
            prefix: self.prefix@,
            volume: self.volume,
            allow_greets: self.allow_greets,
            allowed_role: self.allowed_role,
        }
    }
}

impl Clone for GuildData {
    fn clone(&self) -> (copy: GuildData)
        ensures
            copy@ == self@,
    {
        GuildData {
            id: self.id,
            prefix: self.prefix.clone(),
            volume: self.volume,
            allow_greets: self.allow_greets,
            allowed_role: self.allowed_role,
        }
    }
}

/// The settings that a guild has before anyone changed them: prefix `?`, full volume,
/// greets enabled, no role required.
pub open spec fn default_settings(id: u64) -> GuildDataView {
    GuildDataView {
        id,
        prefix: "?"@,
        volume: 100,
        allow_greets: AllowGreet::Enabled,
        allowed_role: None,
    }
}

/// Whether no two rows are of the same guild.
pub open spec fn guilds_distinct(rows: Seq<GuildDataView>) -> bool {
    forall|i: int, j: int| 0 <= i < j < rows.len() ==> rows[i].id != rows[j].id
}

/// The settings that rows hold, by guild; a later row overrules an earlier one of the
/// same guild.
pub open spec fn settings_of(rows: Seq<GuildDataView>) -> Map<u64, GuildDataView>
    decreases rows.len(),
{
    if rows.len() == 0 {
        Map::empty()
    } else {
        settings_of(rows.drop_last()).insert(rows.last().id, rows.last())
    }
}

/// Rows of distinct guilds stay so without their last.
pub proof fn lemma_distinct_rest(rows: Seq<GuildDataView>)
    requires
        guilds_distinct(rows),
        rows.len() > 0,
    ensures
        guilds_distinct(rows.drop_last()),
{
    let rest = rows.drop_last();
    assert forall|a: int, b: int| 0 <= a < b < rest.len() implies rest[a].id != rest[b].id by {
        assert(rest[a] == rows[a] && rest[b] == rows[b]);
    }
}

/// A guild has settings exactly where a row is of that guild.
pub proof fn lemma_settings_keys(rows: Seq<GuildDataView>, id: u64)
    ensures
        settings_of(rows).contains_key(id) <==> exists|i: int|
            0 <= i < rows.len() && #[trigger] rows[i].id == id,
    decreases rows.len(),
{
    if rows.len() > 0 {
        let rest = rows.drop_last();
        lemma_settings_keys(rest, id);
        if settings_of(rows).contains_key(id) {
            if rows.last().id == id {
                assert(rows[rows.len() - 1].id == id);
            } else {
                let i = choose|i: int| 0 <= i < rest.len() && #[trigger] rest[i].id == id;
                assert(rows[i].id == id);
            }
        }
        if exists|i: int| 0 <= i < rows.len() && #[trigger] rows[i].id == id {
            let i = choose|i: int| 0 <= i < rows.len() && #[trigger] rows[i].id == id;
            if i < rows.len() - 1 {
                assert(rest[i].id == id);
            }
        }
    }
}

/// Where no two rows are of the same guild, each row is the settings of its guild.
pub proof fn lemma_settings_value(rows: Seq<GuildDataView>, i: int)
    requires
        guilds_distinct(rows),
        0 <= i < rows.len(),
    ensures
        settings_of(rows).contains_key(rows[i].id),
        settings_of(rows)[rows[i].id] == rows[i],
    decreases rows.len(),
{
    if i < rows.len() - 1 {
        lemma_distinct_rest(rows);
        lemma_settings_value(rows.drop_last(), i);
        assert(rows.drop_last()[i] == rows[i]);
        assert(rows[i].id != rows[rows.len() - 1].id);
    }
}

/// Writing over a row changes the settings of its guild and of no other.
pub proof fn lemma_settings_update(rows: Seq<GuildDataView>, i: int, row: GuildDataView)
    requires
        guilds_distinct(rows),
        0 <= i < rows.len(),
        row.id == rows[i].id,
    ensures
        guilds_distinct(rows.update(i, row)),
        settings_of(rows.update(i, row)) == settings_of(rows).insert(row.id, row),
    decreases rows.len(),
{
    let changed = rows.update(i, row);
    assert(guilds_distinct(changed)) by {
        assert forall|a: int, b: int| 0 <= a < b < changed.len() implies changed[a].id
            != changed[b].id by {
            assert(changed[a].id == rows[a].id && changed[b].id == rows[b].id);
        }
    }
    let rest = rows.drop_last();
    if i == rows.len() - 1 {
        assert(changed.drop_last() =~= rest);
        assert(settings_of(changed) =~= settings_of(rows).insert(row.id, row));
    } else {
        lemma_distinct_rest(rows);
        lemma_settings_update(rest, i, row);
        assert(rest[i] == rows[i]);
        assert(changed.drop_last() =~= rest.update(i, row));
        assert(changed.last() == rows.last());
        assert(rows[i].id != rows[rows.len() - 1].id);
        assert(settings_of(changed) =~= settings_of(rows).insert(row.id, row));
    }
}

/// The views of a run of settings, in order.
pub open spec fn row_views(v: Seq<GuildData>) -> Seq<GuildDataView> {
    v.map_values(|g: GuildData| g@)
}

/// The table of guild settings: at most one row for each guild.
pub struct GuildTable {
    rows: Vec<GuildData>,
}

impl View for GuildTable {
    type V = Map<u64, GuildDataView>;

    closed spec fn view(&self) -> Map<u64, GuildDataView> {
        settings_of(row_views(self.rows@))
    }
}

impl GuildTable {
    /// No guild has two rows.
    pub closed spec fn wf(&self) -> bool {
        guilds_distinct(row_views(self.rows@))
    }

    /// A table with no row.
    pub fn new() -> (t: GuildTable)
        ensures
            t.wf(),
            t@ == Map::<u64, GuildDataView>::empty(),
    {
        let t = GuildTable { rows: Vec::new() };
        assert(row_views(t.rows@) =~= Seq::<GuildDataView>::empty());
        t
    }

    fn find(&self, id: u64) -> (r: Option<usize>)
        ensures
            r matches Some(i) ==> i < self.rows.len() && self.rows[i as int].id == id,
            r is None ==> forall|i: int|
                0 <= i < self.rows.len() ==> #[trigger] row_views(self.rows@)[i].id != id,
    {
        let mut i: usize = 0;
        while i < self.rows.len()
            invariant
                i <= self.rows.len(),
                forall|k: int| 0 <= k < i ==> #[trigger] row_views(self.rows@)[k].id != id,
            decreases self.rows.len() - i,
        {
            if self.rows[i].id == id {
                return Some(i);
            }
            i += 1;
        }
        None
    }

    /// The settings that the table holds for guild `id`, if it holds any.
    pub fn get(&self, id: u64) -> (r: Option<GuildData>)
        requires
            self.wf(),
        ensures
            r is Some == self@.contains_key(id),
            r matches Some(g) ==> g@ == self@[id],
    {
        proof {
            lemma_settings_keys(row_views(self.rows@), id);
        }
        match self.find(id) {
            Some(i) => {
                proof {
                    lemma_settings_value(row_views(self.rows@), i as int);
                }
                Some(self.rows[i].clone())
            },
            None => None,
        }
    }
}

impl GuildData {
    /// The settings that a guild has before anyone changed them.
    pub fn with_defaults(guild_id: u64) -> (g: GuildData)
        ensures
            g@ == default_settings(guild_id),
    {
        GuildData {
            id: guild_id,
            prefix: String::from_str("?"),
            volume: 100,
            allow_greets: AllowGreet::Enabled,
            allowed_role: None,
        }
    }

    /// The settings of guild `guild_id` as the table holds them. A guild that the table
    /// does not know yet gets a row of default settings first.
    pub fn from_id(guild_id: u64, db: &mut GuildTable) -> (g: GuildData)
        requires
            old(db).wf(),
        ensures
            final(db).wf(),
            old(db)@.contains_key(guild_id) ==> g@ == old(db)@[guild_id] && final(db)@ == old(db)@,
            !old(db)@.contains_key(guild_id) ==> g@ == default_settings(guild_id) && final(db)@
                == old(db)@.insert(guild_id, default_settings(guild_id)),
    {
        match db.get(guild_id) {
            Some(g) => g,
            None => Self::create_from_guild(guild_id, db),
        }
    }

    fn create_from_guild(guild_id: u64, db: &mut GuildTable) -> (g: GuildData)
        requires
            old(db).wf(),
            !old(db)@.contains_key(guild_id),
        ensures
            final(db).wf(),
            g@ == default_settings(guild_id),
            final(db)@ == old(db)@.insert(guild_id, default_settings(guild_id)),
    {
        let g = Self::with_defaults(guild_id);
        let ghost before = row_views(db.rows@);
        proof {
            lemma_settings_keys(before, guild_id);
        }
        db.rows.push(g.clone());
        proof {
            let after = row_views(db.rows@);
            assert(after.drop_last() =~= before);
            assert(after.last() == g@);
            assert forall|a: int, b: int| 0 <= a < b < after.len() implies after[a].id
                != after[b].id by {
                assert(after[a] == before[a]);
                if b < before.len() {
                    assert(after[b] == before[b]);
                }
            }
        }
        g
    }

    /// Writes these settings to the row of their guild. A table without such a row stays
    /// as it is.
    pub fn commit(&self, db: &mut GuildTable)
        requires
            old(db).wf(),
        ensures
            final(db).wf(),
            final(db)@ == (if old(db)@.contains_key(self.id) {
                old(db)@.insert(self.id, self@)
            } else {
                old(db)@
            }),
    {
        proof {
            lemma_settings_keys(row_views(db.rows@), self.id);
        }
        match db.find(self.id) {
            Some(i) => {
                let ghost before = row_views(db.rows@);
                proof {
                    lemma_settings_update(before, i as int, self@);
                }
                db.rows.set(i, self.clone());
                assert(row_views(db.rows@) =~= before.update(i as int, self@));
            },
            None => {},
        }
    }
}

impl GuildTable {
    /// Makes a table of rows read elsewhere. Rows that hold a guild twice make no table.
    pub fn load(rows: Vec<GuildData>) -> (r: Option<GuildTable>)
        ensures
            r is Some <==> guilds_distinct(row_views(rows@)),
            r matches Some(t) ==> t.wf() && t@ == settings_of(row_views(rows@)),
    {
        let ghost v = row_views(rows@);
        let mut j: usize = 0;
        while j < rows.len()
            invariant
                j <= rows.len(),
                v == row_views(rows@),
                forall|a: int, b: int| 0 <= a < b < j ==> v[a].id != v[b].id,
            decreases rows.len() - j,
        {
            let mut k: usize = 0;
            while k < j
                invariant
                    k <= j < rows.len(),
                    v == row_views(rows@),
                    forall|a: int| 0 <= a < k ==> v[a].id != v[j as int].id,
                decreases j - k,
            {
                if rows[k].id == rows[j].id {
                    assert(v[k as int].id == v[j as int].id);
                    return None;
                }
                k += 1;
            }
            j += 1;
        }
        Some(GuildTable { rows })
    }

    /// The rows of the table: one for each guild.
    pub fn rows(&self) -> (rows: &Vec<GuildData>)
        requires
            self.wf(),
        ensures
            guilds_distinct(row_views(rows@)),
            settings_of(row_views(rows@)) == self@,
    {
        &self.rows
    }
}

} // verus!
