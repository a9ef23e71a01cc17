use crate::catalog::{page_of, Catalog};
use crate::sound::{Sound, SoundView};
use crate::store::{views, SoundStore};
use crate::text::{
    chars_of, decimal, decimal_chars, decimal_value, digit_run_end, has_at,
    is_canonical_decimal, lemma_canonical_is_decimal, lemma_decimal_value, lemma_digit_run_end,
    parse_digits, push_chars, push_decimal, scan_digits, starts_at,
};
use crate::ui::{
    button_views, field_views, Button, ButtonStyle, ButtonView, Embed, EmbedField, EmbedFieldView,
    EmbedView,
};
use vstd::prelude::*;

verus! {

/// How many sounds one page of a listing shows.
pub const PAGE_SIZE: u64 = 25;

/// Which collection of sounds a listing pages through.
#[derive(Clone, Copy, Debug, PartialEq, Eq, Structural)]
pub enum ListContext {
    User,
    Guild,
    Favorite,
}

impl ListContext {
    /// The heading of a listing of this collection.
    pub open spec fn title_text(self) -> Seq<char> {
        match self {
            ListContext::User => "Your sounds"@,
            ListContext::Favorite => "Your favorite sounds"@,
            ListContext::Guild => "Server sounds"@,
        }
    }

    /// The name under which a token carries this collection.
    pub open spec fn name(self) -> Seq<char> {
        match self {
            ListContext::User => "User"@,
            ListContext::Guild => "Guild"@,
            ListContext::Favorite => "Favorite"@,
        }
    }

    pub fn title(&self) -> (t: &'static str)
        ensures
            t@ == self.title_text(),
    {
        match self {
            ListContext::User => "Your sounds",
            ListContext::Favorite => "Your favorite sounds",
            ListContext::Guild => "Server sounds",
        }
    }

    fn name_str(&self) -> (t: &'static str)
        ensures
            t@ == self.name(),
    {
        match self {
            ListContext::User => "User",
            ListContext::Guild => "Guild",
            ListContext::Favorite => "Favorite",
        }
    }
}

/// The cursor of a paged listing: everything needed to draw one page again.
#[derive(Clone, Copy, Debug, PartialEq, Eq, Structural)]
pub struct SoundPager {
    pub nonce: u64,
    pub page: u64,
    pub context: ListContext,
}

/// A control identifier that is not the token of any cursor.
#[derive(Clone, Copy, Debug, PartialEq, Eq, Structural)]
pub struct DecodeError {}

/// The token that carries the cursor `(nonce, page, context)`.
pub open spec fn token_of(nonce: u64, page: u64, context: ListContext) -> Seq<char> {
    "{\"nonce\":"@ + decimal(nonce as nat) + ",\"page\":"@ + decimal(page as nat)
        + ",\"context\":\""@ + context.name() + "\"}"@
}

/// The number whose shortest numeral starts at `i`, and where that numeral ends.
pub open spec fn read_number(t: Seq<char>, i: int) -> Option<(u64, int)> {
    let j = digit_run_end(t, i);
    let run = t.subrange(i, j);
    if 0 <= i <= j <= t.len() && is_canonical_decimal(run) && decimal_value(run) <= u64::MAX {
        Some((decimal_value(run) as u64, j))
    } else {
        None
    }
}

/// Whether `t` ends, from `i` on, with the name of `context` and the closing of a token.
pub open spec fn closes_with(t: Seq<char>, i: int, context: ListContext) -> bool {
    &&& has_at(t, i, context.name())
    &&& has_at(t, i + context.name().len(), "\"}"@)
    &&& i + context.name().len() + 2 == t.len()
}

/// The collection that `t` names from `i` to its end.
pub open spec fn read_context(t: Seq<char>, i: int) -> Option<ListContext> {
    if closes_with(t, i, ListContext::User) {
        Some(ListContext::User)
    } else if closes_with(t, i, ListContext::Guild) {
        Some(ListContext::Guild)
    } else if closes_with(t, i, ListContext::Favorite) {
        Some(ListContext::Favorite)
    } else {
        None
    }
}

/// The cursor that `t` reads as, going through it from left to right.
#[verifier::opaque]
pub open spec fn read_token(t: Seq<char>) -> Option<SoundPager> {
    if !has_at(t, 0, "{\"nonce\":"@) {
        None
    } else {
        match read_number(t, 9) {
            None => None,
            Some((nonce, j)) => if !has_at(t, j, ",\"page\":"@) {
                None
            } else {
                match read_number(t, j + 8) {
                    None => None,
                    Some((page, k)) => if !has_at(t, k, ",\"context\":\""@) {
                        None
                    } else {
                        match read_context(t, k + 12) {
                            None => None,
                            Some(context) => Some(SoundPager { nonce, page, context }),
                        }
                    },
                }
            },
        }
    }
}

proof fn lemma_literals()
    ensures
        "{\"nonce\":"@.len() == 9,
        ",\"page\":"@.len() == 8,
        ",\"page\":"@[0] == ',',
        ",\"context\":\""@.len() == 12,
        ",\"context\":\""@[0] == ',',
        "\"}"@.len() == 2,
        "User"@.len() == 4,
        "Guild"@.len() == 5,
        "Favorite"@.len() == 8,
        "User"@[0] == 'U',
        "Guild"@[0] == 'G',
        "Favorite"@[0] == 'F',
{
    reveal_strlit("{\"nonce\":");
    reveal_strlit(",\"page\":");
    reveal_strlit(",\"context\":\"");
    reveal_strlit("\"}");
    reveal_strlit("User");
    reveal_strlit("Guild");
    reveal_strlit("Favorite");
}

/// A string that reads as a cursor is the token of that cursor.
pub proof fn lemma_read_is_token(t: Seq<char>)
    requires
        read_token(t).is_some(),
    ensures
        t == read_token(t).unwrap().token(),
{
    reveal(read_token);
    lemma_literals();
    let p = read_token(t).unwrap();
    let (nonce, j) = read_number(t, 9).unwrap();
    let (page, k) = read_number(t, j + 8).unwrap();
    let c = read_context(t, k + 12).unwrap();
    assert(p == SoundPager { nonce, page, context: c });
    lemma_canonical_is_decimal(t.subrange(9, j));
    lemma_canonical_is_decimal(t.subrange(j + 8, k));
    assert(closes_with(t, k + 12, c));
    let n = c.name().len() as int;
    assert(t =~= t.subrange(0, 9) + t.subrange(9, j) + t.subrange(j, j + 8) + t.subrange(
        j + 8,
        k,
    ) + t.subrange(k, k + 12) + t.subrange(k + 12, k + 12 + n) + t.subrange(
        k + 12 + n,
        k + 12 + n + 2,
    ));
}

/// The token of a cursor reads as that cursor.
pub proof fn lemma_token_reads(p: SoundPager)
    ensures
        read_token(p.token()) == Some(p),
{
    reveal(read_token);
    lemma_literals();
    lemma_decimal_value(p.nonce as nat);
    lemma_decimal_value(p.page as nat);
    let t = p.token();
    let d1 = decimal(p.nonce as nat);
    let d2 = decimal(p.page as nat);
    let name = p.context.name();
    let j = 9 + d1.len() as int;
    let k = j + 8 + d2.len() as int;
    let n = name.len() as int;
    assert(t.len() == k + 12 + n + 2);
    assert(t.subrange(0, 9) =~= "{\"nonce\":"@);
    assert(t.subrange(9, j) =~= d1);
    assert(t.subrange(j, j + 8) =~= ",\"page\":"@);
    assert(t.subrange(j + 8, k) =~= d2);
    assert(t.subrange(k, k + 12) =~= ",\"context\":\""@);
    assert(t.subrange(k + 12, k + 12 + n) =~= name);
    assert(t.subrange(k + 12 + n, k + 12 + n + 2) =~= "\"}"@);
    assert(t[j] == ',') by {
        assert(t[j] == t.subrange(j, j + 8)[0]);
    }
    assert(t[k] == ',') by {
        assert(t[k] == t.subrange(k, k + 12)[0]);
    }
    lemma_digit_run_end(t, 9, j);
    lemma_digit_run_end(t, j + 8, k);
    assert(read_number(t, 9) == Some((p.nonce, j)));
    assert(read_number(t, j + 8) == Some((p.page, k)));
    assert(closes_with(t, k + 12, p.context));
    assert(t[k + 12] == name[0]) by {
        assert(t[k + 12] == t.subrange(k + 12, k + 12 + n)[0]);
    }
    assert forall|c: ListContext| c != p.context implies !#[trigger] closes_with(
        t,
        k + 12,
        c,
    ) by {
        if has_at(t, k + 12, c.name()) {
            assert(t[k + 12] == t.subrange(k + 12, k + 12 + c.name().len())[0]);
        }
    }
    assert(read_context(t, k + 12) == Some(p.context));
}

fn parse_number(v: &Vec<char>, i: usize) -> (r: Option<(u64, usize)>)
    requires
        i <= v.len(),
    ensures
        r.is_some() == read_number(v@, i as int).is_some(),
        r matches Some((n, j)) ==> read_number(v@, i as int) == Some((n, j as int)),
{
    let j = scan_digits(v, i);
    if j == i {
        return None;
    }
    assert(v@.subrange(i as int, j as int)[0] == v@[i as int]);
    if v[i] == '0' && j - i != 1 {
        return None;
    }
    match parse_digits(v, i, j, u64::MAX) {
        Some(n) => Some((n, j)),
        None => None,
    }
}

fn ends_with_context(v: &Vec<char>, i: usize, context: ListContext) -> (r: bool)
    ensures
        r == closes_with(v@, i as int, context),
{
    proof {
        lemma_literals();
    }
    let name = chars_of(context.name_str());
    let close = chars_of("\"}");
    if !starts_at(v, i, &name) {
        return false;
    }
    assert(i + name.len() <= v.len());
    let after: usize = i + name.len();
    starts_at(v, after, &close) && v.len() - after == 2
}

fn parse_context(v: &Vec<char>, i: usize) -> (r: Option<ListContext>)
    ensures
        r == read_context(v@, i as int),
{
    if ends_with_context(v, i, ListContext::User) {
        Some(ListContext::User)
    } else if ends_with_context(v, i, ListContext::Guild) {
        Some(ListContext::Guild)
    } else if ends_with_context(v, i, ListContext::Favorite) {
        Some(ListContext::Favorite)
    } else {
        None
    }
}

fn parse_token(v: &Vec<char>) -> (r: Option<SoundPager>)
    ensures
        r == read_token(v@),
{
    proof {
        reveal(read_token);
        lemma_literals();
    }
    let open = chars_of("{\"nonce\":");
    let then_page = chars_of(",\"page\":");
    let then_context = chars_of(",\"context\":\"");
    if !starts_at(v, 0, &open) {
        return None;
    }
    let (nonce, j) = match parse_number(v, 9) {
        Some(found) => found,
        None => { return None; },
    };
    if !starts_at(v, j, &then_page) {
        return None;
    }
    assert(j + 8 <= v.len());
    let (page, k) = match parse_number(v, j + 8) {
        Some(found) => found,
        None => { return None; },
    };
    if !starts_at(v, k, &then_context) {
        return None;
    }
    assert(k + 12 <= v.len());
    match parse_context(v, k + 12) {
        Some(context) => Some(SoundPager { nonce, page, context }),
        None => None,
    }
}

impl SoundPager {
    /// The token of this cursor.
    pub open spec fn token(self) -> Seq<char> {
        token_of(self.nonce, self.page, self.context)
    }

    /// Writes the cursor as a token.
    pub fn encode(&self) -> (t: String)
        ensures
            t@ == self.token(),
    {
        let mut t = String::new();
        t.append("{\"nonce\":");
        push_decimal(&mut t, self.nonce);
        t.append(",\"page\":");
        push_decimal(&mut t, self.page);
        t.append(",\"context\":\"");
        t.append(self.context.name_str());
        t.append("\"}");
        assert(t@ =~= self.token());
        t
    }

    /// Reads a token back: the cursor whose token `token` is, or the error where it is the
    /// token of none.
    pub fn decode(token: &str) -> (r: Result<SoundPager, DecodeError>)
        ensures
            r matches Ok(p) ==> token@ == p.token(),
            r is Err ==> forall|p: SoundPager| token@ != #[trigger] p.token(),
            r is Ok == read_token(token@) is Some,
            r matches Ok(p) ==> read_token(token@) == Some(p),
    {
        let v = chars_of(token);
        match parse_token(&v) {
            Some(p) => {
                proof {
                    lemma_read_is_token(v@);
                }
                Ok(p)
            },
            None => {
                proof {
                    assert forall|p: SoundPager| token@ != #[trigger] p.token() by {
                        lemma_token_reads(p);
                    }
                }
                Err(DecodeError {  })
            },
        }
    }
}

/// Different cursors have different tokens.
pub proof fn lemma_token_injective(p: SoundPager, q: SoundPager)
    requires
        p.token() == q.token(),
    ensures
        p == q,
{
    lemma_token_reads(p);
    lemma_token_reads(q);
}

/// The last page of a listing of `count` sounds, pages counted from 0.
pub fn max_page(count: u64) -> (last: u64)
    ensures
        last == count / PAGE_SIZE,
{
    count / PAGE_SIZE
}

/// A button without an emoji.
pub open spec fn control(
    custom_id: Seq<char>,
    label: Seq<char>,
    style: ButtonStyle,
    disabled: bool,
) -> ButtonView {
    ButtonView { custom_id, label, emoji: None, style, disabled }
}

fn make_control(custom_id: String, label: String, style: ButtonStyle, disabled: bool) -> (b: Button)
    ensures
        b@ == control(custom_id@, label@, style, disabled),
{
    Button { custom_id, label, emoji: None, style, disabled }
}

impl SoundPager {
    /// The page before this one, or this one where it is the first.
    pub open spec fn previous_page(self) -> u64 {
        if self.page == 0 {
            0
        } else {
            (self.page - 1) as u64
        }
    }

    /// The page after this one, or this one where no number is left for another.
    pub open spec fn next_page(self) -> u64 {
        if self.page == u64::MAX {
            self.page
        } else {
            (self.page + 1) as u64
        }
    }

    /// The five controls under a page: to the first page, to the page before, the page
    /// shown, to the page after, to `max_page`. Each carries a whole cursor as its
    /// identifier, under a nonce of its own. The one for the page shown never responds. On
    /// the first page the two that lead back do not respond, on page `max_page` the two
    /// that lead on.
    pub open spec fn action_row(self, max_page: u64) -> Seq<ButtonView> {
        seq![
            control(
                token_of(0, 0, self.context),
                "⏪"@,
                ButtonStyle::Primary,
                self.page == 0,
            ),
            control(
                token_of(1, self.previous_page(), self.context),
                "◀️"@,
                ButtonStyle::Secondary,
                self.page == 0,
            ),
            control(
                token_of(4, self.page, self.context),
                "Page "@ + decimal((self.page + 1) as nat),
                ButtonStyle::Success,
                true,
            ),
            control(
                token_of(2, self.next_page(), self.context),
                "▶️"@,
                ButtonStyle::Secondary,
                self.page == max_page,
            ),
            control(
                token_of(3, max_page, self.context),
                "⏩"@,
                ButtonStyle::Primary,
                self.page == max_page,
            ),
        ]
    }

    /// Draws the controls under a page of a listing whose last page is `max_page`.
    pub fn create_action_row(&self, max_page: u64) -> (row: Vec<Button>)
        ensures
            button_views(row@) == self.action_row(max_page),
    {
        let context = self.context;
        let back = if self.page == 0 {
            0
        } else {
            self.page - 1
        };
        let on = if self.page == u64::MAX {
            self.page
        } else {
            self.page + 1
        };
        let mut shown = String::from_str("Page ");
        let number = decimal_chars(self.page as u128 + 1);
        push_chars(&mut shown, &number);
        let mut row: Vec<Button> = Vec::new();
        row.push(
            make_control(
                SoundPager { nonce: 0, page: 0, context }.encode(),
                String::from_str("⏪"),
                ButtonStyle::Primary,
                self.page == 0,
            ),
        );
        row.push(
            make_control(
                SoundPager { nonce: 1, page: back, context }.encode(),
                String::from_str("◀️"),
                ButtonStyle::Secondary,
                self.page == 0,
            ),
        );
        row.push(
            make_control(
                SoundPager { nonce: 4, page: self.page, context }.encode(),
                shown,
                ButtonStyle::Success,
                true,
            ),
        );
        row.push(
            make_control(
                SoundPager { nonce: 2, page: on, context }.encode(),
                String::from_str("▶️"),
                ButtonStyle::Secondary,
                self.page == max_page,
            ),
        );
        row.push(
            make_control(
                SoundPager { nonce: 3, page: max_page, context }.encode(),
                String::from_str("⏩"),
                ButtonStyle::Primary,
                self.page == max_page,
            ),
        );
        assert(button_views(row@) =~= self.action_row(max_page));
        row
    }

    /// The cursor that control `i` of the row carries, controls counted from 0.
    pub open spec fn control_cursor(self, max_page: u64, i: int) -> SoundPager {
        let context = self.context;
        if i == 0 {
            SoundPager { nonce: 0, page: 0, context }
        } else if i == 1 {
            SoundPager { nonce: 1, page: self.previous_page(), context }
        } else if i == 2 {
            SoundPager { nonce: 4, page: self.page, context }
        } else if i == 3 {
            SoundPager { nonce: 2, page: self.next_page(), context }
        } else {
            SoundPager { nonce: 3, page: max_page, context }
        }
    }

    /// The identifier of each of the five controls is the token of a cursor over the
    /// collection that the page shows, and no two controls share an identifier.
    pub proof fn lemma_controls(self, max_page: u64, i: int, j: int)
        requires
            0 <= i < 5,
            0 <= j < 5,
        ensures
            self.action_row(max_page).len() == 5,
            self.action_row(max_page)[i].custom_id == self.control_cursor(max_page, i).token(),
            self.control_cursor(max_page, i).context == self.context,
            i != j ==> self.action_row(max_page)[i].custom_id != self.action_row(
                max_page,
            )[j].custom_id,
    {
        let a = self.control_cursor(max_page, i);
        let b = self.control_cursor(max_page, j);
        assert(self.action_row(max_page)[i].custom_id == a.token());
        assert(self.action_row(max_page)[j].custom_id == b.token());
        if i != j && a.token() == b.token() {
            lemma_token_injective(a, b);
        }
    }

    /// On the first page the controls that lead back do not respond, on the last page
    /// those that lead on, and the control for the page shown never does.
    pub proof fn lemma_boundary_controls(self, max_page: u64)
        ensures
            self.action_row(max_page)[2].disabled,
            self.page == 0 <==> self.action_row(max_page)[0].disabled,
            self.page == 0 <==> self.action_row(max_page)[1].disabled,
            self.page == max_page <==> self.action_row(max_page)[3].disabled,
            self.page == max_page <==> self.action_row(max_page)[4].disabled,
    {
    }
}

/// The entry of a listing for the sound `s`: its name over its id and whether it is public.
pub open spec fn listing_field(s: SoundView) -> EmbedFieldView {
    EmbedFieldView {
        name: s.name,
        value: "ID: `"@ + decimal(s.id as nat) + "`\n"@ + (if s.public {
            "*Public*"@
        } else {
            "*Private*"@
        }),
        inline: true,
    }
}

/// One page of a listing as it is shown: the sounds in an embed, over the controls.
#[derive(Debug)]
pub struct Page {
    pub embed: Embed,
    pub controls: Vec<Button>,
}

fn make_listing_field(s: &Sound) -> (f: EmbedField)
    ensures
        f@ == listing_field(s@),
{
    let mut value = String::from_str("ID: `");
    push_decimal(&mut value, s.id as u64);
    value.append("`\n");
    if s.public {
        value.append("*Public*");
    } else {
        value.append("*Private*");
    }
    let f = EmbedField { name: s.name.clone(), value, inline: true };
    assert(f@.value =~= listing_field(s@).value);
    f
}

/// Sound `i` of a listing stands on page `i / 25`, which is not after the last page, and
/// the page after the last is empty.
pub proof fn lemma_last_page(all: Seq<SoundView>, i: int)
    requires
        0 <= i < all.len(),
    ensures
        i / 25 <= all.len() / 25,
        page_of(all, (all.len() / 25 + 1) as nat, 25).len() == 0,
        page_of(all, (i / 25) as nat, 25)[i % 25] == all[i],
{
    let p = (i / 25) as nat;
    assert(p * 25 <= i < p * 25 + 25);
    assert(page_of(all, p, 25).len() > i % 25);
}

impl SoundPager {
    /// The collection that the cursor pages through, as `user` sees it in `guild`.
    pub open spec fn collection(self, catalog: Catalog, user: u64, guild: u64) -> Seq<SoundView> {
        match self.context {
            ListContext::User => catalog.uploads_of(user),
            ListContext::Favorite => catalog.favorites_of(user),
            ListContext::Guild => catalog.sounds_of_guild(guild),
        }
    }

    /// How many sounds the listing says there are.
    pub open spec fn total(self, catalog: Catalog, user: u64, guild: u64) -> nat {
        match self.context {
            ListContext::User => catalog.uploads_of(user).len(),
            ListContext::Favorite => catalog.favorites.filter(Catalog::favorite_of(user)).len(),
            ListContext::Guild => catalog.sounds_of_guild(guild).len(),
        }
    }

    /// The embed of a page that shows `sounds` out of `count`.
    pub open spec fn embed_view(self, sounds: Seq<SoundView>, count: u64) -> EmbedView {
        EmbedView {
            title: self.context.title_text(),
            description: "**"@ + decimal(count as nat) + "** sounds:"@,
            fields: sounds.map_values(|s: SoundView| listing_field(s)),
        }
    }

    /// The sounds of the page that the cursor points at.
    pub fn get_page(&self, store: &SoundStore, user_id: u64, guild_id: u64) -> (sounds: Vec<Sound>)
        ensures
            views(sounds@) == Catalog::listing(
                self.collection(store@, user_id, guild_id),
                Some(self.page),
            ),
    {
        match self.context {
            ListContext::User => store.user_sounds(user_id, Some(self.page)),
            ListContext::Favorite => store.favorite_sounds(user_id, Some(self.page)),
            ListContext::Guild => store.guild_sounds(guild_id, Some(self.page)),
        }
    }

    /// How many sounds the collection of the cursor holds, counted now.
    pub fn count(&self, store: &SoundStore, user_id: u64, guild_id: u64) -> (n: u64)
        ensures
            n == self.total(store@, user_id, guild_id),
    {
        match self.context {
            ListContext::User => store.count_user_sounds(user_id),
            ListContext::Favorite => store.count_favorite_sounds(user_id),
            ListContext::Guild => store.count_guild_sounds(guild_id),
        }
    }

    /// Draws `sounds` as the embed of a page of a listing of `count` sounds.
    pub fn embed(&self, sounds: &Vec<Sound>, count: u64) -> (e: Embed)
        ensures
            e@ == self.embed_view(views(sounds@), count),
    {
        let mut description = String::from_str("**");
        push_decimal(&mut description, count);
        description.append("** sounds:");
        let mut fields: Vec<EmbedField> = Vec::new();
        let ghost wanted = views(sounds@).map_values(|s: SoundView| listing_field(s));
        let mut i: usize = 0;
        while i < sounds.len()
            invariant
                i <= sounds.len(),
                wanted == views(sounds@).map_values(|s: SoundView| listing_field(s)),
                field_views(fields@) == wanted.take(i as int),
            decreases sounds.len() - i,
        {
            let ghost before = field_views(fields@);
            fields.push(make_listing_field(&sounds[i]));
            assert(field_views(fields@) =~= before.push(listing_field(sounds[i as int]@)));
            assert(wanted.take(i + 1) =~= wanted.take(i as int).push(wanted[i as int]));
            i += 1;
        }
        assert(wanted.take(sounds.len() as int) =~= wanted);
        let e = Embed { title: String::from_str(self.context.title()), description, fields };
        assert(e@.description =~= self.embed_view(views(sounds@), count).description);
        e
    }

    /// Draws the page that the cursor points at: the sounds of the page and their number
    /// are read from the store now, and the last page follows from that number.
    pub fn reply(&self, store: &SoundStore, user_id: u64, guild_id: u64) -> (page: Page)
        ensures
            page.embed@ == self.embed_view(
                Catalog::listing(self.collection(store@, user_id, guild_id), Some(self.page)),
                self.total(store@, user_id, guild_id) as u64,
            ),
            button_views(page.controls@) == self.action_row(
                (self.total(store@, user_id, guild_id) / 25) as u64,
            ),
    {
        let sounds = self.get_page(store, user_id, guild_id);
        let count = self.count(store, user_id, guild_id);
        Page { embed: self.embed(&sounds, count), controls: self.create_action_row(max_page(count)) }
    }

    /// Answers a click on a control whose identifier is `custom_id`: where it is the token
    /// of a cursor, the page of that cursor, drawn anew; where it is not, the error, and
    /// the click is for someone else to answer.
    pub fn handle_interaction(store: &SoundStore, custom_id: &str, user_id: u64, guild_id: u64) -> (r:
        Result<Page, DecodeError>)
        ensures
            r is Err <==> forall|p: SoundPager| custom_id@ != #[trigger] p.token(),
            r is Ok == read_token(custom_id@) is Some,
            r matches Ok(page) ==> ({
                let p = read_token(custom_id@).unwrap();
                &&& custom_id@ == p.token()
                &&& page.embed@ == p.embed_view(
                    Catalog::listing(p.collection(store@, user_id, guild_id), Some(p.page)),
                    p.total(store@, user_id, guild_id) as u64,
                )
                &&& button_views(page.controls@) == p.action_row(
                    (p.total(store@, user_id, guild_id) / 25) as u64,
                )
            }),
    {
        match SoundPager::decode(custom_id) {
            Ok(pager) => Ok(pager.reply(store, user_id, guild_id)),
            Err(e) => Err(e),
        }
    }
}

} // verus!
