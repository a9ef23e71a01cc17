use crate::sound::{Sound, SoundView};
use crate::store::{views, SoundStore};
use crate::text::{decimal, decimal_chars, push_chars, string_of};
use crate::ui::{field_views, Embed, EmbedField, EmbedFieldView, EmbedView};
use vstd::prelude::*;
use vstd::utf8::encode_utf8;

verus! {

/// The greatest number of entries that an embed shows.
pub const MAX_FIELDS: usize = 25;

/// The entry of a search result for the sound `s`: its name over its id.
pub open spec fn result_field(s: SoundView) -> EmbedFieldView {
    EmbedFieldView { name: s.name, value: "ID: "@ + decimal(s.id as nat), inline: true }
}

/// How many bytes the entry of `s` takes of a message.
pub open spec fn field_cost(s: SoundView) -> nat {
    encode_utf8(s.name).len() + result_field(s).value.len()
}

/// How many of the first `left` sounds fit into `budget` bytes together, counted from the
/// first and up to the first that does not fit.
pub open spec fn fitting(sounds: Seq<SoundView>, budget: int, left: nat) -> nat
    decreases sounds.len(),
{
    if sounds.len() == 0 || left == 0 || field_cost(sounds[0]) > budget {
        0
    } else {
        1 + fitting(sounds.drop_first(), budget - field_cost(sounds[0]), (left - 1) as nat)
    }
}

/// The embed that shows what a search found: under its title, the sounds from the first
/// on, as many as fit into a message of `limit` bytes beside the title, and 25 at most.
pub open spec fn results_embed(sounds: Seq<SoundView>, limit: usize) -> EmbedView {
    let title = "Public sounds matching filter:"@;
    EmbedView {
        title,
        description: Seq::empty(),
        fields: sounds.take(fitting(sounds, limit - title.len(), MAX_FIELDS as nat) as int).map_values(
            |s: SoundView| result_field(s),
        ),
    }
}

fn make_result_field(s: &Sound) -> (f: EmbedField)
    ensures
        f@ == result_field(s@),
{
    let mut value = String::from_str("ID: ");
    let number = decimal_chars(s.id as u128);
    push_chars(&mut value, &number);
    EmbedField { name: s.name.clone(), value, inline: true }
}

/// `fitting` is no more than the number of sounds.
pub proof fn lemma_fitting_bound(sounds: Seq<SoundView>, budget: int, left: nat)
    ensures
        fitting(sounds, budget, left) <= sounds.len(),
        fitting(sounds, budget, left) <= left,
    decreases sounds.len(),
{
    if !(sounds.len() == 0 || left == 0 || field_cost(sounds[0]) > budget) {
        lemma_fitting_bound(
            sounds.drop_first(),
            budget - field_cost(sounds[0]),
            (left - 1) as nat,
        );
    }
}

/// Draws what a search found as an embed for a message of at most `limit` bytes.
pub fn format_search_results(search_results: &Vec<Sound>, limit: usize) -> (e: Embed)
    ensures
        e@ == results_embed(views(search_results@), limit),
{
    let title = String::from_str("Public sounds matching filter:");
    let ghost all = views(search_results@);
    let ghost budget = limit - title@.len();
    let ghost count = fitting(all, budget, MAX_FIELDS as nat);
    let ghost wanted = all.take(count as int).map_values(|s: SoundView| result_field(s));
    proof {
        lemma_fitting_bound(all, budget, MAX_FIELDS as nat);
    }
    let title_len = title.as_str().as_bytes().len();
    assert(title_len == title@.len()) by {
        reveal_strlit("Public sounds matching filter:");
        vstd::utf8::is_ascii_chars_encode_utf8(title@);
    }
    let mut fields: Vec<EmbedField> = Vec::new();
    if limit >= title_len {
        let mut remaining: usize = limit - title_len;
        let mut i: usize = 0;
        assert(all.skip(0) =~= all);
        while i < search_results.len() && i < MAX_FIELDS
            invariant
                i <= search_results.len(),
                i <= MAX_FIELDS,
                all == views(search_results@),
                count == i + fitting(all.skip(i as int), remaining as int, (MAX_FIELDS - i) as nat),
                count <= all.len(),
                wanted == all.take(count as int).map_values(|s: SoundView| result_field(s)),
                field_views(fields@) == wanted.take(i as int),
            ensures
                count == i,
            decreases search_results.len() - i,
        {
            let sound = &search_results[i];
            let field = make_result_field(sound);
            let value_len = field.value.as_str().unicode_len();
            let name_len = sound.name.as_str().as_bytes().len();
            assert(all.skip(i as int)[0] == sound@);
            assert(field_cost(sound@) == name_len + value_len);
            if name_len > remaining || value_len > remaining - name_len {
                assert(fitting(all.skip(i as int), remaining as int, (MAX_FIELDS - i) as nat) == 0);
                break ;
            }
            assert(all.skip(i as int).drop_first() =~= all.skip(i + 1));
            remaining = remaining - name_len - value_len;
            let ghost before = field_views(fields@);
            fields.push(field);
            assert(field_views(fields@) =~= before.push(result_field(sound@)));
            assert(wanted.take(i + 1) =~= wanted.take(i as int).push(wanted[i as int]));
            i += 1;
        }
        assert(count == i);
        assert(wanted.take(i as int) =~= wanted);
    } else {
        assert(count == 0);
        assert(field_views(fields@) =~= wanted);
    }
    Embed { title, description: String::new(), fields }
}

/// Searches for sounds that hold `query` in their name and draws what was found.
pub fn search_sounds(
    store: &SoundStore,
    query: &str,
    guild_id: u64,
    user_id: u64,
    tie_break: u64,
    limit: usize,
) -> (e: Embed)
    ensures
        e@ == results_embed(
            store@.search(query@, guild_id, user_id, false, tie_break as nat),
            limit,
        ),
{
    let found = store.search_for_sound(query, guild_id, user_id, false, tie_break);
    format_search_results(&found, limit)
}

/// One suggestion for what the caller is typing: what is shown, and what is filled in.
#[derive(Debug)]
pub struct Choice {
    pub name: String,
    pub value: String,
}

/// What a `Choice` holds, with its texts as sequences of characters.
pub struct ChoiceView {
    pub name: Seq<char>,
    pub value: Seq<char>,
}

impl View for Choice {
    type V = ChoiceView;

    open spec fn view(&self) -> ChoiceView {
        ChoiceView { name: self.name@, value: self.value@ }
    }
}

/// The views of a run of choices, in order.
pub open spec fn choice_views(choices: Seq<Choice>) -> Seq<ChoiceView> {
    choices.map_values(|c: Choice| c@)
}

/// The suggestion that stands for the sound `s`: its name is shown, its id filled in.
pub open spec fn choice_of(s: SoundView) -> ChoiceView {
    ChoiceView { name: s.name, value: decimal(s.id as nat) }
}

fn choices_of(sounds: &Vec<Sound>) -> (choices: Vec<Choice>)
    ensures
        choice_views(choices@) == views(sounds@).map_values(|s: SoundView| choice_of(s)),
{
    let ghost wanted = views(sounds@).map_values(|s: SoundView| choice_of(s));
    let mut choices: Vec<Choice> = Vec::new();
    let mut i: usize = 0;
    while i < sounds.len()
        invariant
            i <= sounds.len(),
            wanted == views(sounds@).map_values(|s: SoundView| choice_of(s)),
            choice_views(choices@) == wanted.take(i as int),
        decreases sounds.len() - i,
    {
        let ghost before = choice_views(choices@);
        let s = &sounds[i];
        choices.push(
            Choice { name: s.name.clone(), value: string_of(&decimal_chars(s.id as u128)) },
        );
        assert(choice_views(choices@) =~= before.push(choice_of(s@)));
        assert(wanted.take(i + 1) =~= wanted.take(i as int).push(wanted[i as int]));
        i += 1;
    }
    assert(wanted.take(sounds.len() as int) =~= wanted);
    choices
}

/// Suggests sounds for what the caller has typed so far.
pub fn autocomplete_sound(store: &SoundStore, partial: &str, user_id: u64, guild_id: u64) -> (choices:
    Vec<Choice>)
    ensures
        choice_views(choices@) == store@.suggestions(partial@, user_id, guild_id).map_values(
            |s: SoundView| choice_of(s),
        ),
{
    choices_of(&store.autocomplete_user_sounds(partial, user_id, guild_id))
}

/// Suggests favorites of the caller for what they have typed so far.
pub fn autocomplete_favorite(store: &SoundStore, partial: &str, user_id: u64, guild_id: u64) -> (choices:
    Vec<Choice>)
    ensures
        choice_views(choices@) == store@.favorite_suggestions(
            partial@,
            user_id,
            guild_id,
        ).map_values(|s: SoundView| choice_of(s)),
{
    choices_of(&store.autocomplete_favorite_sounds(partial, user_id, guild_id))
}

} // verus!
