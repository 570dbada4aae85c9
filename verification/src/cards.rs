use std::collections::HashMap;
use vstd::prelude::*;
use vstd::string::StringExecFns;
use crate::common::{preview, queue_name, spec_preview, spec_queue_name};
use crate::error::{CliError, CliErrorView};
use crate::text::{
    decimal, decimal_string, law_pad, pad_end, push_decimal, push_padded_end, push_str, signed_decimal,
    signed_string,
};

verus! {

/// A card's scheduling state as the commands report it.
#[derive(Clone, Copy, Debug)]
pub struct Card {
    pub id: i64,
    pub note_id: i64,
    pub deck_id: i64,
    pub template_idx: u32,
    pub queue: i32,
    pub due: i32,
    pub interval: u32,
    pub ease_factor: u32,
    pub reps: u32,
    pub lapses: u32,
}

/// A card together with the name of its deck and the plain text of its
/// note's first field.
#[derive(Debug)]
pub struct CardEntry {
    pub card: Card,
    pub deck: String,
    pub first_field: String,
}

/// The first `limit` items of a search result, in order.
pub fn take_limit(ids: &[i64], limit: usize) -> (v: Vec<i64>)
    ensures
        v@ == ids@.take(if ids.len() < limit { ids.len() as int } else { limit as int }),
{
    let n = if ids.len() < limit {
        ids.len()
    } else {
        limit
    };
    let mut v: Vec<i64> = Vec::new();
    for i in 0..n
        invariant
            n <= ids.len(),
            v@ == ids@.take(i as int),
    {
        v.push(ids[i]);
        assert(ids@.take(i + 1) == ids@.take(i as int).push(ids@[i as int]));
    }
    v
}

/// The name under which a deck is reported: its name, or `deck <id>` when
/// the collection has no deck with that id.
pub open spec fn spec_deck_label(decks: Map<i64, String>, id: i64) -> Seq<char> {
    if decks.contains_key(id) {
        decks[id]@
    } else {
        "deck "@ + signed_decimal(id as int)
    }
}

/// The name under which the deck with id `id` is reported, given every
/// deck's id and name.
pub fn deck_label(decks: &HashMap<i64, String>, id: i64) -> (s: String)
    ensures
        s@ == spec_deck_label(decks@, id),
{
    broadcast use vstd::std_specs::hash::group_hash_axioms;
    match decks.get(&id) {
        Some(name) => name.clone(),
        None => {
            let mut s = String::from_str("deck ");
            let n = signed_string(id);
            push_str(&mut s, n.as_str());
            s
        },
    }
}

/// The first field of a note, or nothing when the note is missing or has no
/// field.
pub fn first_field(fields: Option<Vec<String>>) -> (s: String)
    ensures
        s@ == match fields {
            Some(f) => if f@.len() > 0 {
                f@[0]@
            } else {
                Seq::<char>::empty()
            },
            None => Seq::<char>::empty(),
        },
{
    match fields {
        Some(f) => if f.len() > 0 {
            f[0].clone()
        } else {
            String::new()
        },
        None => String::new(),
    }
}

/// The line listing one card: id, queue, interval, reviews, deck and a
/// preview of its note's first field.
pub open spec fn spec_list_line(c: Card, deck: Seq<char>, first: Seq<char>) -> Seq<char> {
    pad_end(signed_decimal(c.id as int), 15) + " "@ + pad_end(spec_queue_name(c.queue), 10)
        + " ivl="@ + pad_end(decimal(c.interval as nat) + "d"@, 5) + " reps="@ + pad_end(
        decimal(c.reps as nat),
        4,
    ) + " "@ + pad_end(deck, 25) + " "@ + spec_preview(first, 50)
}

/// What comes before the deck column of a card line: id, queue, interval and
/// reviews, each padded to its width.
pub open spec fn line_head(c: Card) -> Seq<char> {
    pad_end(signed_decimal(c.id as int), 15) + " "@ + pad_end(spec_queue_name(c.queue), 10)
        + " ivl="@ + pad_end(decimal(c.interval as nat) + "d"@, 5) + " reps="@ + pad_end(
        decimal(c.reps as nat),
        4,
    ) + " "@
}

/// Law: a card line starts with the card's id, shows the whole deck name,
/// never cut, right after the reviews column, and ends with the preview of
/// the first field.
pub proof fn law_list_line(c: Card, deck: Seq<char>, first: Seq<char>)
    ensures
        ({
            let line = spec_list_line(c, deck, first);
            let k: int = line_head(c).len() as int;
            &&& line.subrange(0, signed_decimal(c.id as int).len() as int) == signed_decimal(
                c.id as int,
            )
            &&& line.len() >= k + deck.len()
            &&& line.subrange(k, k + deck.len()) == deck
            &&& line.subrange(line.len() - spec_preview(first, 50).len(), line.len() as int)
                == spec_preview(first, 50)
        }),
{
    let line = spec_list_line(c, deck, first);
    let id = signed_decimal(c.id as int);
    let h = line_head(c);
    let pd = pad_end(deck, 25);
    let pv = spec_preview(first, 50);
    law_pad(id, 15);
    law_pad(deck, 25);
    assert(line == h + pd + " "@ + pv);
    assert(line.subrange(0, id.len() as int) =~= pad_end(id, 15).subrange(0, id.len() as int));
    assert(line.subrange(h.len() as int, h.len() as int + deck.len()) =~= pd.subrange(0, deck.len() as int));
    assert(line.subrange(line.len() - pv.len(), line.len() as int) =~= pv);
}

/// The line listing one card.
pub fn list_line(e: &CardEntry) -> (s: String)
    ensures
        s@ == spec_list_line(e.card, e.deck@, e.first_field@),
{
    let mut s = String::new();
    let id = signed_string(e.card.id);
    push_padded_end(&mut s, id.as_str(), 15);
    push_str(&mut s, " ");
    push_padded_end(&mut s, queue_name(e.card.queue), 10);
    push_str(&mut s, " ivl=");
    let mut ivl = decimal_string(e.card.interval as u64);
    push_str(&mut ivl, "d");
    push_padded_end(&mut s, ivl.as_str(), 5);
    push_str(&mut s, " reps=");
    let reps = decimal_string(e.card.reps as u64);
    push_padded_end(&mut s, reps.as_str(), 4);
    push_str(&mut s, " ");
    push_padded_end(&mut s, e.deck.as_str(), 25);
    push_str(&mut s, " ");
    let p = preview(e.first_field.as_str(), 50);
    push_str(&mut s, p.as_str());
    s
}

/// The lines of the `cards list` command, one per card shown.
pub fn list(entries: &[CardEntry]) -> (lines: Vec<String>)
    ensures
        lines.len() == entries.len(),
        forall|i: int|
            0 <= i < entries.len() ==> #[trigger] lines@[i]@ == spec_list_line(
                entries@[i].card,
                entries@[i].deck@,
                entries@[i].first_field@,
            ),
{
    let mut lines: Vec<String> = Vec::new();
    for i in 0..entries.len()
        invariant
            lines.len() == i,
            forall|j: int|
                0 <= j < i ==> #[trigger] lines@[j]@ == spec_list_line(
                    entries@[j].card,
                    entries@[j].deck@,
                    entries@[j].first_field@,
                ),
    {
        lines.push(list_line(&entries[i]));
    }
    lines
}

/// The notice that a listing was cut at its limit, naming what it counts
/// (`cards` or `notes`); none when everything was shown.
pub fn limit_notice(shown: usize, total: usize, what: &str) -> (r: Option<String>)
    ensures
        total <= shown ==> r is None,
        total > shown ==> (r matches Some(s) && s@ == "(showing "@ + decimal(shown as nat) + " of "@
            + decimal(total as nat) + " "@ + what@ + "; raise --limit)"@),
{
    if total > shown {
        let mut s = String::from_str("(showing ");
        push_decimal(&mut s, shown as u64);
        push_str(&mut s, " of ");
        push_decimal(&mut s, total as u64);
        push_str(&mut s, " ");
        push_str(&mut s, what);
        push_str(&mut s, "; raise --limit)");
        Some(s)
    } else {
        None
    }
}

/// The deck that cards are moved to, or the error of a deck that does not
/// exist.
pub fn target_deck(name: &str, found: Option<i64>) -> (r: Result<i64, CliError>)
    ensures
        found matches Some(id) ==> r == Ok::<i64, CliError>(id),
        found is None ==> (r matches Err(e) && e@ == (CliErrorView::NoTargetDeck { name: name@ })),
{
    match found {
        Some(id) => Ok(id),
        None => Err(CliError::NoTargetDeck { name: String::from_str(name) }),
    }
}

/// The report of `cards move`.
pub fn move_to_deck(deck: &str, moved: usize) -> (s: String)
    ensures
        s@ == "moved "@ + decimal(moved as nat) + " card(s) to '"@ + deck@ + "'"@,
{
    let mut s = String::from_str("moved ");
    push_decimal(&mut s, moved as u64);
    push_str(&mut s, " card(s) to '");
    push_str(&mut s, deck);
    push_str(&mut s, "'");
    s
}

/// The report of `cards suspend`.
pub fn suspend(suspended: usize) -> (s: String)
    ensures
        s@ == "suspended "@ + decimal(suspended as nat) + " card(s)"@,
{
    let mut s = String::from_str("suspended ");
    push_decimal(&mut s, suspended as u64);
    push_str(&mut s, " card(s)");
    s
}

/// The report of `cards unsuspend`, counting the ids given.
pub fn unsuspend(ids: &[i64]) -> (s: String)
    ensures
        s@ == "unsuspended "@ + decimal(ids.len() as nat) + " card(s)"@,
{
    let mut s = String::from_str("unsuspended ");
    push_decimal(&mut s, ids.len() as u64);
    push_str(&mut s, " card(s)");
    s
}

} // verus!
