use vstd::prelude::*;
use vstd::string::StringExecFns;
use crate::error::{CliError, CliErrorView};
use crate::text::{
    decimal, law_pad, pad_end, pad_start, push_decimal, push_padded_end, push_padded_start, push_signed,
    push_str, signed_decimal, signed_string, decimal_string,
};

verus! {

/// A deck as listed: id, full name (`Parent::Child`) and number of cards
/// directly in it.
#[derive(Debug)]
pub struct DeckRow {
    pub id: i64,
    pub name: String,
    pub cards: usize,
}

/// The line listing one deck: id, card count and name.
pub open spec fn spec_list_line(id: int, cards: nat, name: Seq<char>) -> Seq<char> {
    pad_end(signed_decimal(id), 15) + " "@ + pad_start(decimal(cards), 5) + "  "@ + name
}

/// Law: a deck line starts with the deck's id, ends with its whole name, and
/// shows its card count, right-aligned, two spaces before the name.
pub proof fn law_list_line(id: int, cards: nat, name: Seq<char>)
    ensures
        ({
            let line = spec_list_line(id, cards, name);
            let c = decimal(cards);
            &&& line.subrange(0, signed_decimal(id).len() as int) == signed_decimal(id)
            &&& line.len() >= name.len() + 2 + c.len()
            &&& line.subrange(line.len() - name.len(), line.len() as int) == name
            &&& line.subrange(line.len() - name.len() - 2, line.len() - name.len()) == "  "@
            &&& line.subrange(line.len() - name.len() - 2 - c.len(), line.len() - name.len() - 2)
                == c
        }),
{
    let line = spec_list_line(id, cards, name);
    let d = signed_decimal(id);
    let c = decimal(cards);
    law_pad(d, 15);
    law_pad(c, 5);
    reveal_strlit("  ");
    let pc = pad_start(c, 5);
    assert(line == pad_end(d, 15) + " "@ + pc + "  "@ + name);
    assert(line.subrange(0, d.len() as int) =~= pad_end(d, 15).subrange(0, d.len() as int));
    assert(line.subrange(line.len() - name.len(), line.len() as int) =~= name);
    assert(line.subrange(line.len() - name.len() - 2, line.len() - name.len()) =~= "  "@);
    assert(line.subrange(line.len() - name.len() - 2 - c.len(), line.len() - name.len() - 2)
        =~= pc.subrange(pc.len() - c.len(), pc.len() as int));
}

/// The line listing one deck.
pub fn list_line(row: &DeckRow) -> (s: String)
    ensures
        s@ == spec_list_line(row.id as int, row.cards as nat, row.name@),
{
    let mut s = String::new();
    let id = signed_string(row.id);
    push_padded_end(&mut s, id.as_str(), 15);
    push_str(&mut s, " ");
    let cards = decimal_string(row.cards as u64);
    push_padded_start(&mut s, cards.as_str(), 5);
    push_str(&mut s, "  ");
    push_str(&mut s, row.name.as_str());
    s
}

/// The lines of the `decks list` command, one per deck.
pub fn list(rows: &[DeckRow]) -> (lines: Vec<String>)
    ensures
        lines.len() == rows.len(),
        forall|i: int|
            0 <= i < rows.len() ==> #[trigger] lines@[i]@ == spec_list_line(
                rows@[i].id as int,
                rows@[i].cards as nat,
                rows@[i].name@,
            ),
{
    let mut lines: Vec<String> = Vec::new();
    for i in 0..rows.len()
        invariant
            lines.len() == i,
            forall|j: int|
                0 <= j < i ==> #[trigger] lines@[j]@ == spec_list_line(
                    rows@[j].id as int,
                    rows@[j].cards as nat,
                    rows@[j].name@,
                ),
    {
        lines.push(list_line(&rows[i]));
    }
    lines
}

/// The report of `decks create`: whether the deck already existed decides it.
pub open spec fn spec_create(name: Seq<char>, id: int, existed: bool) -> Seq<char> {
    if existed {
        "deck '"@ + name + "' already exists (id "@ + signed_decimal(id) + ")"@
    } else {
        "created deck '"@ + name + "' (id "@ + signed_decimal(id) + ")"@
    }
}

/// The report of `decks create` for the deck `name` with id `id`.
pub fn create(name: &str, id: i64, existed: bool) -> (s: String)
    ensures
        s@ == spec_create(name@, id as int, existed),
{
    let mut s = if existed {
        String::from_str("deck '")
    } else {
        String::from_str("created deck '")
    };
    push_str(&mut s, name);
    if existed {
        push_str(&mut s, "' already exists (id ");
    } else {
        push_str(&mut s, "' (id ");
    }
    push_signed(&mut s, id);
    push_str(&mut s, ")");
    s
}

/// The deck id that a name resolves to, or the error of a deck that does not
/// exist.
pub fn existing_deck(name: &str, found: Option<i64>) -> (r: Result<i64, CliError>)
    ensures
        found matches Some(id) ==> r == Ok::<i64, CliError>(id),
        found is None ==> (r matches Err(e) && e@ == (CliErrorView::NoSuchDeck { name: name@ })),
{
    match found {
        Some(id) => Ok(id),
        None => Err(CliError::NoSuchDeck { name: String::from_str(name) }),
    }
}

/// The report of `decks rename`.
pub fn rename(name: &str, new_name: &str) -> (s: String)
    ensures
        s@ == "renamed '"@ + name@ + "' -> '"@ + new_name@ + "'"@,
{
    let mut s = String::from_str("renamed '");
    push_str(&mut s, name);
    push_str(&mut s, "' -> '");
    push_str(&mut s, new_name);
    push_str(&mut s, "'");
    s
}

/// The report of `decks delete`, with the number of cards removed.
pub fn delete(name: &str, removed_cards: usize) -> (s: String)
    ensures
        s@ == "deleted deck '"@ + name@ + "' and its subdecks ("@ + decimal(removed_cards as nat)
            + " card(s) removed)"@,
{
    let mut s = String::from_str("deleted deck '");
    push_str(&mut s, name);
    push_str(&mut s, "' and its subdecks (");
    push_decimal(&mut s, removed_cards as u64);
    push_str(&mut s, " card(s) removed)");
    s
}

} // verus!
