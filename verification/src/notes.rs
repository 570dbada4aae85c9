use vstd::prelude::*;
use vstd::string::StringExecFns;
use crate::cards::Card;
use crate::common::{preview, queue_name, spec_preview, spec_queue_name};
use crate::error::{CliError, CliErrorView};
use crate::fields::{assigned_fields, empty_fields, parse_field_args, parse_fields, set_fields};
use crate::notetypes::Notetype;
use crate::tags::{edit_tags, edited_tags};
use crate::text::{
    decimal, join, law_join_contains, lemma_occurs_in_concat, law_pad, occurs_in, pad_end, push_decimal, push_joined, push_padded_end, push_signed, push_str,
    signed_decimal, signed_string,
};

verus! {

/// A note: id, guid, the id of its note type, field values and tags.
#[derive(Debug)]
pub struct Note {
    pub id: i64,
    pub guid: String,
    pub notetype_id: i64,
    pub fields: Vec<String>,
    pub tags: Vec<String>,
}

/// A note as `notes find` lists it: id, tags, and the plain text of its
/// first field.
#[derive(Debug)]
pub struct NoteEntry {
    pub id: i64,
    pub tags: Vec<String>,
    pub first_field: String,
}

/// A card as `notes show` lists it, with the name of its deck.
#[derive(Debug)]
pub struct CardInDeck {
    pub card: Card,
    pub deck: String,
}

/// The note that an id names, or the error of an id no note has.
pub fn get_note(id: i64, found: Option<Note>) -> (r: Result<Note, CliError>)
    ensures
        found is Some ==> r == Ok::<Note, CliError>(found->0),
        found is None ==> (r matches Err(e) && e@ == (CliErrorView::NoSuchNote { id: id as int })),
{
    match found {
        Some(n) => Ok(n),
        None => Err(CliError::NoSuchNote { id }),
    }
}

/// A note's note type, or the error of a note type missing from the collection.
pub fn notetype_of(note: &Note, found: Option<Notetype>) -> (r: Result<Notetype, CliError>)
    ensures
        found is Some ==> r == Ok::<Notetype, CliError>(found->0),
        found is None ==> (r matches Err(e) && e@ == (CliErrorView::MissingNotetype {
            id: note.notetype_id as int,
        })),
{
    match found {
        Some(n) => Ok(n),
        None => Err(CliError::MissingNotetype { id: note.notetype_id }),
    }
}

/// The fields that `notes add` sets: the parsed `--field` arguments, of which
/// there must be at least one.
pub fn prepare_add(field_args: &[String]) -> (r: Result<Vec<(String, String)>, CliError>)
    ensures
        match parse_fields(field_args.deep_view()) {
            Err(bad) => r matches Err(e) && e@ == (CliErrorView::InvalidFieldArg { arg: bad }),
            Ok(pairs) => if pairs.len() == 0 {
                r matches Err(e) && e@ == CliErrorView::NoFieldsGiven
            } else {
                r matches Ok(v) && v.deep_view() == pairs
            },
        },
{
    let fields = parse_field_args(field_args)?;
    if fields.len() == 0 {
        return Err(CliError::NoFieldsGiven);
    }
    Ok(fields)
}

/// The fields of a new note of type `nt` once each pair is assigned: every
/// field starts empty.
pub fn new_note_fields(nt: &Notetype, pairs: Vec<(String, String)>) -> (r: Result<
    Vec<String>,
    CliError,
>)
    ensures
        match assigned_fields(
            nt.name@,
            nt.fields.deep_view(),
            Seq::new(nt.fields.len() as nat, |_i: int| Seq::<char>::empty()),
            pairs.deep_view(),
        ) {
            Ok(f) => r matches Ok(v) && v.deep_view() == f,
            Err(e) => r matches Err(x) && x@ == e,
        },
{
    let empty = empty_fields(nt.fields.len());
    set_fields(nt.name.as_str(), nt.fields.as_slice(), empty, pairs)
}

/// The report of `notes add`.
pub fn add(note_id: i64, deck: &str, cards: usize) -> (s: String)
    ensures
        s@ == "added note "@ + signed_decimal(note_id as int) + " to '"@ + deck@ + "' ("@ + decimal(
            cards as nat,
        ) + " card(s) generated)"@,
{
    let mut s = String::from_str("added note ");
    push_signed(&mut s, note_id);
    push_str(&mut s, " to '");
    push_str(&mut s, deck);
    push_str(&mut s, "' (");
    push_decimal(&mut s, cards as u64);
    push_str(&mut s, " card(s) generated)");
    s
}

/// How a note's tags end a `notes find` line: nothing, or ` [a, b]`.
pub open spec fn spec_tag_suffix(tags: Seq<Seq<char>>) -> Seq<char> {
    if tags.len() == 0 {
        Seq::<char>::empty()
    } else {
        " ["@ + join(tags, ", "@) + "]"@
    }
}

/// The line listing one note: id, a preview of its first field, its tags.
pub open spec fn spec_find_line(id: int, first: Seq<char>, tags: Seq<Seq<char>>) -> Seq<char> {
    pad_end(signed_decimal(id), 15) + " "@ + spec_preview(first, 70) + spec_tag_suffix(tags)
}

/// Law: a note line starts with the note's id, shows the preview of its first
/// field right after the id column, and names every tag of the note (ending
/// with the preview when there is none).
pub proof fn law_find_line(id: int, first: Seq<char>, tags: Seq<Seq<char>>)
    ensures
        ({
            let line = spec_find_line(id, first, tags);
            let k: int = pad_end(signed_decimal(id), 15).len() as int + 1;
            let p = spec_preview(first, 70);
            &&& line.subrange(0, signed_decimal(id).len() as int) == signed_decimal(id)
            &&& line.len() >= k + p.len()
            &&& line.subrange(k, k + p.len()) == p
            &&& tags.len() == 0 ==> line.len() == k + p.len()
            &&& forall|i: int| 0 <= i < tags.len() ==> occurs_in(#[trigger] tags[i], line)
        }),
{
    let line = spec_find_line(id, first, tags);
    let d = signed_decimal(id);
    let pd = pad_end(d, 15);
    let p = spec_preview(first, 70);
    let k: int = pd.len() as int + 1;
    law_pad(d, 15);
    reveal_strlit(" ");
    law_join_contains(tags, ", "@);
    let head = pd + " "@ + p;
    let suffix = spec_tag_suffix(tags);
    assert(line == head + suffix);
    assert(line.subrange(0, d.len() as int) =~= pd.subrange(0, d.len() as int));
    assert(line.subrange(k, k + p.len()) =~= p);
    assert forall|i: int| 0 <= i < tags.len() implies occurs_in(#[trigger] tags[i], line) by {
        lemma_occurs_in_concat(tags[i], head + " ["@, join(tags, ", "@), "]"@);
        assert(head + " ["@ + join(tags, ", "@) + "]"@ =~= line);
    }
}

/// The line listing one note.
pub fn find_line(e: &NoteEntry) -> (s: String)
    ensures
        s@ == spec_find_line(e.id as int, e.first_field@, e.tags.deep_view()),
{
    let mut s = String::new();
    let id = signed_string(e.id);
    push_padded_end(&mut s, id.as_str(), 15);
    push_str(&mut s, " ");
    let p = preview(e.first_field.as_str(), 70);
    push_str(&mut s, p.as_str());
    if e.tags.len() > 0 {
        push_str(&mut s, " [");
        push_joined(&mut s, e.tags.as_slice(), ", ");
        push_str(&mut s, "]");
    }
    s
}

/// The lines of the `notes find` command, one per note shown.
pub fn find(entries: &[NoteEntry]) -> (lines: Vec<String>)
    ensures
        lines.len() == entries.len(),
        forall|i: int|
            0 <= i < entries.len() ==> #[trigger] lines@[i]@ == spec_find_line(
                entries@[i].id as int,
                entries@[i].first_field@,
                entries@[i].tags.deep_view(),
            ),
{
    let mut lines: Vec<String> = Vec::new();
    for i in 0..entries.len()
        invariant
            lines.len() == i,
            forall|j: int|
                0 <= j < i ==> #[trigger] lines@[j]@ == spec_find_line(
                    entries@[j].id as int,
                    entries@[j].first_field@,
                    entries@[j].tags.deep_view(),
                ),
    {
        lines.push(find_line(&entries[i]));
    }
    lines
}

/// The line showing one field of a note: its name in the note type (`?` past
/// the note type's fields) and its value.
pub open spec fn spec_field_line(names: Seq<Seq<char>>, idx: int, value: Seq<char>) -> Seq<char> {
    (if 0 <= idx < names.len() {
        names[idx]
    } else {
        "?"@
    }) + ": "@ + value
}

/// The field lines of `notes show`, one per field of the note.
pub open spec fn spec_field_lines(names: Seq<Seq<char>>, values: Seq<Seq<char>>) -> Seq<Seq<char>> {
    Seq::new(values.len(), |i: int| spec_field_line(names, i, values[i]))
}

/// The line showing one card of a note.
pub open spec fn spec_card_line(c: Card, deck: Seq<char>) -> Seq<char> {
    "  "@ + pad_end(signed_decimal(c.id as int), 15) + " deck='"@ + deck + "' queue="@
        + spec_queue_name(c.queue) + " due="@ + signed_decimal(c.due as int) + " ivl="@ + decimal(
        c.interval as nat,
    ) + "d reps="@ + decimal(c.reps as nat) + " lapses="@ + decimal(c.lapses as nat)
}

/// Everything `notes show` prints for a note, line by line.
pub open spec fn spec_show(
    note: &Note,
    nt: &Notetype,
    cards: Seq<CardInDeck>,
) -> Seq<Seq<char>> {
    seq!["note "@ + signed_decimal(note.id as int) + " ("@ + nt.name@ + ")"@] + (if note.tags@.len()
        == 0 {
        Seq::<Seq<char>>::empty()
    } else {
        seq!["tags: "@ + join(note.tags.deep_view(), ", "@)]
    }) + spec_field_lines(nt.fields.deep_view(), note.fields.deep_view()) + seq!["cards:"@]
        + Seq::new(cards.len(), |i: int| spec_card_line(cards[i].card, cards[i].deck@))
}

/// Law: `notes show` prints the note's header; then, when the note has tags,
/// one line `tags: ` naming every tag in order, separated by `, `; then one
/// line per field, in order, each the field's name in the note type (`?`
/// past its fields) and the value; then `cards:` and one line per card.
pub proof fn law_show(note: &Note, nt: &Notetype, cards: Seq<CardInDeck>)
    ensures
        ({
            let lines = spec_show(note, nt, cards);
            let tags = note.tags.deep_view();
            let t: int = if tags.len() == 0 { 0 } else { 1 };
            let nf: int = note.fields@.len() as int;
            &&& lines.len() == 1 + t + nf + 1 + cards.len()
            &&& lines[0] == "note "@ + signed_decimal(note.id as int) + " ("@ + nt.name@ + ")"@
            &&& tags.len() > 0 ==> lines[1] == "tags: "@ + join(tags, ", "@)
            &&& tags.len() > 0 ==> forall|i: int|
                0 <= i < tags.len() ==> occurs_in(#[trigger] tags[i], lines[1])
            &&& forall|j: int|
                0 <= j < nf ==> lines[1 + t + j] == (if j < nt.fields@.len() {
                    nt.fields@[j]@
                } else {
                    "?"@
                }) + ": "@ + (#[trigger] note.fields@[j])@
            &&& lines[1 + t + nf] == "cards:"@
            &&& forall|k: int|
                0 <= k < cards.len() ==> lines[2 + t + nf + k] == spec_card_line(
                    (#[trigger] cards[k]).card,
                    cards[k].deck@,
                )
        }),
{
    let lines = spec_show(note, nt, cards);
    let tags = note.tags.deep_view();
    let t: int = if tags.len() == 0 { 0 } else { 1 };
    let nf: int = note.fields@.len() as int;
    if tags.len() > 0 {
        reveal_strlit("tags: ");
        law_join_contains(tags, ", "@);
        let line = lines[1];
        assert(line == "tags: "@ + join(tags, ", "@));
        assert forall|i: int| 0 <= i < tags.len() implies occurs_in(#[trigger] tags[i], line) by {
            assert(occurs_in(tags[i], join(tags, ", "@)));
            let k = choose|k: int|
                0 <= k && k + tags[i].len() <= join(tags, ", "@).len() && #[trigger] join(
                    tags,
                    ", "@,
                ).subrange(k, k + tags[i].len()) == tags[i];
            let k2: int = k + 6;
            assert(line.subrange(k2, k2 + tags[i].len()) =~= join(tags, ", "@).subrange(
                k,
                k + tags[i].len(),
            ));
            assert(line.subrange(k2, k2 + tags[i].len()) == tags[i]);
        }
    }
    assert forall|j: int| 0 <= j < nf implies lines[1 + t + j] == (if j < nt.fields@.len() {
        nt.fields@[j]@
    } else {
        "?"@
    }) + ": "@ + (#[trigger] note.fields@[j])@ by {
        assert(note.fields.deep_view()[j] == note.fields@[j]@);
        if j < nt.fields@.len() {
            assert(nt.fields.deep_view()[j] == nt.fields@[j]@);
        }
    }
}

fn card_line(c: &CardInDeck) -> (s: String)
    ensures
        s@ == spec_card_line(c.card, c.deck@),
{
    let mut s = String::from_str("  ");
    let id = signed_string(c.card.id);
    push_padded_end(&mut s, id.as_str(), 15);
    push_str(&mut s, " deck='");
    push_str(&mut s, c.deck.as_str());
    push_str(&mut s, "' queue=");
    push_str(&mut s, queue_name(c.card.queue));
    push_str(&mut s, " due=");
    push_signed(&mut s, c.card.due as i64);
    push_str(&mut s, " ivl=");
    push_decimal(&mut s, c.card.interval as u64);
    push_str(&mut s, "d reps=");
    push_decimal(&mut s, c.card.reps as u64);
    push_str(&mut s, " lapses=");
    push_decimal(&mut s, c.card.lapses as u64);
    s
}

fn field_line(names: &[String], idx: usize, value: &str) -> (s: String)
    ensures
        s@ == spec_field_line(names.deep_view(), idx as int, value@),
{
    let mut s = if idx < names.len() {
        names[idx].clone()
    } else {
        String::from_str("?")
    };
    push_str(&mut s, ": ");
    push_str(&mut s, value);
    s
}

/// The lines of the `notes show` command.
pub fn show(note: &Note, nt: &Notetype, cards: &[CardInDeck]) -> (lines: Vec<String>)
    ensures
        lines.deep_view() == spec_show(note, nt, cards@),
{
    let mut lines: Vec<String> = Vec::new();
    let mut head = String::from_str("note ");
    push_signed(&mut head, note.id);
    push_str(&mut head, " (");
    push_str(&mut head, nt.name.as_str());
    push_str(&mut head, ")");
    let ghost hv = head@;
    lines.push(head);
    let ghost tag_lines = if note.tags@.len() == 0 {
        Seq::<Seq<char>>::empty()
    } else {
        seq!["tags: "@ + join(note.tags.deep_view(), ", "@)]
    };
    if note.tags.len() > 0 {
        let mut t = String::from_str("tags: ");
        push_joined(&mut t, note.tags.as_slice(), ", ");
        lines.push(t);
    }
    let ghost base = lines.deep_view();
    assert(base =~= seq![hv] + tag_lines);
    let ghost names = nt.fields.deep_view();
    let ghost values = note.fields.deep_view();
    for i in 0..note.fields.len()
        invariant
            names == nt.fields.deep_view(),
            values == note.fields.deep_view(),
            values.len() == note.fields.len(),
            lines.deep_view() == base + spec_field_lines(names, values.take(i as int)),
    {
        let ghost before = lines.deep_view();
        let line = field_line(nt.fields.as_slice(), i, note.fields[i].as_str());
        let ghost lv = line@;
        lines.push(line);
        assert(lines.deep_view() =~= before.push(lv));
        assert(spec_field_lines(names, values.take(i + 1)) =~= spec_field_lines(
            names,
            values.take(i as int),
        ).push(lv));
    }
    assert(values.take(note.fields.len() as int) == values);
    let ghost mid = lines.deep_view();
    let c = String::from_str("cards:");
    let ghost cv = c@;
    lines.push(c);
    let ghost base2 = lines.deep_view();
    assert(base2 =~= mid.push(cv));
    for i in 0..cards.len()
        invariant
            lines.deep_view() == base2 + Seq::new(
                i as nat,
                |j: int| spec_card_line(cards@[j].card, cards@[j].deck@),
            ),
    {
        let ghost before = lines.deep_view();
        let line = card_line(&cards[i]);
        let ghost lv = line@;
        lines.push(line);
        assert(lines.deep_view() =~= before.push(lv));
        assert(Seq::new((i + 1) as nat, |j: int| spec_card_line(cards@[j].card, cards@[j].deck@))
            =~= Seq::new(i as nat, |j: int| spec_card_line(cards@[j].card, cards@[j].deck@)).push(
            lv,
        ));
    }
    assert(lines.deep_view() =~= spec_show(note, nt, cards@));
    lines
}

/// The fields that `notes edit` sets: the parsed `--field` arguments; an edit
/// with no field and no tag to add or remove has nothing to do.
pub fn prepare_edit(field_args: &[String], add_tags: &[String], remove_tags: &[String]) -> (r:
    Result<Vec<(String, String)>, CliError>)
    ensures
        match parse_fields(field_args.deep_view()) {
            Err(bad) => r matches Err(e) && e@ == (CliErrorView::InvalidFieldArg { arg: bad }),
            Ok(pairs) => if pairs.len() == 0 && add_tags.len() == 0 && remove_tags.len() == 0 {
                r matches Err(e) && e@ == CliErrorView::NothingToEdit
            } else {
                r matches Ok(v) && v.deep_view() == pairs
            },
        },
{
    let fields = parse_field_args(field_args)?;
    if fields.len() == 0 && add_tags.len() == 0 && remove_tags.len() == 0 {
        return Err(CliError::NothingToEdit);
    }
    Ok(fields)
}

/// A note after `notes edit`: each pair assigned to its field, then the tags
/// added and removed; id, guid and note type stay.
pub fn edit(
    nt: &Notetype,
    note: Note,
    pairs: Vec<(String, String)>,
    add_tags: Vec<String>,
    remove_tags: &[String],
) -> (r: Result<Note, CliError>)
    ensures
        match assigned_fields(
            nt.name@,
            nt.fields.deep_view(),
            note.fields.deep_view(),
            pairs.deep_view(),
        ) {
            Ok(f) => r matches Ok(n) && n.fields.deep_view() == f && n.tags.deep_view()
                == edited_tags(note.tags.deep_view(), add_tags.deep_view(), remove_tags.deep_view())
                && n.id == note.id && n.guid@ == note.guid@ && n.notetype_id == note.notetype_id,
            Err(e) => r matches Err(x) && x@ == e,
        },
{
    let Note { id, guid, notetype_id, fields, tags } = note;
    let fields = set_fields(nt.name.as_str(), nt.fields.as_slice(), fields, pairs)?;
    let mut tags = tags;
    edit_tags(&mut tags, add_tags, remove_tags);
    Ok(Note { id, guid, notetype_id, fields, tags })
}

/// The report of `notes edit`.
pub fn updated(note_id: i64) -> (s: String)
    ensures
        s@ == "updated note "@ + signed_decimal(note_id as int),
{
    let mut s = String::from_str("updated note ");
    push_signed(&mut s, note_id);
    s
}

/// Position of the first note found missing, looking at the ids in order.
pub open spec fn first_missing(exists: Seq<bool>) -> Option<int>
    decreases exists.len(),
{
    if exists.len() == 0 {
        None
    } else {
        match first_missing(exists.drop_last()) {
            Some(i) => Some(i),
            None => if !exists.last() {
                Some(exists.len() - 1)
            } else {
                None
            },
        }
    }
}

proof fn lemma_first_missing(exists: Seq<bool>, m: int)
    requires
        0 <= m <= exists.len(),
        first_missing(exists.take(m)) is Some,
    ensures
        first_missing(exists) == first_missing(exists.take(m)),
    decreases exists.len() - m,
{
    if m < exists.len() {
        assert(exists.take(m + 1).drop_last() == exists.take(m));
        lemma_first_missing(exists, m + 1);
    } else {
        assert(exists.take(m) == exists);
    }
}

/// `notes delete` checks every id before it deletes any: `exists[i]` says
/// whether a note has `ids[i]` (the lookups stop after the first that finds
/// none). Fails on the first id, in order, that no note has.
pub fn check_notes_exist(ids: &[i64], exists: &[bool]) -> (r: Result<(), CliError>)
    ensures
        match first_missing(exists@) {
            Some(i) => if i < ids.len() {
                r matches Err(e) && e@ == (CliErrorView::NoSuchNote { id: ids@[i] as int })
            } else {
                r is Ok
            },
            None => r is Ok,
        },
{
    let ghost ev = exists@;
    for i in 0..exists.len()
        invariant
            ev == exists@,
            first_missing(ev.take(i as int)) is None,
    {
        assert(exists@.take(i + 1).drop_last() == exists@.take(i as int));
        if !exists[i] {
            assert(first_missing(ev.take(i + 1)) == Some(i as int));
            proof {
                lemma_first_missing(ev, (i + 1) as int);
            }
            if i < ids.len() {
                return Err(CliError::NoSuchNote { id: ids[i] });
            } else {
                return Ok(());
            }
        }
    }
    assert(ev.take(exists.len() as int) == ev);
    Ok(())
}

/// The report of `notes delete`, counting the ids given.
pub fn delete(ids: &[i64]) -> (s: String)
    ensures
        s@ == "deleted "@ + decimal(ids.len() as nat) + " note(s)"@,
{
    let mut s = String::from_str("deleted ");
    push_decimal(&mut s, ids.len() as u64);
    push_str(&mut s, " note(s)");
    s
}

} // verus!
