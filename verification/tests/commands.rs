use anki_cli::cards::{
    deck_label, first_field, limit_notice, list as card_list, move_to_deck, suspend, take_limit,
    target_deck, unsuspend, Card, CardEntry,
};
use anki_cli::common::{preview, queue_name};
use anki_cli::decks::{create, delete as deck_delete, existing_deck, list as deck_list, rename, DeckRow};
use anki_cli::notes::{
    check_notes_exist, delete as note_delete, edit, find, get_note, new_note_fields, notetype_of,
    prepare_add, prepare_edit, show as note_show, updated, CardInDeck, Note, NoteEntry,
};
use anki_cli::notes;
use anki_cli::notetypes::{
    kind_name, named_notetype, list as notetype_list, show as notetype_show, template_name, template_name_list,
    Notetype, Template,
};

fn strings(v: &[&str]) -> Vec<String> {
    v.iter().map(|s| s.to_string()).collect()
}

fn basic() -> Notetype {
    Notetype {
        id: 1700000000001,
        name: "Basic".to_string(),
        is_cloze: false,
        fields: strings(&["Front", "Back"]),
        templates: vec![Template {
            name: "Card 1".to_string(),
            question: "{{Front}}".to_string(),
            answer: "{{FrontSide}}\n<hr id=answer>\n{{Back}}".to_string(),
        }],
    }
}

fn card(id: i64, queue: i32) -> Card {
    Card {
        id,
        note_id: 7,
        deck_id: 1,
        template_idx: 0,
        queue,
        due: -3,
        interval: 12,
        ease_factor: 2500,
        reps: 4,
        lapses: 1,
    }
}

#[test]
fn queue_names() {
    let expected = [
        (0, "new"),
        (1, "learn"),
        (2, "review"),
        (3, "daylearn"),
        (4, "preview"),
        (-1, "suspended"),
        (-2, "buried"),
        (-3, "buried"),
        (5, "unknown"),
        (-4, "unknown"),
    ];
    for (q, name) in expected {
        assert_eq!(queue_name(q), name);
    }
}

#[test]
fn preview_cuts_and_flattens() {
    assert_eq!(preview("hello\nworld", 50), "hello world");
    assert_eq!(preview("abcdef", 3), "abc\u{2026}");
    assert_eq!(preview("abc", 3), "abc");
    assert_eq!(preview("", 0), "");
    assert_eq!(preview("x", 0), "\u{2026}");
    assert_eq!(preview("éèêë", 2), "éè\u{2026}");
}

#[test]
fn take_limit_and_notice() {
    let ids = [5, 6, 7];
    assert_eq!(take_limit(&ids, 2), vec![5, 6]);
    assert_eq!(take_limit(&ids, 10), vec![5, 6, 7]);
    assert_eq!(take_limit(&ids, 0), Vec::<i64>::new());
    assert_eq!(
        limit_notice(2, 3, "cards"),
        Some("(showing 2 of 3 cards; raise --limit)".to_string())
    );
    assert_eq!(limit_notice(3, 3, "notes"), None);
}

#[test]
fn deck_labels() {
    let mut decks = std::collections::HashMap::new();
    decks.insert(1i64, "Default".to_string());
    decks.insert(2i64, "ML::Attention".to_string());
    assert_eq!(deck_label(&decks, 2), "ML::Attention");
    assert_eq!(deck_label(&decks, 9), "deck 9");
    assert_eq!(first_field(Some(strings(&["a", "b"]))), "a");
    assert_eq!(first_field(Some(vec![])), "");
    assert_eq!(first_field(None), "");
}

#[test]
fn card_list_line() {
    let e = CardEntry {
        card: card(1781041359202, 2),
        deck: "ML".to_string(),
        first_field: "What is\nattention?".to_string(),
    };
    let lines = card_list(&[e]);
    assert_eq!(
        lines,
        vec![format!(
            "{:<15} {:<10} ivl={:<5} reps={:<4} {:<25} {}",
            1781041359202i64, "review", "12d", 4, "ML", "What is attention?"
        )]
    );
}

#[test]
fn card_reports() {
    assert_eq!(target_deck("ML", Some(3)).unwrap(), 3);
    assert!(target_deck("ML", None).is_err());
    assert_eq!(move_to_deck("ML::Review", 2), "moved 2 card(s) to 'ML::Review'");
    assert_eq!(suspend(1), "suspended 1 card(s)");
    assert_eq!(unsuspend(&[1, 2, 3]), "unsuspended 3 card(s)");
}

#[test]
fn deck_commands() {
    let rows = vec![DeckRow { id: 1, name: "Default".to_string(), cards: 12 }];
    assert_eq!(deck_list(&rows), vec![format!("{:<15} {:>5}  {}", 1, 12, "Default")]);
    assert_eq!(create("ML", 5, false), "created deck 'ML' (id 5)");
    assert_eq!(create("ML", 5, true), "deck 'ML' already exists (id 5)");
    assert_eq!(existing_deck("ML", Some(5)).unwrap(), 5);
    assert_eq!(
        existing_deck("ML", None).unwrap_err().message(),
        "no deck named 'ML'; see `anki-cli decks list`"
    );
    assert_eq!(rename("A", "B"), "renamed 'A' -> 'B'");
    assert_eq!(deck_delete("A", 4), "deleted deck 'A' and its subdecks (4 card(s) removed)");
}

#[test]
fn notetype_commands() {
    let nt = basic();
    assert_eq!(
        notetype_list(&[basic()]),
        vec![format!("{:<15} {:<30} fields: {}", 1700000000001i64, "Basic", "Front, Back")]
    );
    assert_eq!(
        notetype_show(&nt),
        strings(&[
            "notetype: Basic (id 1700000000001)",
            "kind:     standard",
            "fields:",
            "  - Front",
            "  - Back",
            "templates:",
            "  - Card 1",
            "      Q: {{Front}}",
            "      A: {{FrontSide}} <hr id=answer> {{Back}}",
        ])
    );
    assert_eq!(kind_name(true), "cloze");
    assert_eq!(kind_name(false), "standard");
    assert_eq!(template_name(&nt, 0), Some("Card 1".to_string()));
    assert_eq!(template_name(&nt, 1), None);
    assert_eq!(template_name_list(&nt), strings(&["Card 1"]));
}

#[test]
fn note_add_flow() {
    let nt = basic();
    let pairs = prepare_add(&strings(&["back=B", "Front=F"])).unwrap();
    assert_eq!(new_note_fields(&nt, pairs).unwrap(), strings(&["F", "B"]));
    let pairs = prepare_add(&strings(&["Front=F"])).unwrap();
    assert_eq!(new_note_fields(&nt, pairs).unwrap(), strings(&["F", ""]));
    assert_eq!(
        prepare_add(&[]).unwrap_err().message(),
        "at least one --field NAME=VALUE is required"
    );
    assert_eq!(
        prepare_add(&strings(&["bad"])).unwrap_err().message(),
        "invalid --field 'bad', expected NAME=VALUE"
    );
    assert_eq!(notes::add(17, "ML", 2), "added note 17 to 'ML' (2 card(s) generated)");
}

#[test]
fn note_find_lines() {
    let entries = vec![
        NoteEntry { id: 10, tags: strings(&["ml", "interview"]), first_field: "Q1".to_string() },
        NoteEntry { id: 11, tags: vec![], first_field: "Q2".to_string() },
    ];
    assert_eq!(
        find(&entries),
        vec![
            format!("{:<15} {}{}", 10, "Q1", " [ml, interview]"),
            format!("{:<15} {}{}", 11, "Q2", ""),
        ]
    );
}

#[test]
fn note_show_lines() {
    let nt = basic();
    let note = Note {
        id: 7,
        guid: "abc".to_string(),
        notetype_id: nt.id,
        fields: strings(&["F", "B", "extra"]),
        tags: strings(&["t1"]),
    };
    let cards = vec![CardInDeck { card: card(70, -1), deck: "ML".to_string() }];
    assert_eq!(
        note_show(&note, &nt, &cards),
        vec![
            "note 7 (Basic)".to_string(),
            "tags: t1".to_string(),
            "Front: F".to_string(),
            "Back: B".to_string(),
            "?: extra".to_string(),
            "cards:".to_string(),
            format!(
                "  {:<15} deck='{}' queue={} due={} ivl={}d reps={} lapses={}",
                70, "ML", "suspended", -3, 12, 4, 1
            ),
        ]
    );
}

#[test]
fn note_edit_flow() {
    let nt = basic();
    assert_eq!(
        prepare_edit(&[], &[], &[]).unwrap_err().message(),
        "nothing to do: pass --field, --add-tag, or --remove-tag"
    );
    assert!(prepare_edit(&[], &strings(&["x"]), &[]).unwrap().is_empty());
    let pairs = prepare_edit(&strings(&["Back=new"]), &[], &[]).unwrap();
    let note = Note {
        id: 7,
        guid: "g".to_string(),
        notetype_id: nt.id,
        fields: strings(&["F", "B"]),
        tags: strings(&["keep", "Drop"]),
    };
    let edited = edit(&nt, note, pairs, strings(&["KEEP", "added"]), &strings(&["drop"])).unwrap();
    assert_eq!(edited.fields, strings(&["F", "new"]));
    assert_eq!(edited.tags, strings(&["keep", "added"]));
    assert_eq!(edited.id, 7);
    assert_eq!(updated(7), "updated note 7");
    assert_eq!(note_delete(&[1, 2]), "deleted 2 note(s)");
}

#[test]
fn note_lookups() {
    assert_eq!(
        get_note(99, None).unwrap_err().message(),
        "no note with id 99; see `anki-cli notes find`"
    );
    let note = Note { id: 1, guid: String::new(), notetype_id: 5, fields: vec![], tags: vec![] };
    assert_eq!(
        notetype_of(&note, None).unwrap_err().message(),
        "notetype 5 missing from collection"
    );
    assert_eq!(notetype_of(&note, Some(basic())).unwrap().name, "Basic");
    assert_eq!(get_note(1, Some(note)).unwrap().notetype_id, 5);
}

#[test]
fn notetype_lookup() {
    assert_eq!(named_notetype("Basic", Some(basic())).unwrap().id, 1700000000001);
    assert_eq!(
        named_notetype("Clozz", None).unwrap_err().message(),
        "no notetype named 'Clozz'; see `anki-cli notetypes list`"
    );
}

#[test]
fn delete_checks_every_id_first() {
    assert!(check_notes_exist(&[1, 2], &[true, true]).is_ok());
    assert_eq!(
        check_notes_exist(&[1, 2, 3], &[true, false]).unwrap_err().message(),
        "no note with id 2; see `anki-cli notes find`"
    );
    assert_eq!(
        check_notes_exist(&[4, 5], &[false, false]).unwrap_err().message(),
        "no note with id 4; see `anki-cli notes find`"
    );
    assert!(check_notes_exist(&[], &[]).is_ok());
}
