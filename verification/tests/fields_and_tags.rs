use anki_cli::error::CliError;
use anki_cli::fields::{
    empty_fields, field_index, fields_json, parse_field_args, set_field, set_fields,
    split_field_arg,
};
use anki_cli::tags;
use anki_cli::tags::{edit_tags, require_matches, tags_arg};

fn strings(v: &[&str]) -> Vec<String> {
    v.iter().map(|s| s.to_string()).collect()
}

fn pair(k: &str, v: &str) -> (String, String) {
    (k.to_string(), v.to_string())
}

fn entries(names: &[String], values: &[String]) -> Vec<(String, String)> {
    fields_json(names, values)
        .iter()
        .map(|(k, v)| (k.clone(), v.as_str().unwrap().to_string()))
        .collect()
}

#[test]
fn parse_field_args_splits_at_first_equals() {
    let args = strings(&["Front=What is 2+2?", "Back=a=b", "Extra="]);
    let parsed = parse_field_args(&args).unwrap();
    assert_eq!(
        parsed,
        vec![pair("Front", "What is 2+2?"), pair("Back", "a=b"), pair("Extra", "")]
    );
}

#[test]
fn parse_field_args_empty_is_empty() {
    assert_eq!(parse_field_args(&[]).unwrap(), Vec::<(String, String)>::new());
}

#[test]
fn parse_field_args_reports_first_bad_argument() {
    let args = strings(&["Front=x", "oops", "also-bad"]);
    match parse_field_args(&args) {
        Err(e) => {
            assert_eq!(e.message(), "invalid --field 'oops', expected NAME=VALUE");
            assert!(matches!(e, CliError::InvalidFieldArg { .. }));
        }
        Ok(_) => panic!("expected an error"),
    }
}

#[test]
fn split_field_arg_roundtrip() {
    for arg in ["a=b", "=v", "k=", "x=y=z", "é=ü"] {
        let (k, v) = split_field_arg(arg).unwrap();
        assert_eq!(format!("{k}={v}"), arg);
        assert!(!k.contains('='));
    }
    assert_eq!(split_field_arg("noequals"), None);
    assert_eq!(split_field_arg(""), None);
}

#[test]
fn field_index_prefers_exact_then_case_insensitive() {
    let fields = strings(&["front", "Front", "Back"]);
    assert_eq!(field_index("Basic", &fields, "Front").unwrap(), 1);
    assert_eq!(field_index("Basic", &fields, "FRONT").unwrap(), 0);
    assert_eq!(field_index("Basic", &fields, "back").unwrap(), 2);
}

#[test]
fn field_index_error_lists_fields() {
    let fields = strings(&["Front", "Back"]);
    let e = field_index("Basic", &fields, "Extra").unwrap_err();
    assert_eq!(
        e.message(),
        "notetype 'Basic' has no field 'Extra' (fields: Front, Back)"
    );
}

#[test]
fn field_index_case_fold_is_ascii_only() {
    let fields = strings(&["Ärger"]);
    assert!(field_index("T", &fields, "ärger").is_err());
    assert_eq!(field_index("T", &fields, "äRGER").unwrap_err().message(),
        "notetype 'T' has no field 'äRGER' (fields: Ärger)");
    let fields = strings(&["Ärger"]);
    assert_eq!(field_index("T", &fields, "ÄRGER").unwrap(), 0);
}

#[test]
fn set_field_in_and_out_of_range() {
    let mut f = strings(&["a", "b"]);
    set_field(&mut f, 1, "z".to_string()).unwrap();
    assert_eq!(f, strings(&["a", "z"]));
    let e = set_field(&mut f, 2, "q".to_string()).unwrap_err();
    assert_eq!(e.message(), "field idx out of range");
    assert_eq!(f, strings(&["a", "z"]));
}

#[test]
fn set_fields_assigns_in_order() {
    let names = strings(&["Front", "Back"]);
    let out = set_fields(
        "Basic",
        &names,
        empty_fields(2),
        vec![pair("back", "B1"), pair("Front", "F"), pair("Back", "B2")],
    )
    .unwrap();
    assert_eq!(out, strings(&["F", "B2"]));
}

#[test]
fn set_fields_stops_at_unknown_field() {
    let names = strings(&["Front", "Back"]);
    let e = set_fields(
        "Basic",
        &names,
        empty_fields(2),
        vec![pair("Front", "F"), pair("Nope", "x"), pair("Also", "y")],
    )
    .unwrap_err();
    assert_eq!(e.message(), "notetype 'Basic' has no field 'Nope' (fields: Front, Back)");
}

#[test]
fn empty_fields_are_empty() {
    assert_eq!(empty_fields(3), strings(&["", "", ""]));
    assert!(empty_fields(0).is_empty());
}

#[test]
fn fields_json_in_field_order() {
    let names = strings(&["Front", "Back"]);
    let values = strings(&["q", "a"]);
    assert_eq!(
        entries(&names, &values),
        vec![pair("Front", "q"), pair("Back", "a")]
    );
}

#[test]
fn fields_json_fallback_and_repeat() {
    let names = strings(&["field2", "Back"]);
    let values = strings(&["q", "a", "extra", "more"]);
    assert_eq!(
        entries(&names, &values),
        vec![pair("field2", "extra"), pair("Back", "a"), pair("field3", "more")]
    );
}

#[test]
fn edit_tags_adds_missing_and_removes_case_insensitively() {
    let mut tags = strings(&["ml", "Interview"]);
    edit_tags(&mut tags, strings(&["ML", "weak", "new", "weak"]), &strings(&["INTERVIEW", "New"]));
    assert_eq!(tags, strings(&["ml", "weak"]));
}

#[test]
fn edit_tags_is_idempotent() {
    let adds = strings(&["a", "B", "c"]);
    let removes = strings(&["C"]);
    let mut once = strings(&["b", "x", "c"]);
    edit_tags(&mut once, adds.clone(), &removes);
    let mut twice = once.clone();
    edit_tags(&mut twice, adds, &removes);
    assert_eq!(once, strings(&["b", "x", "a"]));
    assert_eq!(twice, once);
}

#[test]
fn edit_tags_keeps_others_in_order() {
    let mut tags = strings(&["z", "y", "x"]);
    edit_tags(&mut tags, vec![], &strings(&["Y"]));
    assert_eq!(tags, strings(&["z", "x"]));
}

#[test]
fn bulk_tag_commands() {
    assert!(require_matches("deck:ML", 3).is_ok());
    let e = require_matches("deck:ML", 0).unwrap_err();
    assert_eq!(e.message(), "no notes matched 'deck:ML'");
    let tags = strings(&["a", "b"]);
    assert_eq!(tags_arg(&tags), "a b");
    assert_eq!(tags_arg(&[]), "");
    assert_eq!(tags::add(2, 5, &tags), "tagged 2 of 5 matched note(s) with: a, b");
    assert_eq!(tags::remove(0, 1, &tags), "removed tags from 0 of 1 matched note(s): a, b");
}
