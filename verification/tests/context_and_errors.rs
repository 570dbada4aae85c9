use anki_cli::context::{
    backup_dir_name, backup_file_name, backup_notice, backup_report, check_collection_exists,
    needs_profile_scan, open_failed, profile_bases, resolve_collection_path, Ctx, Probe,
};
use anki_cli::error::{ank, CliError};

fn probe(env: Option<&str>, home: Result<&str, &str>, found: &[&str]) -> Probe {
    Probe {
        env_collection: env.map(|s| s.to_string()),
        home: home.map(|s| s.to_string()).map_err(|s| s.to_string()),
        found: found.iter().map(|s| s.to_string()).collect(),
    }
}

#[test]
fn flag_wins_over_everything() {
    let p = probe(Some("/env.anki2"), Ok("/home/u"), &["/a", "/b"]);
    let path = resolve_collection_path(Some("/flag.anki2".to_string()), &p).unwrap();
    assert_eq!(path, "/flag.anki2");
}

#[test]
fn env_wins_when_not_empty() {
    let p = probe(Some("/env.anki2"), Err("environment variable not found"), &[]);
    assert_eq!(resolve_collection_path(None, &p).unwrap(), "/env.anki2");
}

#[test]
fn empty_env_falls_through_to_profiles() {
    let p = probe(Some(""), Ok("/home/u"), &["/home/u/.local/share/Anki2/User 1/collection.anki2"]);
    assert_eq!(
        resolve_collection_path(None, &p).unwrap(),
        "/home/u/.local/share/Anki2/User 1/collection.anki2"
    );
}

#[test]
fn home_missing_is_an_error() {
    let p = probe(None, Err("environment variable not found"), &[]);
    let e = resolve_collection_path(None, &p).unwrap_err();
    assert_eq!(e.message(), "HOME is not set: environment variable not found");
}

#[test]
fn no_profile_found() {
    let p = probe(None, Ok("/home/u"), &[]);
    let e = resolve_collection_path(None, &p).unwrap_err();
    assert_eq!(
        e.message(),
        "no Anki collection found; pass --collection or set $ANKI_COLLECTION to the path of a collection.anki2"
    );
}

#[test]
fn several_profiles_found() {
    let p = probe(None, Ok("/h"), &["/h/A/collection.anki2", "/h/B/collection.anki2"]);
    let e = resolve_collection_path(None, &p).unwrap_err();
    assert_eq!(
        e.message(),
        "multiple Anki profiles found, pick one with --collection or $ANKI_COLLECTION:\n  /h/A/collection.anki2\n  /h/B/collection.anki2"
    );
}

#[test]
fn ctx_new_keeps_flags() {
    let p = probe(None, Ok("/h"), &["/h/A/collection.anki2"]);
    let ctx = Ctx::new(None, true, true, &p).unwrap();
    assert_eq!(ctx.col_path, "/h/A/collection.anki2");
    assert!(ctx.json);
    assert!(!ctx.takes_backup());
    let ctx = Ctx::new(Some("/c".to_string()), false, false, &p).unwrap();
    assert_eq!(ctx.col_path, "/c");
    assert!(!ctx.json);
    assert!(ctx.takes_backup());
    assert!(Ctx::new(None, false, false, &probe(None, Ok("/h"), &[])).is_err());
}

#[test]
fn scan_only_without_flag_or_env() {
    assert!(!needs_profile_scan(&Some("/c".to_string()), &None));
    assert!(!needs_profile_scan(&None, &Some("/e".to_string())));
    assert!(needs_profile_scan(&None, &Some(String::new())));
    assert!(needs_profile_scan(&None, &None));
}

#[test]
fn profile_bases_macos_then_linux() {
    assert_eq!(
        profile_bases("/Users/me"),
        vec![
            "/Users/me/Library/Application Support/Anki2".to_string(),
            "/Users/me/.local/share/Anki2".to_string()
        ]
    );
}

#[test]
fn backup_names() {
    assert_eq!(backup_dir_name(), "anki-cli-backups");
    assert_eq!(backup_file_name(1725029869), "collection-1725029869.anki2");
    assert_eq!(backup_file_name(0), "collection-0.anki2");
    assert_eq!(backup_file_name(u64::MAX), "collection-18446744073709551615.anki2");
    assert_eq!(backup_notice("/x/b.anki2"), "(backed up collection to /x/b.anki2)");
    assert_eq!(backup_report("/x/b.anki2"), "backed up to /x/b.anki2");
}

#[test]
fn missing_collection_is_refused() {
    assert!(check_collection_exists("/c", true).is_ok());
    let e = check_collection_exists("/nope/collection.anki2", false).unwrap_err();
    assert_eq!(
        e.message(),
        "no collection file at /nope/collection.anki2 (opening a missing path would create an empty collection; refusing)"
    );
}

#[test]
fn lock_errors_get_their_own_message() {
    let e = ank(true, "database is locked".to_string());
    assert!(matches!(e, CliError::Locked));
    assert_eq!(
        e.message(),
        "the collection is locked \u{2014} quit the Anki app (or wait for a sync to finish) and retry"
    );
    let e = ank(false, "disk full".to_string());
    assert_eq!(e.message(), "disk full");
    let wrapped = open_failed("/c.anki2", &e);
    assert_eq!(wrapped.message(), "failed to open /c.anki2: disk full");
}

#[test]
fn every_error_message() {
    let cases: Vec<(CliError, &str)> = vec![
        (CliError::NoFieldsGiven, "at least one --field NAME=VALUE is required"),
        (CliError::NothingToEdit, "nothing to do: pass --field, --add-tag, or --remove-tag"),
        (CliError::NoSuchNote { id: 1781041359199 }, "no note with id 1781041359199; see `anki-cli notes find`"),
        (CliError::NoSuchNote { id: -5 }, "no note with id -5; see `anki-cli notes find`"),
        (CliError::MissingNotetype { id: 42 }, "notetype 42 missing from collection"),
        (CliError::NoSuchNotetype { name: "Clozz".to_string() }, "no notetype named 'Clozz'; see `anki-cli notetypes list`"),
        (CliError::NoSuchDeck { name: "ML".to_string() }, "no deck named 'ML'; see `anki-cli decks list`"),
        (CliError::NoTargetDeck { name: "ML".to_string() }, "no deck named 'ML'; create it first with `anki-cli decks create`"),
        (CliError::NoParentDir, "collection path has no parent directory"),
        (CliError::BackupDirFailed { dir: "/d".to_string(), cause: "denied".to_string() }, "creating backup dir /d: denied"),
        (CliError::BackupCopyFailed { dest: "/d/c.anki2".to_string(), cause: "denied".to_string() }, "backing up collection to /d/c.anki2: denied"),
        (CliError::MissingNotetype { id: i64::MIN }, "notetype -9223372036854775808 missing from collection"),
    ];
    for (e, m) in cases {
        assert_eq!(e.message(), m);
    }
}
