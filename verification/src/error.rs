use vstd::prelude::*;
use crate::text::{join, push_joined, push_signed, push_str, signed_decimal};

verus! {

/// Everything that makes a command fail, with what the message names.
#[derive(Debug)]
pub enum CliError {
    /// A `--field` argument without `=`.
    InvalidFieldArg { arg: String },
    /// A field name that the note type does not have.
    NoSuchField { notetype: String, field: String, fields: Vec<String> },
    /// A note was to be added without any field.
    NoFieldsGiven,
    /// An edit that names no field and no tag.
    NothingToEdit,
    /// A field index past the end of the note's fields.
    FieldOutOfRange,
    /// No note has this id.
    NoSuchNote { id: i64 },
    /// The note's note type is not in the collection.
    MissingNotetype { id: i64 },
    /// No note type has this name.
    NoSuchNotetype { name: String },
    /// No deck has this name (rename, delete).
    NoSuchDeck { name: String },
    /// No deck has this name (moving cards).
    NoTargetDeck { name: String },
    /// A search that matched no note.
    NoNotesMatched { query: String },
    /// `$HOME` could not be read; `cause` says why.
    HomeNotSet { cause: String },
    /// No profile holds a collection.
    NoCollectionFound,
    /// Several profiles hold a collection.
    MultipleProfiles { paths: Vec<String> },
    /// The collection path has no parent directory to back up into.
    NoParentDir,
    /// The backup directory could not be created.
    BackupDirFailed { dir: String, cause: String },
    /// The collection file could not be copied.
    BackupCopyFailed { dest: String, cause: String },
    /// The collection file does not exist.
    CollectionMissing { path: String },
    /// The collection could not be opened; `cause` is the backend's message.
    OpenFailed { path: String, cause: String },
    /// The desktop app (or a sync) holds the collection.
    Locked,
    /// Any other failure of the backend, with its message.
    Backend { message: String },
}

/// The mathematical view of [`CliError`].
pub enum CliErrorView {
    InvalidFieldArg { arg: Seq<char> },
    NoSuchField { notetype: Seq<char>, field: Seq<char>, fields: Seq<Seq<char>> },
    NoFieldsGiven,
    NothingToEdit,
    FieldOutOfRange,
    NoSuchNote { id: int },
    MissingNotetype { id: int },
    NoSuchNotetype { name: Seq<char> },
    NoSuchDeck { name: Seq<char> },
    NoTargetDeck { name: Seq<char> },
    NoNotesMatched { query: Seq<char> },
    HomeNotSet { cause: Seq<char> },
    NoCollectionFound,
    MultipleProfiles { paths: Seq<Seq<char>> },
    NoParentDir,
    BackupDirFailed { dir: Seq<char>, cause: Seq<char> },
    BackupCopyFailed { dest: Seq<char>, cause: Seq<char> },
    CollectionMissing { path: Seq<char> },
    OpenFailed { path: Seq<char>, cause: Seq<char> },
    Locked,
    Backend { message: Seq<char> },
}

impl View for CliError {
    type V = CliErrorView;

    open spec fn view(&self) -> CliErrorView {
        match self {
            CliError::InvalidFieldArg { arg } => CliErrorView::InvalidFieldArg { arg: arg@ },
            CliError::NoSuchField { notetype, field, fields } => CliErrorView::NoSuchField {
                notetype: notetype@,
                field: field@,
                fields: fields.deep_view(),
            },
            CliError::NoFieldsGiven => CliErrorView::NoFieldsGiven,
            CliError::NothingToEdit => CliErrorView::NothingToEdit,
            CliError::FieldOutOfRange => CliErrorView::FieldOutOfRange,
            CliError::NoSuchNote { id } => CliErrorView::NoSuchNote { id: *id as int },
            CliError::MissingNotetype { id } => CliErrorView::MissingNotetype { id: *id as int },
            CliError::NoSuchNotetype { name } => CliErrorView::NoSuchNotetype { name: name@ },
            CliError::NoSuchDeck { name } => CliErrorView::NoSuchDeck { name: name@ },
            CliError::NoTargetDeck { name } => CliErrorView::NoTargetDeck { name: name@ },
            CliError::NoNotesMatched { query } => CliErrorView::NoNotesMatched { query: query@ },
            CliError::HomeNotSet { cause } => CliErrorView::HomeNotSet { cause: cause@ },
            CliError::NoCollectionFound => CliErrorView::NoCollectionFound,
            CliError::MultipleProfiles { paths } => CliErrorView::MultipleProfiles {
                paths: paths.deep_view(),
            },
            CliError::NoParentDir => CliErrorView::NoParentDir,
            CliError::BackupDirFailed { dir, cause } => CliErrorView::BackupDirFailed {
                dir: dir@,
                cause: cause@,
            },
            CliError::BackupCopyFailed { dest, cause } => CliErrorView::BackupCopyFailed {
                dest: dest@,
                cause: cause@,
            },
            CliError::CollectionMissing { path } => CliErrorView::CollectionMissing { path: path@ },
            CliError::OpenFailed { path, cause } => CliErrorView::OpenFailed {
                path: path@,
                cause: cause@,
            },
            CliError::Locked => CliErrorView::Locked,
            CliError::Backend { message } => CliErrorView::Backend { message: message@ },
        }
    }
}

impl CliErrorView {
    /// The text that the tool prints after `error: `.
    pub open spec fn message(self) -> Seq<char> {
        match self {
            CliErrorView::InvalidFieldArg { arg } => "invalid --field '"@ + arg
                + "', expected NAME=VALUE"@,
            CliErrorView::NoSuchField { notetype, field, fields } => "notetype '"@ + notetype
                + "' has no field '"@ + field + "' (fields: "@ + join(fields, ", "@) + ")"@,
            CliErrorView::NoFieldsGiven => "at least one --field NAME=VALUE is required"@,
            CliErrorView::NothingToEdit => "nothing to do: pass --field, --add-tag, or --remove-tag"@,
            CliErrorView::FieldOutOfRange => "field idx out of range"@,
            CliErrorView::NoSuchNote { id } => "no note with id "@ + signed_decimal(id)
                + "; see `anki-cli notes find`"@,
            CliErrorView::MissingNotetype { id } => "notetype "@ + signed_decimal(id)
                + " missing from collection"@,
            CliErrorView::NoSuchNotetype { name } => "no notetype named '"@ + name
                + "'; see `anki-cli notetypes list`"@,
            CliErrorView::NoSuchDeck { name } => "no deck named '"@ + name
                + "'; see `anki-cli decks list`"@,
            CliErrorView::NoTargetDeck { name } => "no deck named '"@ + name
                + "'; create it first with `anki-cli decks create`"@,
            CliErrorView::NoNotesMatched { query } => "no notes matched '"@ + query + "'"@,
            CliErrorView::HomeNotSet { cause } => "HOME is not set: "@ + cause,
            CliErrorView::NoCollectionFound =>
                "no Anki collection found; pass --collection or set $ANKI_COLLECTION to the path of a collection.anki2"@,
            CliErrorView::MultipleProfiles { paths } =>
                "multiple Anki profiles found, pick one with --collection or $ANKI_COLLECTION:\n  "@
                + join(paths, "\n  "@),
            CliErrorView::NoParentDir => "collection path has no parent directory"@,
            CliErrorView::BackupDirFailed { dir, cause } => "creating backup dir "@ + dir + ": "@
                + cause,
            CliErrorView::BackupCopyFailed { dest, cause } => "backing up collection to "@ + dest
                + ": "@ + cause,
            CliErrorView::CollectionMissing { path } => "no collection file at "@ + path
                + " (opening a missing path would create an empty collection; refusing)"@,
            CliErrorView::OpenFailed { path, cause } => "failed to open "@ + path + ": "@ + cause,
            CliErrorView::Locked =>
                "the collection is locked \u{2014} quit the Anki app (or wait for a sync to finish) and retry"@,
            CliErrorView::Backend { message } => message,
        }
    }
}

impl CliError {
    /// The text that the tool prints after `error: `.
    pub fn message(&self) -> (m: String)
        ensures
            m@ == self@.message(),
    {
        let mut m = String::new();
        match self {
            CliError::InvalidFieldArg { arg } => {
                push_str(&mut m, "invalid --field '");
                push_str(&mut m, arg.as_str());
                push_str(&mut m, "', expected NAME=VALUE");
            },
            CliError::NoSuchField { notetype, field, fields } => {
                push_str(&mut m, "notetype '");
                push_str(&mut m, notetype.as_str());
                push_str(&mut m, "' has no field '");
                push_str(&mut m, field.as_str());
                push_str(&mut m, "' (fields: ");
                push_joined(&mut m, fields.as_slice(), ", ");
                push_str(&mut m, ")");
            },
            CliError::NoFieldsGiven => {
                push_str(&mut m, "at least one --field NAME=VALUE is required");
            },
            CliError::NothingToEdit => {
                push_str(&mut m, "nothing to do: pass --field, --add-tag, or --remove-tag");
            },
            CliError::FieldOutOfRange => {
                push_str(&mut m, "field idx out of range");
            },
            CliError::NoSuchNote { id } => {
                push_str(&mut m, "no note with id ");
                push_signed(&mut m, *id);
                push_str(&mut m, "; see `anki-cli notes find`");
            },
            CliError::MissingNotetype { id } => {
                push_str(&mut m, "notetype ");
                push_signed(&mut m, *id);
                push_str(&mut m, " missing from collection");
            },
            CliError::NoSuchNotetype { name } => {
                push_str(&mut m, "no notetype named '");
                push_str(&mut m, name.as_str());
                push_str(&mut m, "'; see `anki-cli notetypes list`");
            },
            CliError::NoSuchDeck { name } => {
                push_str(&mut m, "no deck named '");
                push_str(&mut m, name.as_str());
                push_str(&mut m, "'; see `anki-cli decks list`");
            },
            CliError::NoTargetDeck { name } => {
                push_str(&mut m, "no deck named '");
                push_str(&mut m, name.as_str());
                push_str(&mut m, "'; create it first with `anki-cli decks create`");
            },
            CliError::NoNotesMatched { query } => {
                push_str(&mut m, "no notes matched '");
                push_str(&mut m, query.as_str());
                push_str(&mut m, "'");
            },
            CliError::HomeNotSet { cause } => {
                push_str(&mut m, "HOME is not set: ");
                push_str(&mut m, cause.as_str());
            },
            CliError::NoCollectionFound => {
                push_str(
                    &mut m,
                    "no Anki collection found; pass --collection or set $ANKI_COLLECTION to the path of a collection.anki2",
                );
            },
            CliError::MultipleProfiles { paths } => {
                push_str(
                    &mut m,
                    "multiple Anki profiles found, pick one with --collection or $ANKI_COLLECTION:\n  ",
                );
                push_joined(&mut m, paths.as_slice(), "\n  ");
            },
            CliError::NoParentDir => {
                push_str(&mut m, "collection path has no parent directory");
            },
            CliError::BackupDirFailed { dir, cause } => {
                push_str(&mut m, "creating backup dir ");
                push_str(&mut m, dir.as_str());
                push_str(&mut m, ": ");
                push_str(&mut m, cause.as_str());
            },
            CliError::BackupCopyFailed { dest, cause } => {
                push_str(&mut m, "backing up collection to ");
                push_str(&mut m, dest.as_str());
                push_str(&mut m, ": ");
                push_str(&mut m, cause.as_str());
            },
            CliError::CollectionMissing { path } => {
                push_str(&mut m, "no collection file at ");
                push_str(&mut m, path.as_str());
                push_str(
                    &mut m,
                    " (opening a missing path would create an empty collection; refusing)",
                );
            },
            CliError::OpenFailed { path, cause } => {
                push_str(&mut m, "failed to open ");
                push_str(&mut m, path.as_str());
                push_str(&mut m, ": ");
                push_str(&mut m, cause.as_str());
            },
            CliError::Locked => {
                push_str(
                    &mut m,
                    "the collection is locked \u{2014} quit the Anki app (or wait for a sync to finish) and retry",
                );
            },
            CliError::Backend { message } => {
                push_str(&mut m, message.as_str());
            },
        }
        m
    }
}

/// The error that a failed backend call turns into: the lock message when
/// the database reports that the file is locked, else the backend's own
/// message.
pub open spec fn spec_ank(locked: bool, message: Seq<char>) -> CliErrorView {
    if locked {
        CliErrorView::Locked
    } else {
        CliErrorView::Backend { message }
    }
}

/// Turns a failed backend call into an error of this tool, given whether
/// the failure is a locked database and the backend's message for it.
pub fn ank(locked: bool, message: String) -> (e: CliError)
    ensures
        e@ == spec_ank(locked, message@),
{
    if locked {
        CliError::Locked
    } else {
        CliError::Backend { message }
    }
}

} // verus!
