use vstd::prelude::*;
use vstd::string::StringExecFns;
use crate::error::{CliError, CliErrorView};
use crate::text::{clone_strings, decimal, push_decimal, push_str};

verus! {

/// What the environment holds that the collection path may come from: the
/// `ANKI_COLLECTION` variable (absent when unset or not Unicode), `$HOME` (or
/// why it cannot be read), and the `collection.anki2` files found in the
/// profile directories under [`profile_bases`], in the order found.
#[derive(Debug)]
pub struct Probe {
    pub env_collection: Option<String>,
    pub home: Result<String, String>,
    pub found: Vec<String>,
}

/// The settings every command runs with.
#[derive(Debug)]
pub struct Ctx {
    pub col_path: String,
    pub json: bool,
    pub no_backup: bool,
}

/// The collection path: the `--collection` flag, else a non-empty
/// `$ANKI_COLLECTION`, else the one collection found in the profile
/// directories under `$HOME`.
pub open spec fn spec_resolve(
    flag: Option<Seq<char>>,
    env: Option<Seq<char>>,
    home: Result<Seq<char>, Seq<char>>,
    found: Seq<Seq<char>>,
) -> Result<Seq<char>, CliErrorView> {
    if flag is Some {
        Ok(flag->0)
    } else if env is Some && env->0.len() > 0 {
        Ok(env->0)
    } else if home is Err {
        Err(CliErrorView::HomeNotSet { cause: home->Err_0 })
    } else if found.len() == 0 {
        Err(CliErrorView::NoCollectionFound)
    } else if found.len() == 1 {
        Ok(found[0])
    } else {
        Err(CliErrorView::MultipleProfiles { paths: found })
    }
}

/// Whether the profile directories must be searched: neither the flag nor a
/// non-empty `$ANKI_COLLECTION` names the collection.
pub fn needs_profile_scan(flag: &Option<String>, env_collection: &Option<String>) -> (r: bool)
    ensures
        r == (flag is None && !(env_collection is Some && env_collection->0@.len() > 0)),
{
    match flag {
        Some(_) => false,
        None => match env_collection {
            Some(e) => e.as_str().unicode_len() == 0,
            None => true,
        },
    }
}

/// The profile directories searched for collections under `home`:
/// macOS's first, then Linux's.
pub open spec fn spec_profile_bases(home: Seq<char>) -> Seq<Seq<char>> {
    seq![home + "/Library/Application Support/Anki2"@, home + "/.local/share/Anki2"@]
}

/// The profile directories searched for collections under `home`.
pub fn profile_bases(home: &str) -> (v: Vec<String>)
    ensures
        v.deep_view() == spec_profile_bases(home@),
{
    let mut mac = String::from_str(home);
    push_str(&mut mac, "/Library/Application Support/Anki2");
    let mut linux = String::from_str(home);
    push_str(&mut linux, "/.local/share/Anki2");
    let ghost mv = mac@;
    let ghost lv = linux@;
    let mut v: Vec<String> = Vec::new();
    v.push(mac);
    v.push(linux);
    assert(v.deep_view() =~= seq![mv, lv]);
    v
}

/// Resolves the collection path from the flag and what the environment holds.
pub fn resolve_collection_path(flag: Option<String>, probe: &Probe) -> (r: Result<String, CliError>)
    ensures
        match spec_resolve(
            flag.deep_view(),
            probe.env_collection.deep_view(),
            match probe.home {
                Ok(h) => Ok(h@),
                Err(c) => Err(c@),
            },
            probe.found.deep_view(),
        ) {
            Ok(p) => r matches Ok(s) && s@ == p,
            Err(e) => r matches Err(x) && x@ == e,
        },
{
    if let Some(path) = flag {
        return Ok(path);
    }
    if let Some(env) = &probe.env_collection {
        if env.as_str().unicode_len() > 0 {
            return Ok(env.clone());
        }
    }
    if let Err(cause) = &probe.home {
        return Err(CliError::HomeNotSet { cause: cause.clone() });
    }
    let n = probe.found.len();
    if n == 0 {
        Err(CliError::NoCollectionFound)
    } else if n == 1 {
        Ok(probe.found[0].clone())
    } else {
        Err(CliError::MultipleProfiles { paths: clone_strings(probe.found.as_slice()) })
    }
}

impl Ctx {
    /// Settles the collection path and the output and backup flags.
    pub fn new(flag: Option<String>, json: bool, no_backup: bool, probe: &Probe) -> (r: Result<
        Ctx,
        CliError,
    >)
        ensures
            match spec_resolve(
                flag.deep_view(),
                probe.env_collection.deep_view(),
                match probe.home {
                    Ok(h) => Ok(h@),
                    Err(c) => Err(c@),
                },
                probe.found.deep_view(),
            ) {
                Ok(p) => r matches Ok(ctx) && ctx.col_path@ == p && ctx.json == json && ctx.no_backup
                    == no_backup,
                Err(e) => r matches Err(x) && x@ == e,
            },
    {
        let col_path = resolve_collection_path(flag, probe)?;
        Ok(Ctx { col_path, json, no_backup })
    }

    /// Whether a write takes a backup first (unless `--no-backup`).
    pub fn takes_backup(&self) -> (r: bool)
        ensures
            r == !self.no_backup,
    {
        !self.no_backup
    }
}

/// The name of the directory, beside the collection, that holds backups.
pub fn backup_dir_name() -> (s: &'static str)
    ensures
        s@ == "anki-cli-backups"@,
{
    "anki-cli-backups"
}

/// The name of the backup file taken at `stamp` seconds since the epoch.
pub open spec fn spec_backup_file_name(stamp: nat) -> Seq<char> {
    "collection-"@ + decimal(stamp) + ".anki2"@
}

/// The name of the backup file taken at `stamp` seconds since the epoch.
pub fn backup_file_name(stamp: u64) -> (s: String)
    ensures
        s@ == spec_backup_file_name(stamp as nat),
{
    let mut s = String::from_str("collection-");
    push_decimal(&mut s, stamp);
    push_str(&mut s, ".anki2");
    s
}

/// The notice printed on stderr after a write's backup.
pub fn backup_notice(dest: &str) -> (s: String)
    ensures
        s@ == "(backed up collection to "@ + dest@ + ")"@,
{
    let mut s = String::from_str("(backed up collection to ");
    push_str(&mut s, dest);
    push_str(&mut s, ")");
    s
}

/// The report of the `backup` command.
pub fn backup_report(dest: &str) -> (s: String)
    ensures
        s@ == "backed up to "@ + dest@,
{
    let mut s = String::from_str("backed up to ");
    push_str(&mut s, dest);
    s
}

/// Refuses to open a collection file that does not exist (opening would
/// create an empty one).
pub fn check_collection_exists(path: &str, exists: bool) -> (r: Result<(), CliError>)
    ensures
        exists <==> r is Ok,
        r matches Err(e) ==> e@ == (CliErrorView::CollectionMissing { path: path@ }),
{
    if exists {
        Ok(())
    } else {
        Err(CliError::CollectionMissing { path: String::from_str(path) })
    }
}

/// The error of a collection that failed to open, naming the path.
pub fn open_failed(path: &str, cause: &CliError) -> (e: CliError)
    ensures
        e@ == (CliErrorView::OpenFailed { path: path@, cause: cause@.message() }),
{
    CliError::OpenFailed { path: String::from_str(path), cause: cause.message() }
}

/// Law: the `--collection` flag wins over everything the environment holds.
pub proof fn law_flag_wins(
    flag: Seq<char>,
    env: Option<Seq<char>>,
    home: Result<Seq<char>, Seq<char>>,
    found: Seq<Seq<char>>,
)
    ensures
        spec_resolve(Some(flag), env, home, found) == Ok::<Seq<char>, CliErrorView>(flag),
{
}

/// Law: without the flag, a non-empty `$ANKI_COLLECTION` wins over the
/// profile search.
pub proof fn law_env_wins(
    env: Seq<char>,
    home: Result<Seq<char>, Seq<char>>,
    found: Seq<Seq<char>>,
)
    requires
        env.len() > 0,
    ensures
        spec_resolve(None, Some(env), home, found) == Ok::<Seq<char>, CliErrorView>(env),
{
}

/// Law: the profile search succeeds exactly when it finds one collection,
/// and then yields it.
pub proof fn law_single_profile(home: Seq<char>, found: Seq<Seq<char>>)
    ensures
        spec_resolve(None, None, Ok(home), found) is Ok <==> found.len() == 1,
        found.len() == 1 ==> spec_resolve(None, None, Ok(home), found) == Ok::<
            Seq<char>,
            CliErrorView,
        >(found[0]),
{
}

} // verus!
