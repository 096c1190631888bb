//! The engine's configuration and its decisions: which extension a task
//! goes to, and which extension runs a stored task.

use vstd::prelude::*;
use vstd::string::StringExecFns;
use crate::error::OpenFetchError;
use crate::extension::{has_name_at, is_best_extension, no_extension_match, ExtInstance, ExtensionRegistry};
use crate::text::push_char;

verus! {

/// The global configuration.
#[derive(Debug)]
pub struct Config {
    /// Where the task database lives.
    pub data_dir: String,
    /// How many downloads run at once.
    pub concurrent_downloads: usize,
    /// Where downloads go.
    pub download_dir: String,
    /// Whether tasks are synchronized with the cloud.
    pub sync_enabled: bool,
}

/// `base` joined with the relative component `comp`, as `Path::join` does
/// on Unix: a separator is added unless `base` is empty or ends in one.
pub open spec fn join_path(base: Seq<char>, comp: Seq<char>) -> Seq<char> {
    if base.len() == 0 || base.last() == '/' {
        base + comp
    } else {
        base + seq!['/'] + comp
    }
}

/// Law: joining keeps `base` as the start and `comp` as the end; when
/// `base` is not empty they are separated by exactly one '/' (the one `base`
/// ends with, or one added), and nothing else is added.
pub proof fn law_join_path(base: Seq<char>, comp: Seq<char>)
    ensures
        join_path(base, comp).subrange(0, base.len() as int) == base,
        join_path(base, comp).subrange(join_path(base, comp).len() - comp.len(), join_path(base, comp).len() as int) == comp,
        base.len() == 0 ==> join_path(base, comp) == comp,
        base.len() > 0 ==> join_path(base, comp)[join_path(base, comp).len() - comp.len() - 1] == '/',
        base.len() > 0 && base.last() == '/' ==> join_path(base, comp).len() == base.len() + comp.len(),
        base.len() > 0 && base.last() != '/' ==> join_path(base, comp).len() == base.len() + 1 + comp.len(),
{
    let j = join_path(base, comp);
    assert(j.subrange(0, base.len() as int) =~= base);
    assert(j.subrange(j.len() - comp.len(), j.len() as int) =~= comp);
    if base.len() == 0 {
        assert(j =~= comp);
    }
}

/// `base` joined with `comp`.
pub fn join(base: &str, comp: &str) -> (r: String)
    ensures
        r@ == join_path(base@, comp@),
{
    let mut r = String::from_str(base);
    let n = base.unicode_len();
    if n > 0 && base.get_char(n - 1) != '/' {
        push_char(&mut r, '/');
    }
    r.append(comp);
    r
}

/// The user's local data directory (`dirs::data_local_dir`), when the
/// platform has one; it depends on the environment, and nothing is claimed
/// of it.
#[verifier::external_body]
fn data_local_dir() -> (r: Option<String>) {
    dirs::data_local_dir().map(|p| p.to_string_lossy().into_owned())
}

/// The user's download directory (`dirs::download_dir`), when the platform
/// has one; it depends on the environment, and nothing is claimed of it.
#[verifier::external_body]
fn download_dir() -> (r: Option<String>) {
    dirs::download_dir().map(|p| p.to_string_lossy().into_owned())
}

/// The directory `open-fetch` under `dir`, or under the current directory
/// when there is no `dir`.
pub open spec fn app_dir(dir: Option<Seq<char>>) -> Seq<char> {
    match dir {
        Some(d) => join_path(d, "open-fetch"@),
        None => join_path("."@, "open-fetch"@),
    }
}

impl Config {
    /// The configuration for the given data and download directories:
    /// `open-fetch` under each (under "." when absent), 3 concurrent
    /// downloads, synchronization on.
    pub fn from_dirs(data_local: Option<String>, downloads: Option<String>) -> (r: Self)
        ensures
            r.data_dir@ == app_dir(match data_local {
                Some(d) => Some(d@),
                None => None,
            }),
            r.download_dir@ == app_dir(match downloads {
                Some(d) => Some(d@),
                None => None,
            }),
            r.concurrent_downloads == 3,
            r.sync_enabled,
    {
        let data_dir = match &data_local {
            Some(d) => join(d.as_str(), "open-fetch"),
            None => join(".", "open-fetch"),
        };
        let download_dir = match &downloads {
            Some(d) => join(d.as_str(), "open-fetch"),
            None => join(".", "open-fetch"),
        };
        Config { data_dir, concurrent_downloads: 3, download_dir, sync_enabled: true }
    }

    /// The default configuration, from the user's directories.
    pub fn default() -> (r: Self)
        ensures
            r.concurrent_downloads == 3,
            r.sync_enabled,
            exists|d: Option<Seq<char>>| r.data_dir@ == app_dir(d),
            exists|d: Option<Seq<char>>| r.download_dir@ == app_dir(d),
    {
        let r = Config::from_dirs(data_local_dir(), download_dir());
        r
    }
}

/// The extension a new task for `url` goes to: the one named explicitly,
/// else the one intent matching picks for the URL (none when nothing
/// matches).
pub fn choose_extension(explicit: Option<&str>, registry: &ExtensionRegistry, url: &str) -> (r: Option<String>)
    ensures
        match explicit {
            Some(n) => r is Some && r->0@ == n@,
            None => match r {
                Some(name) => exists|b: int| is_best_extension(registry@.manifests, url@, b) && registry@.manifests[b].name == name@,
                None => no_extension_match(registry@.manifests, url@),
            },
        },
{
    match explicit {
        Some(n) => Some(String::from_str(n)),
        None => registry.match_intent(url),
    }
}

/// The extension that runs a stored task naming `extension_name`: an error
/// "no extension specified" when the task names none, the name itself when
/// no extension of that name is loaded.
pub fn extension_for_task<'a>(extension_name: Option<&str>, registry: &'a ExtensionRegistry) -> (r: Result<&'a ExtInstance, OpenFetchError>)
    ensures
        match extension_name {
            None => r matches Err(OpenFetchError::ExtensionNotFound(m)) && m@ == "no extension specified"@,
            Some(n) => match r {
                Ok(e) => exists|i: int| has_name_at(registry@.extensions, n@, i) && registry@.extensions[i] == e@,
                Err(err) => (forall|i: int| !has_name_at(registry@.extensions, n@, i)) && (err matches OpenFetchError::ExtensionNotFound(m) && m@ == n@),
            },
        },
{
    match extension_name {
        None => Err(OpenFetchError::ExtensionNotFound(String::from_str("no extension specified"))),
        Some(n) => match registry.get(n) {
            Some(e) => Ok(e),
            None => Err(OpenFetchError::ExtensionNotFound(String::from_str(n))),
        },
    }
}

} // verus!
