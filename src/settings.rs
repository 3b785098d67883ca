//! Where the application keeps its settings and its cache, and what a session starts from.
use vstd::prelude::*;
use crate::cache::FileCache;

verus! {

/// `name` joined under the directory `dir`, with one separator between them.
pub open spec fn join_spec(dir: Seq<char>, name: Seq<char>) -> Seq<char> {
    if dir.len() == 0 || dir.last() == '/' {
        dir + name
    } else {
        dir + seq!['/'] + name
    }
}

/// `name` joined under the directory `dir`.
pub fn join_path(dir: &str, name: &str) -> (r: String)
    ensures
        r@ == join_spec(dir@, name@),
{
    let n = dir.unicode_len();
    let mut r = dir.to_owned();
    if n > 0 && dir.get_char(n - 1) != '/' {
        proof {
            reveal_strlit("/");
        }
        r.append("/");
    }
    r.append(name);
    assert(r@ =~= join_spec(dir@, name@));
    r
}

/// Relies on `directories::ProjectDirs::from` and `ProjectDirs::config_dir`: the
/// application's configuration directory, which the environment decides; absent when no
/// home directory is known or the path is not UTF-8.
#[verifier::external_body]
fn project_config_dir(qualifier: &str, organization: &str, application: &str) -> (r: Option<String>) {
    match directories::ProjectDirs::from(qualifier, organization, application) {
        Some(d) => d.config_dir().to_str().map(|s| s.to_string()),
        None => None,
    }
}

fn config_dir() -> Option<String> {
    project_config_dir("com", "yourorg", "music-shuffler")
}

/// The file that remembers the music directory, inside `config_dir`.
pub fn config_path_in(config_dir: &str) -> (r: String)
    ensures
        r@ == join_spec(config_dir@, "config.txt"@),
{
    join_path(config_dir, "config.txt")
}

/// The cache file, inside `config_dir`.
pub fn cache_file_path_in(config_dir: &str) -> (r: String)
    ensures
        r@ == join_spec(config_dir@, "file_cache.json"@),
{
    join_path(config_dir, "file_cache.json")
}

/// The file that remembers the music directory, when a configuration directory is known.
pub fn get_config_path() -> (r: Option<String>)
    ensures
        r matches Some(p) ==> exists|d: Seq<char>| p@ == join_spec(d, "config.txt"@),
{
    match config_dir() {
        Some(d) => Some(config_path_in(d.as_str())),
        None => None,
    }
}

/// The cache file, when a configuration directory is known.
pub fn get_cache_file_path() -> (r: Option<String>)
    ensures
        r matches Some(p) ==> exists|d: Seq<char>| p@ == join_spec(d, "file_cache.json"@),
{
    match config_dir() {
        Some(d) => Some(cache_file_path_in(d.as_str())),
        None => None,
    }
}

/// The file list that a loaded cache gives a session in `dir`: its files when it was made
/// for `dir`, none when there is no cache or it belongs to another directory.
pub fn files_from_cache(cache: Option<FileCache>, dir: &str) -> (r: Option<Vec<String>>)
    ensures
        match cache {
            Some(c) => if c@.directory == dir@ {
                r == Some(c.files)
            } else {
                r is None
            },
            None => r is None,
        },
{
    match cache {
        Some(c) => {
            if crate::cache::is_cache_valid(&c, dir) {
                Some(c.files)
            } else {
                None
            }
        },
        None => None,
    }
}

} // verus!
