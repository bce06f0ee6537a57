//! Where RiceForge keeps its files.

use vstd::prelude::*;
use vstd::string::StringExecFns;
use crate::paths::{join, path_join};

verus! {

/// Calls `dirs::cache_dir`, the path read as text (`Path::to_string_lossy`).
///
/// Nothing is stated of the result: it comes from the environment
/// (`XDG_CACHE_HOME`, `HOME`).
#[verifier::external_body]
pub fn user_cache_dir() -> (r: Option<String>) {
    match dirs::cache_dir() {
        Some(p) => Some(p.to_string_lossy().into_owned()),
        None => None,
    }
}

/// Calls `dirs::data_local_dir`, the path read as text (`Path::to_string_lossy`).
///
/// Nothing is stated of the result: it comes from the environment
/// (`XDG_DATA_HOME`, `HOME`).
#[verifier::external_body]
pub fn user_data_dir() -> (r: Option<String>) {
    match dirs::data_local_dir() {
        Some(p) => Some(p.to_string_lossy().into_owned()),
        None => None,
    }
}

/// Calls `dirs::home_dir`, the path read as text (`Path::to_string_lossy`).
///
/// Nothing is stated of the result: it comes from the environment (`HOME`,
/// or the password database).
#[verifier::external_body]
pub fn user_home_dir() -> (r: Option<String>) {
    match dirs::home_dir() {
        Some(p) => Some(p.to_string_lossy().into_owned()),
        None => None,
    }
}

/// The RiceForge directory under a per-user base directory, or under `/tmp`
/// when there is none.
pub open spec fn app_dir_under(base: Option<Seq<char>>) -> Seq<char> {
    match base {
        Some(b) => path_join(b, "riceforge"@),
        None => path_join("/tmp"@, "riceforge"@),
    }
}

/// The locations RiceForge uses.
pub struct Paths;

impl Paths {
    /// The RiceForge directory under `base`, or under `/tmp` without one.
    pub fn app_dir_under(base: Option<String>) -> (r: String)
        ensures
            r@ == app_dir_under(base.deep_view()),
    {
        match base {
            Some(b) => join(b.as_str(), "riceforge"),
            None => join("/tmp", "riceforge"),
        }
    }

    /// The cache directory (`<user cache dir>/riceforge`).
    pub fn cache_dir() -> (r: String)
        ensures
            exists|base: Option<Seq<char>>| r@ == app_dir_under(base),
    {
        Self::app_dir_under(user_cache_dir())
    }

    /// The data directory (`<user data dir>/riceforge`).
    pub fn data_dir() -> (r: String)
        ensures
            exists|base: Option<Seq<char>>| r@ == app_dir_under(base),
    {
        Self::app_dir_under(user_data_dir())
    }

    /// Where cloned rices live, for the per-user data directory `base`
    /// (`/tmp` without one): `riceforge/rices` under it.
    pub fn rices_dir_under(base: Option<String>) -> (r: String)
        ensures
            r@ == path_join(app_dir_under(base.deep_view()), "rices"@),
    {
        let d = Self::app_dir_under(base);
        join(d.as_str(), "rices")
    }

    /// Where backups live, for the per-user data directory `base`:
    /// `riceforge/backups` under it.
    pub fn backups_dir_under(base: Option<String>) -> (r: String)
        ensures
            r@ == path_join(app_dir_under(base.deep_view()), "backups"@),
    {
        let d = Self::app_dir_under(base);
        join(d.as_str(), "backups")
    }

    /// The cached registry index, for the per-user cache directory `base`:
    /// `riceforge/index.json` under it.
    pub fn index_cache_under(base: Option<String>) -> (r: String)
        ensures
            r@ == path_join(app_dir_under(base.deep_view()), "index.json"@),
    {
        let d = Self::app_dir_under(base);
        join(d.as_str(), "index.json")
    }

    /// The installed-rices database, for the per-user data directory `base`:
    /// `riceforge/installed.json` under it.
    pub fn installed_db_under(base: Option<String>) -> (r: String)
        ensures
            r@ == path_join(app_dir_under(base.deep_view()), "installed.json"@),
    {
        let d = Self::app_dir_under(base);
        join(d.as_str(), "installed.json")
    }

    /// Where cloned rices live: `rices` under the data directory.
    pub fn rices_dir() -> (r: String)
        ensures
            exists|base: Option<Seq<char>>| r@ == path_join(app_dir_under(base), "rices"@),
    {
        Self::rices_dir_under(user_data_dir())
    }

    /// Where backups live: `backups` under the data directory.
    pub fn backups_dir() -> (r: String)
        ensures
            exists|base: Option<Seq<char>>| r@ == path_join(app_dir_under(base), "backups"@),
    {
        Self::backups_dir_under(user_data_dir())
    }

    /// The cached registry index: `index.json` under the cache directory.
    pub fn index_cache() -> (r: String)
        ensures
            exists|base: Option<Seq<char>>| r@ == path_join(app_dir_under(base), "index.json"@),
    {
        Self::index_cache_under(user_cache_dir())
    }

    /// The installed-rices database: `installed.json` under the data directory.
    pub fn installed_db() -> (r: String)
        ensures
            exists|base: Option<Seq<char>>| r@ == path_join(app_dir_under(base), "installed.json"@),
    {
        Self::installed_db_under(user_data_dir())
    }

    /// The directories to create before writing, for the per-user cache and
    /// data directories: cache, data, rices, backups.
    pub fn dirs_to_create_under(cache_base: Option<String>, data_base: Option<String>) -> (r: Vec<String>)
        ensures
            r@.len() == 4,
            r@[0]@ == app_dir_under(cache_base.deep_view()),
            r@[1]@ == app_dir_under(data_base.deep_view()),
            r@[2]@ == path_join(app_dir_under(data_base.deep_view()), "rices"@),
            r@[3]@ == path_join(app_dir_under(data_base.deep_view()), "backups"@),
    {
        let cache = Self::app_dir_under(cache_base);
        let data = Self::app_dir_under(data_base);
        let rices = join(data.as_str(), "rices");
        let backups = join(data.as_str(), "backups");
        let mut r: Vec<String> = Vec::new();
        r.push(cache);
        r.push(data);
        r.push(rices);
        r.push(backups);
        r
    }

    /// The directories to create before writing: cache, data, rices, backups.
    pub fn dirs_to_create() -> (r: Vec<String>)
        ensures
            r@.len() == 4,
            exists|c: Option<Seq<char>>, d: Option<Seq<char>>| {
                &&& r@[0]@ == app_dir_under(c)
                &&& r@[1]@ == app_dir_under(d)
                &&& r@[2]@ == path_join(app_dir_under(d), "rices"@)
                &&& r@[3]@ == path_join(app_dir_under(d), "backups"@)
            },
    {
        Self::dirs_to_create_under(user_cache_dir(), user_data_dir())
    }
}

} // verus!
