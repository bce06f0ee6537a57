//! Fetching a rice's repository with git.
//!
//! The library decides which git command to run, where, and what its
//! outcome means; running the command is the caller's work.

use vstd::prelude::*;
use vstd::string::StringExecFns;
use crate::config::{app_dir_under, Paths};
use crate::error::RiceForgeError;
use crate::models::Rice;
use crate::paths::{join, path_join};
use crate::text::{is_trim_of, trim};

verus! {

/// One git invocation: its arguments (after `git`) and, when set, the
/// directory it runs in.
pub struct GitCommand {
    pub args: Vec<String>,
    pub dir: Option<String>,
}

/// The arguments of a command, each taken as its characters.
pub open spec fn arg_views(args: Seq<String>) -> Seq<Seq<char>> {
    args.map_values(|a: String| a@)
}

/// The repositories of installed rices.
pub struct GitManager;

impl GitManager {
    /// Where a rice's repository is checked out: `rices/<id>` under the
    /// data directory.
    pub fn checkout_dir(rice_id: &str) -> (r: String)
        ensures
            exists|base: Option<Seq<char>>|
                r@ == path_join(path_join(app_dir_under(base), "rices"@), rice_id@),
    {
        let root = Paths::rices_dir();
        Self::checkout_dir_in(root.as_str(), rice_id)
    }

    /// Where a rice's repository is checked out, given the rices directory:
    /// its id under it.
    pub fn checkout_dir_in(rices_dir: &str, rice_id: &str) -> (r: String)
        ensures
            r@ == path_join(rices_dir@, rice_id@),
    {
        join(rices_dir, rice_id)
    }

    /// The command that brings the checkout at `dest` up to date: a fast-
    /// forward pull inside it when it exists, else a shallow clone of the
    /// rice's repository into it.
    pub fn clone_or_pull(rice: &Rice, dest: &str, dest_exists: bool) -> (r: GitCommand)
        ensures
            dest_exists ==> arg_views(r.args@) == seq!["pull"@, "--ff-only"@, "--quiet"@],
            dest_exists ==> r.dir.deep_view() == Some(dest@),
            !dest_exists ==> arg_views(r.args@) == seq![
                "clone"@,
                "--depth=1"@,
                "--progress"@,
                rice.repo_url@,
                dest@,
            ],
            !dest_exists ==> r.dir is None,
    {
        if dest_exists {
            let args = vec![String::from_str("pull"), String::from_str("--ff-only"), String::from_str("--quiet")];
            assert(arg_views(args@) =~= seq!["pull"@, "--ff-only"@, "--quiet"@]);
            GitCommand { args, dir: Some(String::from_str(dest)) }
        } else {
            let args = vec![
                String::from_str("clone"),
                String::from_str("--depth=1"),
                String::from_str("--progress"),
                rice.repo_url.clone(),
                String::from_str(dest),
            ];
            assert(arg_views(args@) =~= seq![
                "clone"@,
                "--depth=1"@,
                "--progress"@,
                rice.repo_url@,
                dest@,
            ]);
            GitCommand { args, dir: None }
        }
    }

    /// The error when git itself could not be started.
    pub fn launch_error(detail: &str) -> (r: RiceForgeError)
        ensures
            r matches RiceForgeError::Git(m) && m@ == "git not found: "@ + detail@,
    {
        RiceForgeError::Git(String::from_str("git not found: ").concat(detail))
    }

    /// The error when the clone (`pulled` false) or the pull (`pulled` true)
    /// of a rice's repository exits unsuccessfully.
    pub fn sync_failure(rice: &Rice, pulled: bool) -> (r: RiceForgeError)
        ensures
            pulled ==> (r matches RiceForgeError::Git(m) && m@ == "git pull failed — manual resolution needed"@),
            !pulled ==> (r matches RiceForgeError::Git(m) && m@ == "git clone failed for '"@ + rice.id@ + "'"@),
    {
        if pulled {
            RiceForgeError::Git(String::from_str("git pull failed — manual resolution needed"))
        } else {
            RiceForgeError::Git(String::from_str("git clone failed for '").concat(rice.id.as_str()).concat("'"))
        }
    }

    /// The command that prints the commit checked out in `dir`.
    pub fn head_command(dir: &str) -> (r: GitCommand)
        ensures
            arg_views(r.args@) == seq!["rev-parse"@, "HEAD"@],
            r.dir.deep_view() == Some(dir@),
    {
        let args = vec![String::from_str("rev-parse"), String::from_str("HEAD")];
        assert(arg_views(args@) =~= seq!["rev-parse"@, "HEAD"@]);
        GitCommand { args, dir: Some(String::from_str(dir)) }
    }

    /// The commit hash from the outcome of `head_command`: its output
    /// without surrounding whitespace when git succeeded, else an error.
    /// `launch` is the reason git could not be started, if it could not.
    pub fn head_hash(launch: Option<String>, success: bool, stdout: &str) -> (r: Result<String, RiceForgeError>)
        ensures
            launch.deep_view() matches Some(d) ==> (r matches Err(RiceForgeError::Git(m)) && m@ == d),
            launch is None && !success ==> (r matches Err(RiceForgeError::Git(m)) && m@ == "could not read HEAD hash"@),
            launch is None && success ==> (r matches Ok(h) && is_trim_of(h@, stdout@)),
    {
        match launch {
            Some(d) => Err(RiceForgeError::Git(d)),
            None => {
                if !success {
                    Err(RiceForgeError::Git(String::from_str("could not read HEAD hash")))
                } else {
                    Ok(trim(stdout))
                }
            },
        }
    }

    /// The directory to delete when a rice's repository is removed: its
    /// checkout, when it exists; nothing otherwise.
    pub fn remove(rice_id: &str, checkout_exists: bool) -> (r: Option<String>)
        ensures
            checkout_exists ==> exists|base: Option<Seq<char>>|
                r.deep_view() == Some(path_join(path_join(app_dir_under(base), "rices"@), rice_id@)),
            !checkout_exists ==> r is None,
    {
        if checkout_exists {
            Some(Self::checkout_dir(rice_id))
        } else {
            None
        }
    }
}

} // verus!
