//! System packages a rice depends on (pacman).

use vstd::prelude::*;
use vstd::string::StringExecFns;
use crate::error::RiceForgeError;
use crate::git::arg_views;

verus! {

/// Joining strings with a separator between consecutive ones.
pub open spec fn joined(items: Seq<Seq<char>>, sep: Seq<char>) -> Seq<char>
    decreases items.len(),
{
    if items.len() == 0 {
        Seq::empty()
    } else if items.len() == 1 {
        items[0]
    } else {
        joined(items.drop_last(), sep) + sep + items.last()
    }
}

/// `items` joined with `sep` between consecutive ones (`[String]::join`).
pub fn join_with(items: &[String], sep: &str) -> (r: String)
    ensures
        r@ == joined(items@.map_values(|s: String| s@), sep@),
{
    let ghost v = items@.map_values(|s: String| s@);
    let mut r = String::new();
    let mut i: usize = 0;
    while i < items.len()
        invariant
            v == items@.map_values(|s: String| s@),
            i <= items@.len(),
            r@ == joined(v.take(i as int), sep@),
        decreases items@.len() - i,
    {
        proof {
            assert(v.take(i + 1).drop_last() =~= v.take(i as int));
            assert(v.take(i + 1).last() == items@[i as int]@);
        }
        if i == 0 {
            r = items[0].clone();
            assert(v.take(1) =~= seq![items@[0]@]);
        } else {
            r.append(sep);
            r.append(items[i].as_str());
        }
        i = i + 1;
    }
    assert(v.take(i as int) =~= v);
    r
}

/// Installing system packages with pacman.
pub struct PackageManager;

impl PackageManager {
    /// The packages that are not installed, in order; `installed[i]` tells
    /// whether `packages[i]` is.
    pub fn missing<'a>(packages: &'a [String], installed: &[bool]) -> (r: Vec<&'a str>)
        requires
            installed@.len() == packages@.len(),
        ensures
            r@.map_values(|s: &str| s@) == packages@.map_values(|s: String| s@).zip_with(installed@).filter(
                |x: (Seq<char>, bool)| !x.1,
            ).map_values(|x: (Seq<char>, bool)| x.0),
    {
        let ghost pairs = packages@.map_values(|s: String| s@).zip_with(installed@);
        let ghost pred = |x: (Seq<char>, bool)| !x.1;
        let mut r: Vec<&'a str> = Vec::new();
        let mut i: usize = 0;
        while i < packages.len()
            invariant
                installed@.len() == packages@.len(),
                pairs == packages@.map_values(|s: String| s@).zip_with(installed@),
                pred == |x: (Seq<char>, bool)| !x.1,
                i <= packages@.len(),
                r@.map_values(|s: &str| s@) == pairs.take(i as int).filter(pred).map_values(|x: (Seq<char>, bool)| x.0),
            decreases packages@.len() - i,
        {
            proof {
                assert(pairs.take(i + 1) =~= pairs.take(i as int).push(pairs[i as int]));
                pairs.take(i as int).lemma_filter_push(pairs[i as int], pred);
                assert(pairs[i as int] == (packages@[i as int]@, installed@[i as int]));
            }
            if !installed[i] {
                let ghost r0 = r@.map_values(|s: &str| s@);
                r.push(packages[i].as_str());
                assert(r@.map_values(|s: &str| s@) =~= r0.push(packages@[i as int]@));
                assert(pairs.take(i as int).filter(pred).push(pairs[i as int]).map_values(|x: (Seq<char>, bool)| x.0)
                    =~= pairs.take(i as int).filter(pred).map_values(|x: (Seq<char>, bool)| x.0).push(pairs[i as int].0));
            }
            i = i + 1;
        }
        assert(pairs.len() == packages@.len());
        assert(pairs.take(i as int) =~= pairs);
        r
    }

    /// The arguments given to `sudo` to install `packages`
    /// (`pacman -S --needed --noconfirm <packages>`); `None` when there is
    /// nothing to install.
    pub fn install(packages: &[&str]) -> (r: Option<Vec<String>>)
        ensures
            packages@.len() == 0 ==> r is None,
            packages@.len() > 0 ==> (r matches Some(args) && args@.len() == packages@.len() + 4
                && args@[0]@ == "pacman"@ && args@[1]@ == "-S"@ && args@[2]@ == "--needed"@
                && args@[3]@ == "--noconfirm"@
                && forall|k: int| 0 <= k < packages@.len() ==> args@[k + 4]@ == packages@[k]@),
    {
        if packages.len() == 0 {
            return None;
        }
        let mut args: Vec<String> = Vec::new();
        args.push(String::from_str("pacman"));
        args.push(String::from_str("-S"));
        args.push(String::from_str("--needed"));
        args.push(String::from_str("--noconfirm"));
        let mut i: usize = 0;
        while i < packages.len()
            invariant
                i <= packages@.len(),
                args@.len() == i + 4,
                args@[0]@ == "pacman"@,
                args@[1]@ == "-S"@,
                args@[2]@ == "--needed"@,
                args@[3]@ == "--noconfirm"@,
                forall|k: int| 0 <= k < i ==> args@[k + 4]@ == packages@[k]@,
            decreases packages@.len() - i,
        {
            args.push(String::from_str(packages[i]));
            i = i + 1;
        }
        Some(args)
    }

    /// The arguments given to `pacman` to ask whether it is available.
    pub fn availability_args() -> (r: Vec<String>)
        ensures
            arg_views(r@) == seq!["--version"@],
    {
        let r = vec![String::from_str("--version")];
        assert(arg_views(r@) =~= seq!["--version"@]);
        r
    }

    /// The arguments given to `pacman` to ask whether `package` is installed.
    pub fn query_args(package: &str) -> (r: Vec<String>)
        ensures
            arg_views(r@) == seq!["-Q"@, package@],
    {
        let r = vec![String::from_str("-Q"), String::from_str(package)];
        assert(arg_views(r@) =~= seq!["-Q"@, package@]);
        r
    }

    /// The error when `sudo` or `pacman` could not be started.
    pub fn launch_error(detail: &str) -> (r: RiceForgeError)
        ensures
            r matches RiceForgeError::PackageManager(m) && m@ == "sudo/pacman unavailable: "@ + detail@,
    {
        RiceForgeError::PackageManager(String::from_str("sudo/pacman unavailable: ").concat(detail))
    }

    /// The error for a failed pacman run over `packages`.
    pub fn install_failure(packages: &[String]) -> (r: RiceForgeError)
        ensures
            r matches RiceForgeError::PackageManager(m) && m@ == "pacman failed for: "@ + joined(
                packages@.map_values(|s: String| s@),
                ", "@,
            ),
    {
        let list = join_with(packages, ", ");
        RiceForgeError::PackageManager(String::from_str("pacman failed for: ").concat(list.as_str()))
    }
}

} // verus!
