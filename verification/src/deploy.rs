//! Deploying a rice: which files of its repository become symlinks in the
//! home directory, and which existing files must be backed up first.

use vstd::prelude::*;
use vstd::string::StringExecFns;
use crate::config::{user_home_dir, Paths};
use crate::error::RiceForgeError;
use crate::models::{DeployPlan, Rice};
use crate::paths::{first_component, first_component_of, join, parent_dir, parent_of, path_join, strip_dir_prefix, strip_prefix};
use crate::text::same_text;

verus! {

/// Names that are never deployed when they sit at the top of a rice's
/// repository (metadata, documentation, version control, previews).
pub open spec fn excluded_at_root(name: Seq<char>) -> bool {
    ||| name == "rice.toml"@
    ||| name == "pipeline.toml"@
    ||| name == "README.md"@
    ||| name == "README.rst"@
    ||| name == "README"@
    ||| name == "LICENSE"@
    ||| name == "LICENSE.md"@
    ||| name == "LICENSE.txt"@
    ||| name == ".git"@
    ||| name == ".gitignore"@
    ||| name == ".gitmodules"@
    ||| name == "screenshots"@
    ||| name == "preview.png"@
    ||| name == "preview.jpg"@
    ||| name == "preview.webp"@
    ||| name == "INSTALL.md"@
    ||| name == "install.sh"@
}

/// Whether a top-level name of a rice's repository is never deployed.
pub fn is_excluded_at_root(name: &str) -> (r: bool)
    ensures
        r == excluded_at_root(name@),
{
    same_text(name, "rice.toml") || same_text(name, "pipeline.toml") || same_text(name, "README.md")
        || same_text(name, "README.rst") || same_text(name, "README") || same_text(name, "LICENSE")
        || same_text(name, "LICENSE.md") || same_text(name, "LICENSE.txt") || same_text(name, ".git")
        || same_text(name, ".gitignore") || same_text(name, ".gitmodules") || same_text(
        name,
        "screenshots",
    ) || same_text(name, "preview.png") || same_text(name, "preview.jpg") || same_text(
        name,
        "preview.webp",
    ) || same_text(name, "INSTALL.md") || same_text(name, "install.sh")
}

/// One entry found below a rice's repository, with what is known of the
/// place in the home directory it maps to.
pub struct DeployEntry {
    pub path: String,
    pub is_dir: bool,
    pub dest_exists: bool,
    pub dest_is_symlink: bool,
}

/// The value of a `DeployEntry`.
pub struct DeployEntryView {
    pub path: Seq<char>,
    pub is_dir: bool,
    pub dest_exists: bool,
    pub dest_is_symlink: bool,
}

impl View for DeployEntry {
    type V = DeployEntryView;

    open spec fn view(&self) -> DeployEntryView {
        DeployEntryView {
            path: self.path@,
            is_dir: self.is_dir,
            dest_exists: self.dest_exists,
            dest_is_symlink: self.dest_is_symlink,
        }
    }
}

/// The views of a list of entries.
pub open spec fn entry_views(s: Seq<DeployEntry>) -> Seq<DeployEntryView> {
    s.map_values(|e: DeployEntry| e@)
}

/// The links a deployment makes and the files it backs up, in order;
/// whether an entry outside the repository stopped it.
pub struct DeploySteps {
    pub links: Seq<(Seq<char>, Seq<char>)>,
    pub to_backup: Seq<Seq<char>>,
    pub failed: bool,
}

/// The deployment of the entries found below `rice_dir` into `home`: an
/// entry whose first path component is excluded at the root is skipped, and
/// so is every directory; each other file is linked from the same relative
/// place in `home`, and an existing destination that is not a symlink is
/// backed up. An entry outside `rice_dir` stops the deployment.
pub open spec fn deploy_steps(entries: Seq<DeployEntryView>, rice_dir: Seq<char>, home: Seq<char>) -> DeploySteps
    decreases entries.len(),
{
    if entries.len() == 0 {
        DeploySteps { links: Seq::empty(), to_backup: Seq::empty(), failed: false }
    } else {
        let prev = deploy_steps(entries.drop_last(), rice_dir, home);
        let e = entries.last();
        if prev.failed {
            prev
        } else {
            match strip_dir_prefix(e.path, rice_dir) {
                None => DeploySteps { failed: true, ..prev },
                Some(rel) => if excluded_at_root(first_component(rel)) || e.is_dir {
                    prev
                } else {
                    let dest = path_join(home, rel);
                    DeploySteps {
                        links: prev.links.push((e.path, dest)),
                        to_backup: if e.dest_exists && !e.dest_is_symlink {
                            prev.to_backup.push(dest)
                        } else {
                            prev.to_backup
                        },
                        failed: false,
                    }
                },
            }
        }
    }
}

proof fn lemma_deploy_steps_stop(entries: Seq<DeployEntryView>, dir: Seq<char>, home: Seq<char>, k: int)
    requires
        0 <= k <= entries.len(),
        deploy_steps(entries.take(k), dir, home).failed,
    ensures
        deploy_steps(entries, dir, home) == deploy_steps(entries.take(k), dir, home),
    decreases entries.len() - k,
{
    if k < entries.len() {
        assert(entries.drop_last().take(k) =~= entries.take(k));
        lemma_deploy_steps_stop(entries.drop_last(), dir, home, k);
    } else {
        assert(entries.take(k) =~= entries);
    }
}

/// The destinations of a list of links.
pub open spec fn link_dests(links: Seq<(Seq<char>, Seq<char>)>) -> Seq<Seq<char>> {
    links.map_values(|l: (Seq<char>, Seq<char>)| l.1)
}

/// Law: every link of a deployment goes from a file below the repository
/// whose top-level name is not excluded, to the same relative place in the
/// home directory; and every file to back up is the destination of a link.
pub proof fn lemma_deploy_links_well_placed(entries: Seq<DeployEntryView>, rice_dir: Seq<char>, home: Seq<char>)
    ensures
        ({
            let st = deploy_steps(entries, rice_dir, home);
            &&& forall|k: int| 0 <= k < st.links.len() ==> (#[trigger] strip_dir_prefix(st.links[k].0, rice_dir) matches Some(rel)
                && !excluded_at_root(first_component(rel)) && st.links[k].1 == path_join(home, rel))
            &&& forall|j: int| 0 <= j < st.to_backup.len() ==> link_dests(st.links).contains(#[trigger] st.to_backup[j])
        }),
    decreases entries.len(),
{
    if entries.len() > 0 {
        lemma_deploy_links_well_placed(entries.drop_last(), rice_dir, home);
        let prev = deploy_steps(entries.drop_last(), rice_dir, home);
        let st = deploy_steps(entries, rice_dir, home);
        let e = entries.last();
        if !prev.failed {
            if let Some(rel) = strip_dir_prefix(e.path, rice_dir) {
                if !(excluded_at_root(first_component(rel)) || e.is_dir) {
                    assert forall|k: int| 0 <= k < st.links.len() implies (#[trigger] strip_dir_prefix(st.links[k].0, rice_dir) matches Some(r2)
                        && !excluded_at_root(first_component(r2)) && st.links[k].1 == path_join(home, r2)) by {
                        if k < prev.links.len() {
                            assert(st.links[k] == prev.links[k]);
                        }
                    }
                    assert(link_dests(st.links) =~= link_dests(prev.links).push(path_join(home, rel)));
                    assert forall|j: int| 0 <= j < st.to_backup.len() implies link_dests(st.links).contains(#[trigger] st.to_backup[j]) by {
                        if j < prev.to_backup.len() {
                            assert(st.to_backup[j] == prev.to_backup[j]);
                            assert(link_dests(prev.links).contains(prev.to_backup[j]));
                            let k = choose|k: int| 0 <= k < link_dests(prev.links).len() && link_dests(prev.links)[k] == prev.to_backup[j];
                            assert(link_dests(st.links)[k] == prev.to_backup[j]);
                        } else {
                            assert(link_dests(st.links)[prev.links.len() as int] == st.to_backup[j]);
                        }
                    }
                } else {
                    assert(st == prev);
                }
            } else {
                assert(st.links == prev.links && st.to_backup == prev.to_backup);
            }
        } else {
            assert(st == prev);
        }
    }
}

/// An entry is deployed: it lies below the repository, it is not a
/// directory, and its top-level name is not excluded.
pub open spec fn deployable(e: DeployEntryView, rice_dir: Seq<char>) -> bool {
    strip_dir_prefix(e.path, rice_dir) matches Some(rel) && !excluded_at_root(first_component(rel)) && !e.is_dir
}

/// Law: a deployment that completes links every deployable file to its
/// place in the home directory, and backs up that place first whenever a
/// file that is not a symlink is already there.
pub proof fn lemma_deploy_covers_repository(entries: Seq<DeployEntryView>, rice_dir: Seq<char>, home: Seq<char>)
    requires
        !deploy_steps(entries, rice_dir, home).failed,
    ensures
        ({
            let st = deploy_steps(entries, rice_dir, home);
            forall|i: int| 0 <= i < entries.len() && #[trigger] deployable(entries[i], rice_dir) ==> {
                let dest = path_join(home, strip_dir_prefix(entries[i].path, rice_dir)->0);
                &&& st.links.contains((entries[i].path, dest))
                &&& entries[i].dest_exists && !entries[i].dest_is_symlink ==> st.to_backup.contains(dest)
            }
        }),
    decreases entries.len(),
{
    if entries.len() > 0 {
        let init = entries.drop_last();
        let prev = deploy_steps(init, rice_dir, home);
        let st = deploy_steps(entries, rice_dir, home);
        let e = entries.last();
        assert(!prev.failed);
        lemma_deploy_covers_repository(init, rice_dir, home);
        assert forall|i: int| 0 <= i < entries.len() && #[trigger] deployable(entries[i], rice_dir) implies ({
            let dest = path_join(home, strip_dir_prefix(entries[i].path, rice_dir)->0);
            &&& st.links.contains((entries[i].path, dest))
            &&& entries[i].dest_exists && !entries[i].dest_is_symlink ==> st.to_backup.contains(dest)
        }) by {
            let dest = path_join(home, strip_dir_prefix(entries[i].path, rice_dir)->0);
            if i < init.len() {
                assert(entries[i] == init[i]);
                assert(deployable(init[i], rice_dir));
                assert(prev.links.contains((init[i].path, dest)));
                let k = choose|k: int| 0 <= k < prev.links.len() && prev.links[k] == (init[i].path, dest);
                if deployable(e, rice_dir) {
                    assert(st.links[k] == prev.links[k]);
                } else {
                    assert(st == prev);
                }
                if init[i].dest_exists && !init[i].dest_is_symlink {
                    assert(prev.to_backup.contains(dest));
                    let j = choose|j: int| 0 <= j < prev.to_backup.len() && prev.to_backup[j] == dest;
                    if deployable(e, rice_dir) {
                        if e.dest_exists && !e.dest_is_symlink {
                            assert(st.to_backup[j] == prev.to_backup[j]);
                        } else {
                            assert(st.to_backup == prev.to_backup);
                        }
                    } else {
                        assert(st == prev);
                    }
                }
            } else {
                assert(i == entries.len() - 1);
                assert(st.links[st.links.len() - 1] == (e.path, dest));
                if e.dest_exists && !e.dest_is_symlink {
                    assert(st.to_backup[st.to_backup.len() - 1] == dest);
                }
            }
        }
    }
}

/// Law: no link of a deployment comes from the repository's metadata: the
/// source of every link lies below the repository, and its top-level name
/// is none of `rice.toml`, `pipeline.toml`, `README.md`, `README.rst`,
/// `README`, `LICENSE`, `LICENSE.md`, `LICENSE.txt`, `.git`, `.gitignore`,
/// `.gitmodules`, `screenshots`, `preview.png`, `preview.jpg`,
/// `preview.webp`, `INSTALL.md`, `install.sh`; and it is linked to the same
/// relative place in the home directory.
pub proof fn lemma_metadata_never_linked(entries: Seq<DeployEntryView>, rice_dir: Seq<char>, home: Seq<char>)
    ensures
        ({
            let st = deploy_steps(entries, rice_dir, home);
            forall|k: int| 0 <= k < st.links.len() ==> {
                &&& #[trigger] strip_dir_prefix(st.links[k].0, rice_dir) is Some
                &&& {
                    let top = first_component(strip_dir_prefix(st.links[k].0, rice_dir)->0);
                    top != "rice.toml"@ && top != "pipeline.toml"@ && top != "README.md"@ && top != "README.rst"@
                    && top != "README"@ && top != "LICENSE"@ && top != "LICENSE.md"@ && top != "LICENSE.txt"@
                    && top != ".git"@ && top != ".gitignore"@ && top != ".gitmodules"@ && top != "screenshots"@
                    && top != "preview.png"@ && top != "preview.jpg"@ && top != "preview.webp"@ && top != "INSTALL.md"@
                    && top != "install.sh"@
                }
                &&& st.links[k].1 == path_join(home, strip_dir_prefix(st.links[k].0, rice_dir)->0)
            }
        }),
{
    lemma_deploy_links_well_placed(entries, rice_dir, home);
}

/// Law: a deployment that completes links every file below the repository
/// whose top-level name is none of the metadata names above, each to the
/// same relative place in the home directory.
pub proof fn lemma_other_files_linked(entries: Seq<DeployEntryView>, rice_dir: Seq<char>, home: Seq<char>)
    requires
        !deploy_steps(entries, rice_dir, home).failed,
    ensures
        forall|i: int|
            0 <= i < entries.len() && !entries[i].is_dir && (#[trigger] strip_dir_prefix(entries[i].path, rice_dir) matches Some(rel)
                && {
                let top = first_component(rel);
                top != "rice.toml"@ && top != "pipeline.toml"@ && top != "README.md"@ && top != "README.rst"@
                && top != "README"@ && top != "LICENSE"@ && top != "LICENSE.md"@ && top != "LICENSE.txt"@
                && top != ".git"@ && top != ".gitignore"@ && top != ".gitmodules"@ && top != "screenshots"@
                && top != "preview.png"@ && top != "preview.jpg"@ && top != "preview.webp"@ && top != "INSTALL.md"@
                && top != "install.sh"@
            }) ==> deploy_steps(entries, rice_dir, home).links.contains(
                (entries[i].path, path_join(home, strip_dir_prefix(entries[i].path, rice_dir)->0)),
            ),
{
    lemma_deploy_covers_repository(entries, rice_dir, home);
    assert forall|i: int|
        0 <= i < entries.len() && !entries[i].is_dir && (#[trigger] strip_dir_prefix(entries[i].path, rice_dir) matches Some(rel)
            && {
            let top = first_component(rel);
            top != "rice.toml"@ && top != "pipeline.toml"@ && top != "README.md"@ && top != "README.rst"@
            && top != "README"@ && top != "LICENSE"@ && top != "LICENSE.md"@ && top != "LICENSE.txt"@
            && top != ".git"@ && top != ".gitignore"@ && top != ".gitmodules"@ && top != "screenshots"@
            && top != "preview.png"@ && top != "preview.jpg"@ && top != "preview.webp"@ && top != "INSTALL.md"@
            && top != "install.sh"@
        }) implies deploy_steps(entries, rice_dir, home).links.contains(
            (entries[i].path, path_join(home, strip_dir_prefix(entries[i].path, rice_dir)->0)),
        ) by {
        assert(deployable(entries[i], rice_dir));
    }
}

/// The destinations among `dests` whose flag is set.
pub open spec fn flagged(dests: Seq<Seq<char>>, flags: Seq<bool>) -> Seq<Seq<char>> {
    dests.zip_with(flags).filter(|x: (Seq<char>, bool)| x.1).map_values(|x: (Seq<char>, bool)| x.0)
}

/// Law: once every destination of a plan is a symlink (as applying it
/// leaves them), removing the rice deletes every destination, in order.
pub proof fn lemma_remove_after_apply(dests: Seq<Seq<char>>, flags: Seq<bool>)
    requires
        flags.len() == dests.len(),
        forall|i: int| 0 <= i < flags.len() ==> flags[i],
    ensures
        flagged(dests, flags) == dests,
    decreases dests.len(),
{
    reveal(Seq::filter);
    let z = dests.zip_with(flags);
    if dests.len() > 0 {
        lemma_remove_after_apply(dests.drop_last(), flags.drop_last());
        assert(z.drop_last() =~= dests.drop_last().zip_with(flags.drop_last()));
        assert(z.last() == (dests.last(), true));
        let p = |x: (Seq<char>, bool)| x.1;
        assert(z.filter(p) == z.drop_last().filter(p).push(z.last()));
        assert(flagged(dests, flags) =~= flagged(dests.drop_last(), flags.drop_last()).push(dests.last()));
        assert(dests.drop_last().push(dests.last()) =~= dests);
    } else {
        assert(z.len() == 0);
        assert(flagged(dests, flags) =~= dests);
    }
}

/// The steps that applying links `links` takes, when `occupied[i]` tells
/// whether something is at the destination of link `i` (what `apply` gives).
pub open spec fn applied_steps(links: Seq<(Seq<char>, Seq<char>)>, occupied: Seq<bool>) -> Seq<LinkStepView> {
    Seq::new(links.len(), |i: int| link_step(links[i].0, links[i].1, occupied[i]))
}

/// After carrying out `steps`, `dest` is a symlink: some step makes one there.
pub open spec fn linked_after(steps: Seq<LinkStepView>, dest: Seq<char>) -> bool {
    exists|k: int| 0 <= k < steps.len() && (#[trigger] steps[k]).dest == dest
}

/// Law: removing undoes applying. When the removal of a plan's links probes
/// the file system that applying the plan left (a destination is a symlink
/// exactly when a step of the applied plan made one there), it deletes
/// every destination of the plan, in order.
pub proof fn lemma_remove_undoes_apply(links: Seq<(Seq<char>, Seq<char>)>, occupied: Seq<bool>, is_symlink: Seq<bool>)
    requires
        occupied.len() == links.len(),
        is_symlink.len() == links.len(),
        forall|i: int| 0 <= i < links.len() ==> #[trigger] is_symlink[i] == linked_after(
            applied_steps(links, occupied),
            links[i].1,
        ),
    ensures
        flagged(link_dests(links), is_symlink) == link_dests(links),
{
    let steps = applied_steps(links, occupied);
    assert forall|i: int| 0 <= i < is_symlink.len() implies #[trigger] is_symlink[i] by {
        assert(steps[i].dest == links[i].1);
        assert(linked_after(steps, links[i].1));
    }
    lemma_remove_after_apply(link_dests(links), is_symlink);
}

/// The error message for a rice whose repository is not there.
pub open spec fn not_cloned_message(id: Seq<char>) -> Seq<char> {
    "rice '"@ + id + "' has not been cloned"@
}

/// One link of an applied plan: the directory to create first (if any),
/// whether something at the destination must be deleted first, and the
/// symlink to make, at `dest`, pointing to `src`.
pub struct LinkStep {
    pub parent: Option<String>,
    pub clear: bool,
    pub src: String,
    pub dest: String,
}

/// The value of a `LinkStep`.
pub struct LinkStepView {
    pub parent: Option<Seq<char>>,
    pub clear: bool,
    pub src: Seq<char>,
    pub dest: Seq<char>,
}

impl View for LinkStep {
    type V = LinkStepView;

    open spec fn view(&self) -> LinkStepView {
        LinkStepView { parent: self.parent.deep_view(), clear: self.clear, src: self.src@, dest: self.dest@ }
    }
}

/// The step that links `dest` to `src`, deleting what is at `dest` first
/// when `occupied`.
pub open spec fn link_step(src: Seq<char>, dest: Seq<char>, occupied: bool) -> LinkStepView {
    LinkStepView { parent: parent_dir(dest), clear: occupied, src, dest }
}

/// Deploying rices.
pub struct DeployManager;

impl DeployManager {
    /// Where the repository of `rice` is cloned, given the rices directory:
    /// its id under it.
    pub fn rice_dir_in(rices_dir: &str, rice: &Rice) -> (r: String)
        ensures
            r@ == path_join(rices_dir@, rice.id@),
    {
        join(rices_dir, rice.id.as_str())
    }

    /// Where the repository of `rice` is cloned: its id under the rices directory.
    pub fn rice_dir(rice: &Rice) -> (r: String)
        ensures
            exists|base: Option<Seq<char>>|
                r@ == path_join(path_join(crate::config::app_dir_under(base), "rices"@), rice.id@),
    {
        let root = Paths::rices_dir();
        Self::rice_dir_in(root.as_str(), rice)
    }

    /// The home directory to deploy `rice` into: an error when its
    /// repository has not been cloned (`cloned` is false) or when there is
    /// no home directory.
    pub fn prepare(rice: &Rice, cloned: bool) -> (r: Result<String, RiceForgeError>)
        ensures
            !cloned ==> (r matches Err(RiceForgeError::Deploy(m)) && m@ == not_cloned_message(rice.id@)),
            cloned ==> (r is Err ==> (r matches Err(RiceForgeError::Deploy(m)) && m@ == "home directory not found"@)),
    {
        if !cloned {
            let m = String::from_str("rice '").concat(rice.id.as_str()).concat("' has not been cloned");
            return Err(RiceForgeError::Deploy(m));
        }
        match user_home_dir() {
            Some(h) => Ok(h),
            None => Err(RiceForgeError::Deploy(String::from_str("home directory not found"))),
        }
    }

    /// Where in `home` the entry at `path` below `rice_dir` is linked.
    pub fn destination(rice_dir: &str, home: &str, path: &str) -> (r: Option<String>)
        ensures
            match strip_dir_prefix(path@, rice_dir@) {
                Some(rel) => r matches Some(d) && d@ == path_join(home@, rel),
                None => r is None,
            },
    {
        match strip_prefix(path, rice_dir) {
            Some(rel) => Some(join(home, rel.as_str())),
            None => None,
        }
    }

    /// The deploy plan for the entries found below `rice_dir` (in walk
    /// order), deployed into `home`; `Deploy("path strip failed")` when an
    /// entry lies outside `rice_dir`.
    pub fn plan(rice_dir: &str, home: &str, entries: &Vec<DeployEntry>) -> (r: Result<DeployPlan, RiceForgeError>)
        ensures
            ({
                let steps = deploy_steps(entry_views(entries@), rice_dir@, home@);
                match r {
                    Ok(p) => !steps.failed && p.links.deep_view() == steps.links && p.to_backup.deep_view() == steps.to_backup,
                    Err(e) => steps.failed && (e matches RiceForgeError::Deploy(m) && m@ == "path strip failed"@),
                }
            }),
    {
        let ghost ev = entry_views(entries@);
        let mut links: Vec<(String, String)> = Vec::new();
        let mut to_backup: Vec<String> = Vec::new();
        let mut i: usize = 0;
        while i < entries.len()
            invariant
                ev == entry_views(entries@),
                i <= ev.len(),
                !deploy_steps(ev.take(i as int), rice_dir@, home@).failed,
                links.deep_view() == deploy_steps(ev.take(i as int), rice_dir@, home@).links,
                to_backup.deep_view() == deploy_steps(ev.take(i as int), rice_dir@, home@).to_backup,
            decreases ev.len() - i,
        {
            let e = &entries[i];
            proof {
                assert(ev.take(i + 1).drop_last() =~= ev.take(i as int));
                assert(ev.take(i + 1).last() == e@);
            }
            match strip_prefix(e.path.as_str(), rice_dir) {
                None => {
                    proof {
                        lemma_deploy_steps_stop(ev, rice_dir@, home@, i as int + 1);
                    }
                    return Err(RiceForgeError::Deploy(String::from_str("path strip failed")));
                },
                Some(rel) => {
                    let first = first_component_of(rel.as_str());
                    if !is_excluded_at_root(first.as_str()) && !e.is_dir {
                        let dest = join(home, rel.as_str());
                        let ghost l0 = links.deep_view();
                        let ghost b0 = to_backup.deep_view();
                        if e.dest_exists && !e.dest_is_symlink {
                            to_backup.push(dest.clone());
                            assert(to_backup.deep_view() =~= b0.push(dest@));
                        }
                        links.push((e.path.clone(), dest));
                        assert(links.deep_view() =~= l0.push((e.path@, path_join(home@, rel@))));
                    }
                },
            }
            i = i + 1;
        }
        assert(ev.take(i as int) =~= ev);
        Ok(DeployPlan { links, to_backup })
    }

    /// What applying `plan` does, link by link and in order: create the
    /// destination's parent directory (when it has one), delete whatever is
    /// at the destination (when `occupied[i]` says something is, a symlink
    /// included), and make the destination a symlink to the source.
    /// Symlinks exist on Unix only: elsewhere (`on_unix` false) the answer
    /// is `UnsupportedPlatform`.
    pub fn apply(plan: &DeployPlan, on_unix: bool, occupied: &Vec<bool>) -> (r: Result<Vec<LinkStep>, RiceForgeError>)
        requires
            occupied@.len() == plan.links@.len(),
        ensures
            !on_unix ==> r matches Err(RiceForgeError::UnsupportedPlatform),
            on_unix ==> (r matches Ok(steps) && steps@.len() == plan.links@.len() && forall|i: int|
                0 <= i < steps@.len() ==> #[trigger] steps@[i]@ == link_step(plan.links@[i].0@, plan.links@[i].1@, occupied@[i])),
    {
        if !on_unix {
            return Err(RiceForgeError::UnsupportedPlatform);
        }
        let mut steps: Vec<LinkStep> = Vec::new();
        let mut i: usize = 0;
        while i < plan.links.len()
            invariant
                occupied@.len() == plan.links@.len(),
                i <= plan.links@.len(),
                steps@.len() == i,
                forall|k: int| 0 <= k < i ==> #[trigger] steps@[k]@ == link_step(plan.links@[k].0@, plan.links@[k].1@, occupied@[k]),
            decreases plan.links@.len() - i,
        {
            let (src, dest) = &plan.links[i];
            let step = LinkStep {
                parent: parent_of(dest.as_str()),
                clear: occupied[i],
                src: src.clone(),
                dest: dest.clone(),
            };
            steps.push(step);
            i = i + 1;
        }
        Ok(steps)
    }

    /// The error when the symlink from `dest` to `src` could not be made.
    pub fn link_error(src: &str, dest: &str, detail: &str) -> (r: RiceForgeError)
        ensures
            r matches RiceForgeError::Deploy(m) && m@ == "symlink "@ + src@ + " -> "@ + dest@ + ": "@ + detail@,
    {
        RiceForgeError::Deploy(
            String::from_str("symlink ").concat(src).concat(" -> ").concat(dest).concat(": ").concat(detail),
        )
    }

    /// The destinations to delete when removing a deployed rice: those of
    /// the plan's links that are symlinks (`is_symlink[i]` for link `i`).
    pub fn remove(plan: &DeployPlan, is_symlink: &Vec<bool>) -> (r: Vec<String>)
        requires
            is_symlink@.len() == plan.links@.len(),
        ensures
            r.deep_view() == flagged(plan.links.deep_view().map_values(|l: (Seq<char>, Seq<char>)| l.1), is_symlink@),
    {
        let ghost pairs = plan.links.deep_view().map_values(|l: (Seq<char>, Seq<char>)| l.1).zip_with(
            is_symlink@,
        );
        let ghost pred = |x: (Seq<char>, bool)| x.1;
        let mut r: Vec<String> = Vec::new();
        let mut i: usize = 0;
        while i < plan.links.len()
            invariant
                is_symlink@.len() == plan.links@.len(),
                pairs == plan.links.deep_view().map_values(|l: (Seq<char>, Seq<char>)| l.1).zip_with(is_symlink@),
                pred == |x: (Seq<char>, bool)| x.1,
                i <= plan.links@.len(),
                r.deep_view() == pairs.take(i as int).filter(pred).map_values(|x: (Seq<char>, bool)| x.0),
            decreases plan.links@.len() - i,
        {
            proof {
                assert(pairs.take(i + 1) =~= pairs.take(i as int).push(pairs[i as int]));
                pairs.take(i as int).lemma_filter_push(pairs[i as int], pred);
                assert(pairs[i as int] == (plan.links@[i as int].1@, is_symlink@[i as int]));
            }
            if is_symlink[i] {
                let ghost r0 = r.deep_view();
                r.push(plan.links[i].1.clone());
                assert(r.deep_view() =~= r0.push(pairs[i as int].0));
                assert(pairs.take(i as int).filter(pred).push(pairs[i as int]).map_values(|x: (Seq<char>, bool)| x.0)
                    =~= pairs.take(i as int).filter(pred).map_values(|x: (Seq<char>, bool)| x.0).push(pairs[i as int].0));
            }
            i = i + 1;
        }
        assert(pairs.len() == plan.links@.len());
        assert(pairs.take(i as int) =~= pairs);
        r
    }
}

} // verus!
