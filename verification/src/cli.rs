//! The command-line front end's decisions: which rices a command acts on,
//! what it refuses, how it checks deployed symlinks.

use vstd::prelude::*;
use vstd::string::StringSliceAdditionalSpecFns;
use crate::error::RiceForgeError;
use crate::index::{first_with_id, rice_views, IndexManager};
use crate::installed::InstalledManager;
use crate::models::{DeployPlan, Index, InstalledRice, Rice, RiceView, WindowManager};
use crate::text::{contains, is_substring, lowercase, to_lowercase, to_owned_string};

verus! {

/// The command line.
pub struct Cli;

/// Why `upgrade` passes over a rice.
#[derive(Clone, Copy, Debug, PartialEq, Eq, Structural)]
pub enum UpgradeSkip {
    NotInIndex,
    NotInstalled,
}

/// What `check` knows of one deployed link's destination: whether it is a
/// symlink, and where it points when it could be read.
pub struct LinkProbe {
    pub is_symlink: bool,
    pub target: Option<String>,
}

/// A destination is healthy only when it is a symlink that reads back to
/// its source; anything else (a missing file, a regular file, a symlink that
/// cannot be read or points elsewhere) is broken.
pub open spec fn link_broken(src: Seq<char>, is_symlink: bool, target: Option<Seq<char>>) -> bool {
    !(is_symlink && target == Some(src))
}

/// `search` without a query keeps a rice for the window-manager filter (if
/// any) and when the lower-cased theme contains the theme filter as given.
pub open spec fn plain_filter_keeps(r: RiceView, wm: Option<WindowManager>, theme: Option<Seq<char>>) -> bool {
    &&& (wm matches Some(w) ==> r.wm == w)
    &&& (theme matches Some(t) ==> is_substring(t, lowercase(r.theme)))
}

/// The window-manager filter a name gives (any name parses).
pub open spec fn wm_arg(wm: Option<&str>) -> Option<WindowManager> {
    match wm {
        Some(w) => Some(crate::models::wm_from_lower(lowercase(w@))),
        None => None,
    }
}

/// The theme filter as given.
pub open spec fn theme_arg(theme: Option<&str>) -> Option<Seq<char>> {
    match theme {
        Some(t) => Some(t@),
        None => None,
    }
}

impl Cli {
    /// A commit hash as `list`, `install` and `upgrade` print it: its first
    /// 8 bytes when those end on a character boundary, the whole hash
    /// otherwise (a hash shorter than 8 bytes prints whole), as the rice
    /// page and `info` show it.
    pub fn commit_prefix(commit: &str) -> (r: String)
        ensures
            vstd::utf8::is_char_boundary(commit.spec_bytes(), 8) ==> vstd::utf8::encode_utf8(r@)
                == commit.spec_bytes().subrange(0, 8),
            !vstd::utf8::is_char_boundary(commit.spec_bytes(), 8) ==> r@ == commit@,
    {
        crate::ui::short_hash(commit)
    }

    /// The rice with id `id`, or `NotFound(id)`.
    pub fn require_rice(index: &Index, id: &str) -> (r: Result<Rice, RiceForgeError>)
        ensures
            match first_with_id(rice_views(index.rices@), id@) {
                Some(i) => r matches Ok(rice) && rice@ == index.rices@[i]@,
                None => r matches Err(RiceForgeError::NotFound(m)) && m@ == id@,
            },
    {
        match IndexManager::find(index, id) {
            Some(r) => Ok(r),
            None => Err(RiceForgeError::NotFound(to_owned_string(id))),
        }
    }

    /// Whether `install` goes ahead: it refuses an installed rice with
    /// `AlreadyInstalled(id)` unless it is a dry run or forced.
    pub fn install_gate(id: &str, dry_run: bool, force: bool, installed: bool) -> (r: Result<(), RiceForgeError>)
        ensures
            (!dry_run && !force && installed) ==> (r matches Err(RiceForgeError::AlreadyInstalled(m)) && m@ == id@),
            !(!dry_run && !force && installed) ==> r is Ok,
    {
        if !dry_run && !force && installed {
            Err(RiceForgeError::AlreadyInstalled(to_owned_string(id)))
        } else {
            Ok(())
        }
    }

    /// The rices `upgrade` acts on: every installed rice with `--all`,
    /// otherwise the one named; `None` (an error) when neither is given.
    pub fn upgrade_targets(all: bool, id: Option<&str>, installed: &InstalledManager) -> (r: Option<Vec<String>>)
        ensures
            all ==> (r matches Some(ids) && ids.deep_view() == installed@.map_values(|e: crate::models::InstalledRiceView| e.rice_id)),
            !all && id is Some ==> (r matches Some(ids) && ids.deep_view() == seq![id.unwrap()@]),
            !all && id is None ==> r is None,
    {
        if all {
            let entries = installed.list();
            let mut ids: Vec<String> = Vec::new();
            let mut i: usize = 0;
            while i < entries.len()
                invariant
                    entries@.map_values(|e: InstalledRice| e@) == installed@,
                    i <= entries@.len(),
                    ids@.len() == i,
                    forall|k: int| 0 <= k < i ==> ids@[k]@ == entries@[k].rice_id@,
                decreases entries@.len() - i,
            {
                ids.push(entries[i].rice_id.clone());
                i = i + 1;
            }
            assert(ids.deep_view() =~= installed@.map_values(|e: crate::models::InstalledRiceView| e.rice_id));
            Some(ids)
        } else {
            match id {
                Some(s) => {
                    let mut ids: Vec<String> = Vec::new();
                    ids.push(to_owned_string(s));
                    assert(ids.deep_view() =~= seq![s@]);
                    Some(ids)
                },
                None => None,
            }
        }
    }

    /// The rices `search` lists when no query is given: those passing the
    /// window-manager filter (any name parses, unknown names to `Unknown`)
    /// and the theme filter, in index order.
    pub fn search_without_query<'a>(index: &'a Index, wm: Option<&str>, theme: Option<&str>) -> (r: Vec<&'a Rice>)
        ensures
            r@.map_values(|x: &Rice| x@) == rice_views(index.rices@).filter(
                |x: RiceView| plain_filter_keeps(x, wm_arg(wm), theme_arg(theme)),
            ),
    {
        let wm_filter: Option<WindowManager> = match wm {
            Some(w) => match WindowManager::from_str(w) {
                Ok(f) => Some(f),
                Err(_) => None,
            },
            None => None,
        };
        let ghost theme_v: Option<Seq<char>> = theme_arg(theme);
        assert(wm_filter == wm_arg(wm));
        let ghost views = rice_views(index.rices@);
        let ghost pred = |x: RiceView| plain_filter_keeps(x, wm_filter, theme_v);
        let mut res: Vec<&'a Rice> = Vec::new();
        let mut i: usize = 0;
        while i < index.rices.len()
            invariant
                views == rice_views(index.rices@),
                i <= views.len(),
                theme_v == theme_arg(theme),
                wm_filter == wm_arg(wm),
                pred == |x: RiceView| plain_filter_keeps(x, wm_filter, theme_v),
                res@.map_values(|x: &Rice| x@) == views.take(i as int).filter(pred),
            decreases views.len() - i,
        {
            let r = &index.rices[i];
            let wm_ok = match wm_filter {
                Some(f) => r.wm == f,
                None => true,
            };
            let theme_ok = match theme {
                Some(t) => contains(to_lowercase(r.theme.as_str()).as_str(), t),
                None => true,
            };
            proof {
                assert(views.take(i + 1) =~= views.take(i as int).push(views[i as int]));
                views.take(i as int).lemma_filter_push(views[i as int], pred);
            }
            if wm_ok && theme_ok {
                let ghost r0 = res@.map_values(|x: &Rice| x@);
                res.push(r);
                assert(res@.map_values(|x: &Rice| x@) =~= r0.push(views[i as int]));
            }
            i = i + 1;
        }
        assert(views.take(i as int) =~= views);
        res
    }

    /// Whether `upgrade` passes over a rice: one missing from the index
    /// first, then one that is not installed.
    pub fn upgrade_skip(in_index: bool, installed: bool) -> (r: Option<UpgradeSkip>)
        ensures
            !in_index ==> r == Some(UpgradeSkip::NotInIndex),
            in_index && !installed ==> r == Some(UpgradeSkip::NotInstalled),
            in_index && installed ==> r is None,
    {
        if !in_index {
            Some(UpgradeSkip::NotInIndex)
        } else if !installed {
            Some(UpgradeSkip::NotInstalled)
        } else {
            None
        }
    }

    /// Whether a deployed link is broken.
    pub fn link_is_broken(src: &str, probe: &LinkProbe) -> (r: bool)
        ensures
            r == link_broken(src@, probe.is_symlink, probe.target.deep_view()),
    {
        if probe.is_symlink {
            match &probe.target {
                Some(t) => !crate::text::same_text(t.as_str(), src),
                None => true,
            }
        } else {
            true
        }
    }

    /// The broken destinations of a rice's plan, in order (`probes[i]` for
    /// link `i`).
    pub fn broken_links(plan: &DeployPlan, probes: &Vec<LinkProbe>) -> (r: Vec<String>)
        requires
            probes@.len() == plan.links@.len(),
        ensures
            r.deep_view() == plan.links.deep_view().zip_with(probe_views(probes@)).filter(
                |x: ((Seq<char>, Seq<char>), LinkProbeView)| probe_broken(x),
            ).map_values(|x: ((Seq<char>, Seq<char>), LinkProbeView)| x.0.1),
    {
        let ghost pairs = plan.links.deep_view().zip_with(probe_views(probes@));
        let ghost pred = |x: ((Seq<char>, Seq<char>), LinkProbeView)| probe_broken(x);
        let ghost dest = |x: ((Seq<char>, Seq<char>), LinkProbeView)| x.0.1;
        let mut r: Vec<String> = Vec::new();
        let mut i: usize = 0;
        while i < plan.links.len()
            invariant
                probes@.len() == plan.links@.len(),
                pairs == plan.links.deep_view().zip_with(probe_views(probes@)),
                pred == |x: ((Seq<char>, Seq<char>), LinkProbeView)| probe_broken(x),
                dest == |x: ((Seq<char>, Seq<char>), LinkProbeView)| x.0.1,
                i <= plan.links@.len(),
                r.deep_view() == pairs.take(i as int).filter(pred).map_values(dest),
            decreases plan.links@.len() - i,
        {
            let broken = Self::link_is_broken(plan.links[i].0.as_str(), &probes[i]);
            proof {
                assert(pairs.take(i + 1) =~= pairs.take(i as int).push(pairs[i as int]));
                pairs.take(i as int).lemma_filter_push(pairs[i as int], pred);
                assert(pairs[i as int] == (plan.links.deep_view()[i as int], probes@[i as int]@));
            }
            if broken {
                let ghost r0 = r.deep_view();
                r.push(plan.links[i].1.clone());
                assert(r.deep_view() =~= r0.push(dest(pairs[i as int])));
                assert(pairs.take(i as int).filter(pred).push(pairs[i as int]).map_values(dest)
                    =~= pairs.take(i as int).filter(pred).map_values(dest).push(dest(pairs[i as int])));
            }
            i = i + 1;
        }
        assert(pairs.len() == plan.links@.len());
        assert(pairs.take(i as int) =~= pairs);
        r
    }
}

/// The value of a `LinkProbe`.
pub struct LinkProbeView {
    pub is_symlink: bool,
    pub target: Option<Seq<char>>,
}

impl View for LinkProbe {
    type V = LinkProbeView;

    open spec fn view(&self) -> LinkProbeView {
        LinkProbeView { is_symlink: self.is_symlink, target: self.target.deep_view() }
    }
}

/// The views of a list of probes.
pub open spec fn probe_views(s: Seq<LinkProbe>) -> Seq<LinkProbeView> {
    s.map_values(|p: LinkProbe| p@)
}

/// A link paired with its probe is broken.
pub open spec fn probe_broken(x: ((Seq<char>, Seq<char>), LinkProbeView)) -> bool {
    link_broken(x.0.0, x.1.is_symlink, x.1.target)
}

/// Law: right after a plan is applied every destination is a symlink to
/// its own source, and then `check` finds no broken link.
pub proof fn lemma_applied_links_not_broken(links: Seq<(Seq<char>, Seq<char>)>, probes: Seq<LinkProbeView>)
    requires
        probes.len() == links.len(),
        forall|i: int| 0 <= i < links.len() ==> (#[trigger] probes[i]).is_symlink && probes[i].target == Some(links[i].0),
    ensures
        links.zip_with(probes).filter(|x: ((Seq<char>, Seq<char>), LinkProbeView)| probe_broken(x)).len() == 0,
    decreases links.len(),
{
    let pred = |x: ((Seq<char>, Seq<char>), LinkProbeView)| probe_broken(x);
    let z = links.zip_with(probes);
    if links.len() > 0 {
        lemma_applied_links_not_broken(links.drop_last(), probes.drop_last());
        assert(z.drop_last() =~= links.drop_last().zip_with(probes.drop_last()));
        assert(z.last() == (links.last(), probes.last()));
        assert(probes[probes.len() - 1].is_symlink);
        assert(!pred(z.last()));
        z.drop_last().lemma_filter_push(z.last(), pred);
        assert(z =~= z.drop_last().push(z.last()));
    } else {
        reveal(Seq::filter);
        assert(z.len() == 0);
    }
}

/// Law: `check` reports the link `i` of a plan as broken exactly when its
/// destination is not a symlink that reads back to the link's source.
pub proof fn lemma_broken_exactly(links: Seq<(Seq<char>, Seq<char>)>, probes: Seq<LinkProbeView>, i: int)
    requires
        probes.len() == links.len(),
        0 <= i < links.len(),
    ensures
        links.zip_with(probes).filter(|x: ((Seq<char>, Seq<char>), LinkProbeView)| probe_broken(x)).contains(
            (links[i], probes[i]),
        ) <==> !(probes[i].is_symlink && probes[i].target == Some(links[i].0)),
{
    let z = links.zip_with(probes);
    let pred = |x: ((Seq<char>, Seq<char>), LinkProbeView)| probe_broken(x);
    assert(z[i] == (links[i], probes[i]));
    if pred(z[i]) {
        z.lemma_filter_contains(pred, i);
    }
    if z.filter(pred).contains((links[i], probes[i])) {
        broadcast use vstd::seq_lib::group_filter_ensures;
        let k = choose|k: int| 0 <= k < z.filter(pred).len() && z.filter(pred)[k] == (links[i], probes[i]);
        assert(pred(z.filter(pred)[k]));
    }
}

} // verus!
