//! Backups of configuration files taken before a rice is deployed.

use vstd::prelude::*;
use vstd::string::StringExecFns;
use crate::clock::{clock_error, clock_error_message, format_utc, utc_now, utc_text};
use crate::config::{user_home_dir, Paths};
use crate::error::RiceForgeError;
use crate::models::{BackupEntry, BackupEntryView, Timestamp, ts_le};
use crate::paths::{is_absolute, join, lemma_join_strip, lemma_strip_join, path_join, strip_dir_prefix, strip_prefix};
use crate::text::{same_text, to_owned_string};

verus! {

/// Backups: listing, pruning, and the decisions of taking and restoring one.
/// Copying files and reading or writing `meta.json` is the caller's work.
pub struct BackupManager;

/// The views of a list of backups.
pub open spec fn backup_views(s: Seq<BackupEntry>) -> Seq<BackupEntryView> {
    s.map_values(|e: BackupEntry| e@)
}

/// Newest first: no entry is older than one after it.
pub open spec fn newest_first(s: Seq<BackupEntryView>) -> bool {
    forall|i: int, j: int| 0 <= i < j < s.len() ==> ts_le(s[j].created_at, s[i].created_at)
}

/// The entries of `s` created at `t`, in order.
pub open spec fn created_at(s: Seq<BackupEntryView>, t: Timestamp) -> Seq<BackupEntryView> {
    s.filter(|e: BackupEntryView| e.created_at == t)
}

/// `r` is `s` stably sorted newest first: sorted, and for every instant the
/// entries created then appear in `r` in the same order as in `s`.
pub open spec fn is_sorted_newest_first(r: Seq<BackupEntryView>, s: Seq<BackupEntryView>) -> bool {
    &&& r.len() == s.len()
    &&& newest_first(r)
    &&& forall|t: Timestamp| #[trigger] created_at(r, t) == created_at(s, t)
}

proof fn lemma_filter_split(a: Seq<BackupEntryView>, x: BackupEntryView, b: Seq<BackupEntryView>, t: Timestamp)
    ensures
        created_at(a + seq![x] + b, t) == created_at(a, t) + created_at(seq![x], t) + created_at(b, t),
{
    let p = |e: BackupEntryView| e.created_at == t;
    Seq::filter_distributes_over_add(a + seq![x], b, p);
    Seq::filter_distributes_over_add(a, seq![x], p);
}

proof fn lemma_filter_none(s: Seq<BackupEntryView>, t: Timestamp)
    requires
        forall|i: int| 0 <= i < s.len() ==> s[i].created_at != t,
    ensures
        created_at(s, t) == Seq::<BackupEntryView>::empty(),
    decreases s.len(),
{
    reveal(Seq::filter);
    if s.len() > 0 {
        lemma_filter_none(s.drop_last(), t);
    }
}

proof fn lemma_filter_single(x: BackupEntryView, t: Timestamp)
    ensures
        created_at(seq![x], t) == (if x.created_at == t { seq![x] } else { Seq::<BackupEntryView>::empty() }),
{
    reveal_with_fuel(Seq::filter, 2);
    assert(seq![x].drop_last() =~= Seq::<BackupEntryView>::empty());
}

/// Inserting `x` after every entry not older than it keeps a stable sort.
proof fn lemma_insert_sorted(
    r: Seq<BackupEntryView>,
    s: Seq<BackupEntryView>,
    x: BackupEntryView,
    p: int,
)
    requires
        is_sorted_newest_first(r, s),
        0 <= p <= r.len(),
        forall|k: int| 0 <= k < p ==> ts_le(x.created_at, r[k].created_at),
        p < r.len() ==> !ts_le(x.created_at, r[p].created_at),
    ensures
        is_sorted_newest_first(r.insert(p, x), s.push(x)),
{
    let n = r.insert(p, x);
    assert(n =~= r.take(p) + seq![x] + r.skip(p));
    assert forall|i: int, j: int| 0 <= i < j < n.len() implies ts_le(n[j].created_at, n[i].created_at) by {
        if j < p {
            assert(n[i] == r[i] && n[j] == r[j]);
        } else if j == p {
            assert(n[i] == r[i]);
        } else if i < p {
            assert(n[i] == r[i] && n[j] == r[j - 1]);
        } else if i == p {
            assert(n[j] == r[j - 1]);
            assert(!ts_le(x.created_at, r[p].created_at));
            assert(ts_le(r[j - 1].created_at, r[p].created_at));
        } else {
            assert(n[i] == r[i - 1] && n[j] == r[j - 1]);
        }
    }
    assert forall|t: Timestamp| #[trigger] created_at(n, t) == created_at(s.push(x), t) by {
        let q = |e: BackupEntryView| e.created_at == t;
        lemma_filter_split(r.take(p), x, r.skip(p), t);
        lemma_filter_single(x, t);
        s.lemma_filter_push(x, q);
        Seq::filter_distributes_over_add(r.take(p), r.skip(p), q);
        assert(r =~= r.take(p) + r.skip(p));
        assert(created_at(r, t) == created_at(s, t));
        if x.created_at == t {
            assert forall|k: int| 0 <= k < r.skip(p).len() implies r.skip(p)[k].created_at != t by {
                assert(r.skip(p)[k] == r[p + k]);
                assert(ts_le(r[p + k].created_at, r[p].created_at));
            }
            lemma_filter_none(r.skip(p), t);
            assert(created_at(n, t) =~= created_at(r.take(p), t) + seq![x]);
            assert(created_at(r, t) =~= created_at(r.take(p), t));
        } else {
            assert(created_at(n, t) =~= created_at(r.take(p), t) + created_at(r.skip(p), t));
        }
    }
}

/// How many of `n` backups are kept when keeping `keep`: all of them when
/// there are no more than `keep`.
pub open spec fn kept(keep: int, n: int) -> int {
    if keep < n {
        keep
    } else {
        n
    }
}

impl BackupManager {
    /// The backups ordered newest first; backups created at the same instant
    /// keep their relative order.
    pub fn list(entries: Vec<BackupEntry>) -> (r: Vec<BackupEntry>)
        ensures
            is_sorted_newest_first(backup_views(r@), backup_views(entries@)),
    {
        let ghost s = backup_views(entries@);
        let mut r: Vec<BackupEntry> = Vec::new();
        assert(s.take(0) =~= backup_views(r@));
        let mut i: usize = 0;
        while i < entries.len()
            invariant
                s == backup_views(entries@),
                i <= s.len(),
                is_sorted_newest_first(backup_views(r@), s.take(i as int)),
            decreases s.len() - i,
        {
            let x = entries[i].duplicate();
            let mut p: usize = 0;
            while p < r.len()
                invariant
                    p <= r@.len(),
                    forall|k: int| 0 <= k < p ==> ts_le(x.created_at, r@[k].created_at),
                ensures
                    p <= r@.len(),
                    forall|k: int| 0 <= k < p ==> ts_le(x.created_at, r@[k].created_at),
                    p < r@.len() ==> !ts_le(x.created_at, r@[p as int].created_at),
                decreases r@.len() - p,
            {
                if r[p].created_at.is_before(&x.created_at) {
                    break;
                }
                p = p + 1;
            }
            let ghost rv = backup_views(r@);
            proof {
                lemma_insert_sorted(rv, s.take(i as int), x@, p as int);
                assert(s.take(i + 1) =~= s.take(i as int).push(x@));
            }
            r.insert(p, x);
            assert(backup_views(r@) =~= rv.insert(p as int, x@));
            i = i + 1;
        }
        assert(s.take(s.len() as int) =~= s);
        r
    }

    /// Prunes backups, keeping the `keep` newest: the ids of the others,
    /// newest first (the directories to delete); nothing when there are no
    /// more than `keep` backups.
    pub fn clean(entries: Vec<BackupEntry>, keep: usize) -> (r: Vec<String>)
        ensures
            exists|sorted: Seq<BackupEntryView>|
                #![trigger is_sorted_newest_first(sorted, backup_views(entries@))]
                is_sorted_newest_first(sorted, backup_views(entries@)) && r.deep_view() == sorted.skip(
                    kept(keep as int, entries@.len() as int),
                ).map_values(|e: BackupEntryView| e.id),
            r@.len() == entries@.len() - kept(keep as int, entries@.len() as int),
    {
        let sorted = Self::list(entries);
        let start = if keep < sorted.len() { keep } else { sorted.len() };
        let mut removed: Vec<String> = Vec::new();
        let mut i = start;
        while i < sorted.len()
            invariant
                start <= i <= sorted@.len(),
                removed@.len() == i - start,
                forall|k: int| 0 <= k < removed@.len() ==> removed@[k]@ == sorted@[start + k].id@,
            decreases sorted@.len() - i,
        {
            removed.push(sorted[i].id.clone());
            i = i + 1;
        }
        assert(removed.deep_view() =~= backup_views(sorted@).skip(start as int).map_values(
            |e: BackupEntryView| e.id,
        ));
        removed
    }

    /// The id of a backup taken at `now` (`%Y%m%d_%H%M%S`, UTC) and its
    /// directory under `backups_dir`; an error when `now` cannot be rendered.
    pub fn begin_at(now: Timestamp, backups_dir: &str) -> (r: Result<(String, String), RiceForgeError>)
        ensures
            match utc_text(now.secs, now.nanos, "%Y%m%d_%H%M%S"@) {
                Some(t) => r matches Ok((id, dir)) && id@ == t && dir@ == path_join(backups_dir@, t),
                None => r matches Err(RiceForgeError::Backup(m)) && m@ == "clock reading out of range"@,
            },
    {
        match format_utc(now, "%Y%m%d_%H%M%S") {
            Some(id) => {
                let dir = join(backups_dir, id.as_str());
                Ok((id, dir))
            },
            None => Err(RiceForgeError::Backup(String::from_str("clock reading out of range"))),
        }
    }

    /// A fresh backup id from the clock (`%Y%m%d_%H%M%S`, UTC) and the
    /// directory under the backups directory that will hold the backup.
    pub fn begin() -> (r: Result<(String, String), RiceForgeError>)
        ensures
            match r {
                Ok((id, dir)) => exists|t: Timestamp, base: Option<Seq<char>>|
                    utc_text(t.secs, t.nanos, "%Y%m%d_%H%M%S"@) == Some(id@) && dir@ == path_join(
                        path_join(crate::config::app_dir_under(base), "backups"@),
                        id@,
                    ),
                Err(e) => {
                    ||| (e matches RiceForgeError::Io(m) && m@ == clock_error_message())
                    ||| (exists|t: Timestamp| utc_text(t.secs, t.nanos, "%Y%m%d_%H%M%S"@) is None)
                        && (e matches RiceForgeError::Backup(m) && m@ == "clock reading out of range"@)
                },
            },
    {
        match utc_now() {
            None => Err(clock_error()),
            Some(now) => {
                let root = Paths::backups_dir();
                Self::begin_at(now, root.as_str())
            },
        }
    }
}

/// What is known of a file to back up.
pub struct FileProbe {
    pub path: String,
    pub is_symlink: bool,
    pub exists: bool,
}

/// The value of a `FileProbe`.
pub struct FileProbeView {
    pub path: Seq<char>,
    pub is_symlink: bool,
    pub exists: bool,
}

impl View for FileProbe {
    type V = FileProbeView;

    open spec fn view(&self) -> FileProbeView {
        FileProbeView { path: self.path@, is_symlink: self.is_symlink, exists: self.exists }
    }
}

/// The views of a list of probes.
pub open spec fn probe_views(files: Seq<FileProbe>) -> Seq<FileProbeView> {
    files.map_values(|f: FileProbe| f@)
}

/// The copies a backup makes, in order, and the relative paths recorded; the
/// path of the file that stopped it, if one lay outside the configuration
/// directory.
pub struct CopySteps {
    pub copies: Seq<(Seq<char>, Seq<char>)>,
    pub recorded: Seq<Seq<char>>,
    pub outside: Option<Seq<char>>,
}

/// The steps of backing up `files` from `config_base` into `backup_dir`:
/// symlinks and missing files are skipped; every other file is copied to
/// the same relative place under `backup_dir`; the first file not under
/// `config_base` stops the backup.
pub open spec fn copy_steps(files: Seq<FileProbeView>, config_base: Seq<char>, backup_dir: Seq<char>) -> CopySteps
    decreases files.len(),
{
    if files.len() == 0 {
        CopySteps { copies: Seq::empty(), recorded: Seq::empty(), outside: None }
    } else {
        let prev = copy_steps(files.drop_last(), config_base, backup_dir);
        let f = files.last();
        if prev.outside is Some || f.is_symlink || !f.exists {
            prev
        } else {
            match strip_dir_prefix(f.path, config_base) {
                None => CopySteps { outside: Some(f.path), ..prev },
                Some(rel) => CopySteps {
                    copies: prev.copies.push((f.path, path_join(backup_dir, rel))),
                    recorded: prev.recorded.push(rel),
                    outside: None,
                },
            }
        }
    }
}

/// The copies to make for a backup and the relative paths to record; the
/// error that stops it, if any, comes after the copies.
pub struct BackupPlan {
    pub copies: Vec<(String, String)>,
    pub recorded: Vec<String>,
    pub failure: Option<RiceForgeError>,
}

/// `p` carries out `steps`.
pub open spec fn plan_matches(p: BackupPlan, steps: CopySteps) -> bool {
    &&& p.copies.deep_view() == steps.copies
    &&& p.recorded.deep_view() == steps.recorded
    &&& match steps.outside {
        None => p.failure is None,
        Some(path) => p.failure matches Some(RiceForgeError::Backup(m)) && m@ == "file is outside ~/.config: "@ + path,
    }
}

impl BackupManager {
    /// The steps of backing up `files` from `config_base` into `backup_dir`.
    pub fn plan_copies(config_base: &str, backup_dir: &str, files: &Vec<FileProbe>) -> (r: BackupPlan)
        ensures
            plan_matches(r, copy_steps(probe_views(files@), config_base@, backup_dir@)),
    {
        let ghost fv = probe_views(files@);
        let mut copies: Vec<(String, String)> = Vec::new();
        let mut recorded: Vec<String> = Vec::new();
        let mut i: usize = 0;
        while i < files.len()
            invariant
                fv == probe_views(files@),
                i <= fv.len(),
                copy_steps(fv.take(i as int), config_base@, backup_dir@).outside is None,
                copies.deep_view() == copy_steps(fv.take(i as int), config_base@, backup_dir@).copies,
                recorded.deep_view() == copy_steps(fv.take(i as int), config_base@, backup_dir@).recorded,
            decreases fv.len() - i,
        {
            let f = &files[i];
            proof {
                assert(fv.take(i + 1).drop_last() =~= fv.take(i as int));
                assert(fv.take(i + 1).last() == f@);
            }
            if !f.is_symlink && f.exists {
                match strip_prefix(f.path.as_str(), config_base) {
                    None => {
                        let msg = String::from_str("file is outside ~/.config: ").concat(f.path.as_str());
                        proof {
                            lemma_copy_steps_stop(fv, config_base@, backup_dir@, i as int + 1);
                        }
                        return BackupPlan { copies, recorded, failure: Some(RiceForgeError::Backup(msg)) };
                    },
                    Some(rel) => {
                        let dest = join(backup_dir, rel.as_str());
                        let ghost c0 = copies.deep_view();
                        let ghost r0 = recorded.deep_view();
                        copies.push((f.path.clone(), dest));
                        recorded.push(rel);
                        assert(copies.deep_view() =~= c0.push((f.path@, path_join(backup_dir@, recorded@[recorded@.len() - 1]@))));
                        assert(recorded.deep_view() =~= r0.push(recorded@[recorded@.len() - 1]@));
                    },
                }
            }
            i = i + 1;
        }
        assert(fv.take(i as int) =~= fv);
        BackupPlan { copies, recorded, failure: None }
    }
}

/// The error for a missing home directory.
pub open spec fn no_home(e: RiceForgeError) -> bool {
    e matches RiceForgeError::Backup(m) && m@ == "home directory not found"@
}

impl BackupManager {
    /// The steps of backing up `files` (taken from `~/.config`) into
    /// `backup_dir`; fails when there is no home directory.
    pub fn create(backup_dir: &str, files: &Vec<FileProbe>) -> (r: Result<BackupPlan, RiceForgeError>)
        ensures
            match r {
                Ok(p) => exists|home: Seq<char>|
                    plan_matches(
                        p,
                        #[trigger] copy_steps(probe_views(files@), path_join(home, ".config"@), backup_dir@),
                    ),
                Err(e) => no_home(e),
            },
    {
        match user_home_dir() {
            None => Err(RiceForgeError::Backup(String::from_str("home directory not found"))),
            Some(home) => {
                let base = join(home.as_str(), ".config");
                Ok(Self::plan_copies(base.as_str(), backup_dir, files))
            },
        }
    }

    /// The record of a backup finished at `created_at`.
    pub fn finish_at(id: String, rice_id: Option<&str>, recorded: Vec<String>, created_at: Timestamp) -> (r: BackupEntry)
        ensures
            r@ == (BackupEntryView {
                id: id@,
                rice_id: match rice_id {
                    Some(s) => Some(s@),
                    None => None::<Seq<char>>,
                },
                created_at,
                files: recorded.deep_view(),
            }),
    {
        let rice_id = match rice_id {
            Some(s) => Some(to_owned_string(s)),
            None => None,
        };
        BackupEntry { id, rice_id, created_at, files: recorded }
    }

    /// The record of a finished backup, stamped with the current time; an
    /// error when the clock reads before the Unix epoch.
    pub fn finish(id: String, rice_id: Option<&str>, recorded: Vec<String>) -> (r: Result<BackupEntry, RiceForgeError>)
        ensures
            match r {
                Ok(e) => e.id@ == id@ && e.rice_id.deep_view() == match rice_id {
                    Some(s) => Some(s@),
                    None => None::<Seq<char>>,
                } && e.files.deep_view() == recorded.deep_view(),
                Err(e) => e matches RiceForgeError::Io(m) && m@ == clock_error_message(),
            },
    {
        match utc_now() {
            Some(now) => Ok(Self::finish_at(id, rice_id, recorded, now)),
            None => Err(clock_error()),
        }
    }

    /// The directory of backup `id` under `backups_dir`.
    pub fn backup_dir_in(backups_dir: &str, id: &str) -> (r: String)
        ensures
            r@ == path_join(backups_dir@, id@),
    {
        join(backups_dir, id)
    }

    /// The directory of backup `id`.
    pub fn backup_dir(id: &str) -> (r: String)
        ensures
            exists|base: Option<Seq<char>>|
                r@ == path_join(path_join(crate::config::app_dir_under(base), "backups"@), id@),
    {
        let root = Paths::backups_dir();
        Self::backup_dir_in(root.as_str(), id)
    }

    /// The copies that restore a backup: each file of `backup_dir` except the
    /// backup's record `meta.json` at its top goes back to the same relative
    /// place under `config_base`.
    pub fn restore_plan(config_base: &str, backup_dir: &str, files: &Vec<String>) -> (r: RestorePlan)
        ensures
            restore_matches(r, restore_steps(files.deep_view(), backup_dir@, config_base@)),
    {
        let ghost fv = files.deep_view();
        let mut copies: Vec<(String, String)> = Vec::new();
        let mut i: usize = 0;
        while i < files.len()
            invariant
                fv == files.deep_view(),
                i <= fv.len(),
                !restore_steps(fv.take(i as int), backup_dir@, config_base@).failed,
                copies.deep_view() == restore_steps(fv.take(i as int), backup_dir@, config_base@).copies,
            decreases fv.len() - i,
        {
            let f = &files[i];
            proof {
                assert(fv.take(i + 1).drop_last() =~= fv.take(i as int));
                assert(fv.take(i + 1).last() == f@);
            }
            match strip_prefix(f.as_str(), backup_dir) {
                None => {
                    proof {
                        lemma_restore_steps_stop(fv, backup_dir@, config_base@, i as int + 1);
                    }
                    return RestorePlan {
                        copies,
                        failure: Some(RiceForgeError::Backup(String::from_str("path strip failed"))),
                    };
                },
                Some(rel) => {
                    if !same_text(rel.as_str(), "meta.json") {
                        let dest = join(config_base, rel.as_str());
                        let ghost c0 = copies.deep_view();
                        copies.push((f.clone(), dest));
                        assert(copies.deep_view() =~= c0.push((f@, path_join(config_base@, rel@))));
                    }
                },
            }
            i = i + 1;
        }
        assert(fv.take(i as int) =~= fv);
        RestorePlan { copies, failure: None }
    }

    /// Restoring backup `id`, whose directory is `backup_dir` (`exists` tells
    /// whether it is there) and holds `files`: `NoBackup(id)` when the
    /// directory is missing, an error without a home directory, and
    /// otherwise the copies back into `~/.config`.
    pub fn restore(id: &str, exists: bool, backup_dir: &str, files: &Vec<String>) -> (r: Result<RestorePlan, RiceForgeError>)
        ensures
            !exists ==> (r matches Err(RiceForgeError::NoBackup(m)) && m@ == id@),
            exists ==> match r {
                Ok(p) => exists|home: Seq<char>|
                    restore_matches(p, #[trigger] restore_steps(files.deep_view(), backup_dir@, path_join(home, ".config"@))),
                Err(e) => no_home(e),
            },
    {
        if !exists {
            return Err(RiceForgeError::NoBackup(to_owned_string(id)));
        }
        match user_home_dir() {
            None => Err(RiceForgeError::Backup(String::from_str("home directory not found"))),
            Some(home) => {
                let base = join(home.as_str(), ".config");
                Ok(Self::restore_plan(base.as_str(), backup_dir, files))
            },
        }
    }
}

/// The copies that restore files, and whether a file outside the backup
/// directory stopped it.
pub struct RestoreSteps {
    pub copies: Seq<(Seq<char>, Seq<char>)>,
    pub failed: bool,
}

/// The steps of restoring `files` of `backup_dir` into `config_base`: the
/// backup's own record, `meta.json` at the top of `backup_dir`, is skipped;
/// each other file is copied to the same relative place; a file outside
/// `backup_dir` stops the restore.
pub open spec fn restore_steps(files: Seq<Seq<char>>, backup_dir: Seq<char>, config_base: Seq<char>) -> RestoreSteps
    decreases files.len(),
{
    if files.len() == 0 {
        RestoreSteps { copies: Seq::empty(), failed: false }
    } else {
        let prev = restore_steps(files.drop_last(), backup_dir, config_base);
        let f = files.last();
        if prev.failed {
            prev
        } else {
            match strip_dir_prefix(f, backup_dir) {
                None => RestoreSteps { failed: true, ..prev },
                Some(rel) => if rel == "meta.json"@ {
                    prev
                } else {
                    RestoreSteps { copies: prev.copies.push((f, path_join(config_base, rel))), failed: false }
                },
            }
        }
    }
}

/// The copies that restore a backup, then the error that stopped it, if any.
pub struct RestorePlan {
    pub copies: Vec<(String, String)>,
    pub failure: Option<RiceForgeError>,
}

/// `p` carries out `steps`.
pub open spec fn restore_matches(p: RestorePlan, steps: RestoreSteps) -> bool {
    &&& p.copies.deep_view() == steps.copies
    &&& if steps.failed {
        p.failure matches Some(RiceForgeError::Backup(m)) && m@ == "path strip failed"@
    } else {
        p.failure is None
    }
}

proof fn lemma_restore_steps_stop(files: Seq<Seq<char>>, dir: Seq<char>, base: Seq<char>, k: int)
    requires
        0 <= k <= files.len(),
        restore_steps(files.take(k), dir, base).failed,
    ensures
        restore_steps(files, dir, base) == restore_steps(files.take(k), dir, base),
    decreases files.len() - k,
{
    if k < files.len() {
        assert(files.drop_last().take(k) =~= files.take(k));
        lemma_restore_steps_stop(files.drop_last(), dir, base, k);
    } else {
        assert(files.take(k) =~= files);
    }
}

/// Where a backup's copies went.
pub open spec fn copy_dests(c: Seq<(Seq<char>, Seq<char>)>) -> Seq<Seq<char>> {
    c.map_values(|x: (Seq<char>, Seq<char>)| x.1)
}

/// A backup's copies reversed: from where each went back to where it came from.
pub open spec fn copies_back(c: Seq<(Seq<char>, Seq<char>)>) -> Seq<(Seq<char>, Seq<char>)> {
    c.map_values(|x: (Seq<char>, Seq<char>)| (x.1, x.0))
}

/// The files that a backup of `files` from `config_base` may hold are named
/// by non-empty relative paths other than `meta.json`, the name of the
/// backup's own record.
pub open spec fn restorable(files: Seq<FileProbeView>, config_base: Seq<char>) -> bool {
    forall|i: int|
        0 <= i < files.len() ==> (#[trigger] strip_dir_prefix(files[i].path, config_base) matches Some(rel) ==> rel.len()
            > 0 && !is_absolute(rel) && rel != "meta.json"@)
}

/// Law: restoring a backup copies every file it took back to the place it
/// was taken from, in the same order, and nothing else.
pub proof fn lemma_restore_undoes_backup(files: Seq<FileProbeView>, config_base: Seq<char>, backup_dir: Seq<char>)
    requires
        config_base.len() > 0,
        backup_dir.len() > 0,
        restorable(files, config_base),
    ensures
        restore_steps(copy_dests(copy_steps(files, config_base, backup_dir).copies), backup_dir, config_base)
            == (RestoreSteps { copies: copies_back(copy_steps(files, config_base, backup_dir).copies), failed: false }),
    decreases files.len(),
{
    if files.len() == 0 {
        assert(copy_dests(Seq::<(Seq<char>, Seq<char>)>::empty()) =~= Seq::<Seq<char>>::empty());
        assert(copies_back(Seq::<(Seq<char>, Seq<char>)>::empty()) =~= Seq::<(Seq<char>, Seq<char>)>::empty());
    } else {
        let init = files.drop_last();
        assert forall|i: int| 0 <= i < init.len() implies (#[trigger] strip_dir_prefix(init[i].path, config_base) matches Some(rel)
            ==> rel.len() > 0 && !is_absolute(rel) && rel != "meta.json"@) by {
            assert(init[i] == files[i]);
        }
        lemma_restore_undoes_backup(init, config_base, backup_dir);
        let prev = copy_steps(init, config_base, backup_dir);
        let f = files.last();
        let cur = copy_steps(files, config_base, backup_dir);
        if !(prev.outside is Some || f.is_symlink || !f.exists) {
            if let Some(rel) = strip_dir_prefix(f.path, config_base) {
                assert(strip_dir_prefix(files[files.len() - 1].path, config_base) == Some(rel));
                let d = path_join(backup_dir, rel);
                assert(copy_dests(cur.copies) =~= copy_dests(prev.copies).push(d));
                assert(copies_back(cur.copies) =~= copies_back(prev.copies).push((d, f.path)));
                assert(copy_dests(prev.copies).push(d).drop_last() =~= copy_dests(prev.copies));
                lemma_strip_join(backup_dir, rel);
                lemma_join_strip(f.path, config_base);
            }
        }
    }
}

/// Law: a backup copies exactly the files that exist and are not symlinks:
/// every copy comes from such a file below the configuration directory and
/// goes to the same relative place in the backup; and, when the backup is
/// not stopped by a file outside the configuration directory, every such
/// file is copied.
pub proof fn lemma_backup_copies_real_files(files: Seq<FileProbeView>, config_base: Seq<char>, backup_dir: Seq<char>)
    ensures
        ({
            let st = copy_steps(files, config_base, backup_dir);
            &&& forall|k: int| #![trigger st.copies[k]] 0 <= k < st.copies.len() ==> exists|i: int|
                0 <= i < files.len() && #[trigger] files[i].path == st.copies[k].0 && files[i].exists && !files[i].is_symlink
                    && (strip_dir_prefix(files[i].path, config_base) matches Some(rel) && st.copies[k].1 == path_join(
                    backup_dir,
                    rel,
                ))
            &&& st.outside is None ==> forall|i: int|
                0 <= i < files.len() && files[i].exists && !files[i].is_symlink ==> (#[trigger] strip_dir_prefix(
                    files[i].path,
                    config_base,
                ) matches Some(rel) && st.copies.contains((files[i].path, path_join(backup_dir, rel))))
        }),
    decreases files.len(),
{
    if files.len() > 0 {
        let init = files.drop_last();
        let f = files.last();
        lemma_backup_copies_real_files(init, config_base, backup_dir);
        let prev = copy_steps(init, config_base, backup_dir);
        let st = copy_steps(files, config_base, backup_dir);
        assert forall|k: int| #![trigger st.copies[k]] 0 <= k < st.copies.len() implies exists|i: int|
            0 <= i < files.len() && #[trigger] files[i].path == st.copies[k].0 && files[i].exists && !files[i].is_symlink
                && (strip_dir_prefix(files[i].path, config_base) matches Some(rel) && st.copies[k].1 == path_join(
                backup_dir,
                rel,
            )) by {
            if k < prev.copies.len() {
                assert(st.copies[k] == prev.copies[k]);
                let i = choose|i: int|
                    0 <= i < init.len() && #[trigger] init[i].path == prev.copies[k].0 && init[i].exists
                        && !init[i].is_symlink && (strip_dir_prefix(init[i].path, config_base) matches Some(rel)
                        && prev.copies[k].1 == path_join(backup_dir, rel));
                assert(files[i] == init[i]);
                assert(files[i].path == st.copies[k].0);
            } else {
                assert(files[files.len() - 1] == f);
                assert(files[files.len() - 1].path == st.copies[k].0);
            }
        }
        if st.outside is None {
            assert(prev.outside is None);
            assert forall|i: int|
                0 <= i < files.len() && files[i].exists && !files[i].is_symlink implies (#[trigger] strip_dir_prefix(
                    files[i].path,
                    config_base,
                ) matches Some(rel) && st.copies.contains((files[i].path, path_join(backup_dir, rel)))) by {
                if i < init.len() {
                    assert(files[i] == init[i]);
                    let rel = strip_dir_prefix(init[i].path, config_base)->0;
                    let k = choose|k: int| 0 <= k < prev.copies.len() && prev.copies[k] == (init[i].path, path_join(backup_dir, rel));
                    assert(st.copies[k] == prev.copies[k]);
                } else {
                    assert(files[i] == f);
                    assert(st.copies[st.copies.len() - 1] == (f.path, path_join(backup_dir, strip_dir_prefix(f.path, config_base)->0)));
                }
            }
        }
    }
}

/// Once a backup has stopped, later files change nothing.
proof fn lemma_copy_steps_stop(files: Seq<FileProbeView>, base: Seq<char>, dir: Seq<char>, k: int)
    requires
        0 <= k <= files.len(),
        copy_steps(files.take(k), base, dir).outside is Some,
    ensures
        copy_steps(files, base, dir) == copy_steps(files.take(k), base, dir),
    decreases files.len() - k,
{
    if k < files.len() {
        assert(files.drop_last().take(k) =~= files.take(k));
        lemma_copy_steps_stop(files.drop_last(), base, dir, k);
    } else {
        assert(files.take(k) =~= files);
    }
}

} // verus!
