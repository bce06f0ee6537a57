//! The database of installed rices.

use vstd::prelude::*;
use crate::clock::{clock_error, clock_error_message, utc_now};
use crate::error::RiceForgeError;
use crate::models::{InstalledRice, InstalledRiceView, Timestamp};
use crate::text::{same_text, to_owned_string};

verus! {

/// The installed-rices database, held in memory: one record per installed
/// rice, in installation order. Reading and writing the database file is
/// the caller's work.
pub struct InstalledManager {
    pub entries: Vec<InstalledRice>,
}

/// A database, record by record.
pub type InstalledDb = Seq<InstalledRiceView>;

/// Some record of `db` is for `id`.
pub open spec fn db_has(db: InstalledDb, id: Seq<char>) -> bool {
    exists|i: int| 0 <= i < db.len() && #[trigger] db[i].rice_id == id
}

/// The position of the first record of `db` for `id`.
pub open spec fn db_first(db: InstalledDb, id: Seq<char>) -> Option<int>
    decreases db.len(),
{
    if db.len() == 0 {
        None
    } else if db[0].rice_id == id {
        Some(0)
    } else {
        match db_first(db.drop_first(), id) {
            Some(i) => Some(i + 1),
            None => None,
        }
    }
}

/// The record `get` answers for `id`.
pub open spec fn db_get(db: InstalledDb, id: Seq<char>) -> Option<InstalledRiceView> {
    match db_first(db, id) {
        Some(i) => Some(db[i]),
        None => None,
    }
}

/// The database after recording `e`: every earlier record for the same rice
/// is dropped, and `e` comes last.
pub open spec fn db_add(db: InstalledDb, e: InstalledRiceView) -> InstalledDb {
    db.filter(|x: InstalledRiceView| x.rice_id != e.rice_id).push(e)
}

/// The database after removing the first record for `id` (unchanged when
/// there is none).
pub open spec fn db_remove(db: InstalledDb, id: Seq<char>) -> InstalledDb {
    match db_first(db, id) {
        Some(i) => db.remove(i),
        None => db,
    }
}

/// No rice has two records.
pub open spec fn db_unique(db: InstalledDb) -> bool {
    forall|i: int, j: int| 0 <= i < j < db.len() ==> db[i].rice_id != db[j].rice_id
}

/// Facts about `db_first`: it finds the first record for `id`, and none
/// exactly when there is no record for `id`.
pub proof fn lemma_db_first(db: InstalledDb, id: Seq<char>)
    ensures
        db_first(db, id) matches Some(i) ==> 0 <= i < db.len() && db[i].rice_id == id && forall|
            j: int,
        | 0 <= j < i ==> db[j].rice_id != id,
        db_first(db, id) is None <==> !db_has(db, id),
    decreases db.len(),
{
    if db.len() > 0 {
        lemma_db_first(db.drop_first(), id);
        if db[0].rice_id != id {
            if let Some(i) = db_first(db.drop_first(), id) {
                assert(db[i + 1] == db.drop_first()[i]);
                assert forall|j: int| 0 <= j < i + 1 implies db[j].rice_id != id by {
                    if j > 0 {
                        assert(db[j] == db.drop_first()[j - 1]);
                    }
                }
            }
            if db_has(db, id) {
                let k = choose|k: int| 0 <= k < db.len() && #[trigger] db[k].rice_id == id;
                assert(db.drop_first()[k - 1].rice_id == id);
            }
            if db_has(db.drop_first(), id) {
                let k = choose|k: int| 0 <= k < db.len() - 1 && #[trigger] db.drop_first()[k].rice_id == id;
                assert(db[k + 1].rice_id == id);
            }
        }
    }
}

/// The first record for `id` sits where a scan that has passed `k` records
/// without meeting `id` next meets it.
proof fn lemma_db_first_scan(db: InstalledDb, id: Seq<char>, k: int)
    requires
        0 <= k <= db.len(),
        forall|j: int| 0 <= j < k ==> db[j].rice_id != id,
    ensures
        k < db.len() && db[k].rice_id == id ==> db_first(db, id) == Some(k),
        k == db.len() ==> db_first(db, id) is None,
    decreases k,
{
    if k > 0 {
        lemma_db_first_scan(db.drop_first(), id, k - 1);
    }
}

proof fn lemma_filter_other_ids(db: InstalledDb, id: Seq<char>, f: InstalledDb)
    requires
        f == db.filter(|x: InstalledRiceView| x.rice_id != id),
    ensures
        forall|i: int| 0 <= i < f.len() ==> (#[trigger] f[i]).rice_id != id,
        forall|e: InstalledRiceView| db.contains(e) && e.rice_id != id ==> #[trigger] f.contains(e),
        forall|e: InstalledRiceView| #[trigger] f.contains(e) ==> db.contains(e),
        f.len() <= db.len(),
{
    broadcast use vstd::seq_lib::group_filter_ensures;

    let p = |x: InstalledRiceView| x.rice_id != id;
    assert forall|i: int| 0 <= i < f.len() implies (#[trigger] f[i]).rice_id != id by {
        assert(p(db.filter(p)[i]));
    }
    assert forall|e: InstalledRiceView| db.contains(e) && e.rice_id != id implies #[trigger] f.contains(e) by {
        let k = choose|k: int| 0 <= k < db.len() && db[k] == e;
        db.lemma_filter_contains(p, k);
    }
    assert forall|e: InstalledRiceView| #[trigger] f.contains(e) implies db.contains(e) by {
        db.lemma_filter_contains_rev(p, e);
    }
}

/// Law: after a rice is recorded, it is installed, and `get` answers the
/// new record.
pub proof fn lemma_add_then_get(db: InstalledDb, e: InstalledRiceView)
    ensures
        db_has(db_add(db, e), e.rice_id),
        db_get(db_add(db, e), e.rice_id) == Some(e),
{
    let p = |x: InstalledRiceView| x.rice_id != e.rice_id;
    let f = db.filter(p);
    lemma_filter_other_ids(db, e.rice_id, f);
    let n = db_add(db, e);
    assert(n[f.len() as int] == e);
    assert forall|j: int| 0 <= j < f.len() implies n[j].rice_id != e.rice_id by {
        assert(n[j] == f[j]);
    }
    lemma_db_first_scan(n, e.rice_id, f.len() as int);
}

/// Law: recording a rice changes nothing for any other rice: it is installed
/// afterwards exactly when it was before.
pub proof fn lemma_add_keeps_others(db: InstalledDb, e: InstalledRiceView, other: Seq<char>)
    requires
        other != e.rice_id,
    ensures
        db_has(db_add(db, e), other) == db_has(db, other),
{
    let p = |x: InstalledRiceView| x.rice_id != e.rice_id;
    let f = db.filter(p);
    lemma_filter_other_ids(db, e.rice_id, f);
    let n = db_add(db, e);
    if db_has(db, other) {
        let k = choose|k: int| 0 <= k < db.len() && #[trigger] db[k].rice_id == other;
        assert(db.contains(db[k]));
        assert(f.contains(db[k]));
        let m = choose|m: int| 0 <= m < f.len() && f[m] == db[k];
        assert(n[m] == f[m]);
    }
    if db_has(n, other) {
        let k = choose|k: int| 0 <= k < n.len() && #[trigger] n[k].rice_id == other;
        assert(k < f.len());
        assert(n[k] == f[k]);
        assert(f.contains(f[k]));
        assert(db.contains(f[k]));
    }
}

/// Law: recording a rice again replaces the earlier record: adding `e1` and
/// then `e2` for the same rice is the same as adding `e2` alone.
pub proof fn lemma_add_overwrites(db: InstalledDb, e1: InstalledRiceView, e2: InstalledRiceView)
    requires
        e1.rice_id == e2.rice_id,
    ensures
        db_add(db_add(db, e1), e2) == db_add(db, e2),
{
    let p = |x: InstalledRiceView| x.rice_id != e2.rice_id;
    let p1 = |x: InstalledRiceView| x.rice_id != e1.rice_id;
    assert(p1 =~= p);
    let f = db.filter(p);
    f.lemma_filter_push(e1, p);
    assert(!p(e1));
    assert forall|i: int| 0 <= i < f.len() implies p(f[i]) by {
        broadcast use vstd::seq_lib::group_filter_ensures;
    }
    lemma_filter_true(f, p);
    assert(db_add(db, e1) == f.push(e1));
    assert(f.push(e1).filter(p) == f.filter(p));
    assert(f.filter(p) == f);
    assert(db_add(db_add(db, e1), e2) == f.push(e1).filter(p).push(e2));
}

proof fn lemma_filter_true(s: InstalledDb, p: spec_fn(InstalledRiceView) -> bool)
    requires
        forall|i: int| 0 <= i < s.len() ==> p(s[i]),
    ensures
        s.filter(p) == s,
    decreases s.len(),
{
    reveal(Seq::filter);
    if s.len() > 0 {
        lemma_filter_true(s.drop_last(), p);
        assert(s.drop_last().push(s.last()) =~= s);
    }
}

/// Law: recording keeps the database free of duplicate records.
pub proof fn lemma_add_keeps_unique(db: InstalledDb, e: InstalledRiceView)
    requires
        db_unique(db),
    ensures
        db_unique(db_add(db, e)),
{
    let p = |x: InstalledRiceView| x.rice_id != e.rice_id;
    lemma_filter_unique(db, p);
    lemma_filter_other_ids(db, e.rice_id, db.filter(p));
}

proof fn lemma_filter_unique(s: InstalledDb, p: spec_fn(InstalledRiceView) -> bool)
    requires
        db_unique(s),
    ensures
        db_unique(s.filter(p)),
        s.filter(p).len() <= s.len(),
    decreases s.len(),
{
    reveal(Seq::filter);
    if s.len() > 0 {
        let t = s.drop_last();
        assert(db_unique(t));
        lemma_filter_unique(t, p);
        broadcast use vstd::seq_lib::group_filter_ensures;
        if p(s.last()) {
            assert forall|i: int| 0 <= i < t.filter(p).len() implies t.filter(p)[i].rice_id != s.last().rice_id by {
                assert(t.filter(p).contains(t.filter(p)[i]));
                t.lemma_filter_contains_rev(p, t.filter(p)[i]);
                let k = choose|k: int| 0 <= k < t.len() && t[k] == t.filter(p)[i];
                assert(s[k] == t[k]);
            }
        }
    }
}

/// Law: in a database without duplicates, a removed rice is no longer
/// installed.
pub proof fn lemma_remove_uninstalls(db: InstalledDb, id: Seq<char>)
    requires
        db_unique(db),
    ensures
        !db_has(db_remove(db, id), id),
        db_unique(db_remove(db, id)),
{
    lemma_db_first(db, id);
    match db_first(db, id) {
        Some(i) => {
            let n = db.remove(i);
            if db_has(n, id) {
                let k = choose|k: int| 0 <= k < n.len() && #[trigger] n[k].rice_id == id;
                if k < i {
                    assert(n[k] == db[k]);
                } else {
                    assert(n[k] == db[k + 1]);
                }
            }
            assert forall|a: int, b: int| 0 <= a < b < n.len() implies n[a].rice_id != n[b].rice_id by {
                let a2 = if a < i { a } else { a + 1 };
                let b2 = if b < i { b } else { b + 1 };
                assert(n[a] == db[a2]);
                assert(n[b] == db[b2]);
            }
        },
        None => {},
    }
}

/// Law: removing a rice that was never installed changes nothing.
pub proof fn lemma_remove_absent(db: InstalledDb, id: Seq<char>)
    requires
        !db_has(db, id),
    ensures
        db_remove(db, id) == db,
{
    lemma_db_first(db, id);
}

/// Law: removing a rice right after recording it, when it was not installed
/// before, gives back the database as it was.
pub proof fn lemma_remove_undoes_add(db: InstalledDb, e: InstalledRiceView)
    requires
        !db_has(db, e.rice_id),
    ensures
        db_remove(db_add(db, e), e.rice_id) == db,
{
    let p = |x: InstalledRiceView| x.rice_id != e.rice_id;
    assert forall|i: int| 0 <= i < db.len() implies p(db[i]) by {
        if !p(db[i]) {
            assert(db[i].rice_id == e.rice_id);
        }
    }
    lemma_filter_true(db, p);
    lemma_add_then_get(db, e);
    let n = db_add(db, e);
    assert(n == db.push(e));
    assert forall|j: int| 0 <= j < db.len() implies n[j].rice_id != e.rice_id by {
        assert(n[j] == db[j]);
    }
    lemma_db_first_scan(n, e.rice_id, db.len() as int);
    assert(n.remove(db.len() as int) =~= db);
}

impl View for InstalledManager {
    type V = InstalledDb;

    open spec fn view(&self) -> InstalledDb {
        self.entries@.map_values(|e: InstalledRice| e@)
    }
}

impl InstalledManager {
    /// A database holding `entries`.
    pub fn new(entries: Vec<InstalledRice>) -> (r: InstalledManager)
        ensures
            r.entries@ == entries@,
    {
        InstalledManager { entries }
    }

    /// Every record, in order.
    pub fn list(&self) -> (r: Vec<InstalledRice>)
        ensures
            r@.map_values(|e: InstalledRice| e@) == self@,
    {
        let mut r: Vec<InstalledRice> = Vec::new();
        for i in 0..self.entries.len()
            invariant
                r@.len() == i,
                forall|j: int| 0 <= j < i ==> r@[j]@ == self.entries@[j]@,
        {
            r.push(self.entries[i].duplicate());
        }
        assert(r@.map_values(|e: InstalledRice| e@) =~= self@);
        r
    }

    /// The position of the first record for `rice_id`.
    fn position(&self, rice_id: &str) -> (r: Option<usize>)
        ensures
            match db_first(self@, rice_id@) {
                Some(i) => r == Some(i as usize),
                None => r is None,
            },
            r matches Some(i) ==> i < self@.len() && self@[i as int].rice_id == rice_id@,
    {
        let ghost db = self@;
        let mut i: usize = 0;
        while i < self.entries.len()
            invariant
                db == self@,
                i <= db.len(),
                forall|j: int| 0 <= j < i ==> db[j].rice_id != rice_id@,
            decreases db.len() - i,
        {
            if same_text(self.entries[i].rice_id.as_str(), rice_id) {
                proof {
                    lemma_db_first_scan(db, rice_id@, i as int);
                }
                return Some(i);
            }
            i = i + 1;
        }
        proof {
            lemma_db_first_scan(db, rice_id@, i as int);
        }
        None
    }

    /// Whether `rice_id` is installed.
    pub fn is_installed(&self, rice_id: &str) -> (r: bool)
        ensures
            r == db_has(self@, rice_id@),
    {
        proof {
            lemma_db_first(self@, rice_id@);
        }
        self.position(rice_id).is_some()
    }

    /// The record of `rice_id` (its first record); `NotInstalled(rice_id)`
    /// when there is none.
    pub fn get(&self, rice_id: &str) -> (r: Result<InstalledRice, RiceForgeError>)
        ensures
            match db_get(self@, rice_id@) {
                Some(e) => r matches Ok(x) && x@ == e,
                None => r matches Err(RiceForgeError::NotInstalled(s)) && s@ == rice_id@,
            },
    {
        proof {
            lemma_db_first(self@, rice_id@);
        }
        match self.position(rice_id) {
            Some(i) => Ok(self.entries[i].duplicate()),
            None => Err(RiceForgeError::NotInstalled(to_owned_string(rice_id))),
        }
    }

    /// The backup taken when `rice_id` was installed, if it has a record
    /// with one. An upgrade keeps it, so that removing the rice later can
    /// still restore what the installation replaced.
    pub fn backup_of(&self, rice_id: &str) -> (r: Option<String>)
        ensures
            r.deep_view() == match db_get(self@, rice_id@) {
                Some(e) => e.backup_id,
                None => None,
            },
    {
        match self.get(rice_id) {
            Ok(e) => e.backup_id,
            Err(_) => None,
        }
    }

    /// Records `rice_id` as installed now at `commit_hash`, with the backup
    /// taken before it, replacing any earlier record for it; an error, with
    /// nothing changed, when the clock reads before the Unix epoch.
    pub fn add(&mut self, rice_id: &str, commit_hash: &str, backup_id: Option<String>) -> (r: Result<(), RiceForgeError>)
        ensures
            r is Ok ==> exists|t: Timestamp|
                final(self)@ == db_add(
                    old(self)@,
                    InstalledRiceView {
                        rice_id: rice_id@,
                        commit_hash: commit_hash@,
                        installed_at: t,
                        backup_id: backup_id.deep_view(),
                    },
                ),
            r matches Err(e) ==> final(self)@ == old(self)@ && (e matches RiceForgeError::Io(m)
                && m@ == clock_error_message()),
    {
        match utc_now() {
            Some(now) => {
                self.add_at(rice_id, commit_hash, backup_id, now);
                Ok(())
            },
            None => Err(clock_error()),
        }
    }

    /// Records `rice_id` as installed at `installed_at`, at `commit_hash`,
    /// with the backup taken before it, replacing any earlier record for it.
    pub fn add_at(
        &mut self,
        rice_id: &str,
        commit_hash: &str,
        backup_id: Option<String>,
        installed_at: Timestamp,
    )
        ensures
            final(self)@ == db_add(
                old(self)@,
                InstalledRiceView {
                    rice_id: rice_id@,
                    commit_hash: commit_hash@,
                    installed_at,
                    backup_id: backup_id.deep_view(),
                },
            ),
    {
        let ghost db = self@;
        let ghost p = |x: InstalledRiceView| x.rice_id != rice_id@;
        let mut kept: Vec<InstalledRice> = Vec::new();
        let mut i: usize = 0;
        while i < self.entries.len()
            invariant
                db == self@,
                i <= db.len(),
                p == |x: InstalledRiceView| x.rice_id != rice_id@,
                kept@.map_values(|e: InstalledRice| e@) == db.take(i as int).filter(p),
            decreases db.len() - i,
        {
            let same = same_text(self.entries[i].rice_id.as_str(), rice_id);
            proof {
                assert(db.take(i + 1) =~= db.take(i as int).push(db[i as int]));
                db.take(i as int).lemma_filter_push(db[i as int], p);
            }
            if !same {
                kept.push(self.entries[i].duplicate());
                assert(kept@.map_values(|e: InstalledRice| e@) =~= db.take(i as int).filter(p).push(
                    db[i as int],
                ));
            }
            i = i + 1;
        }
        assert(db.take(i as int) =~= db);
        let e = InstalledRice {
            rice_id: to_owned_string(rice_id),
            commit_hash: to_owned_string(commit_hash),
            installed_at,
            backup_id,
        };
        kept.push(e);
        self.entries = kept;
        assert(self@ =~= db.filter(p).push(e@));
    }

    /// Removes the first record for `rice_id` and returns it; `None`, with
    /// nothing changed, when `rice_id` is not installed.
    pub fn remove(&mut self, rice_id: &str) -> (r: Option<InstalledRice>)
        ensures
            final(self)@ == db_remove(old(self)@, rice_id@),
            match db_get(old(self)@, rice_id@) {
                Some(e) => r matches Some(x) && x@ == e,
                None => r is None,
            },
    {
        proof {
            lemma_db_first(self@, rice_id@);
        }
        match self.position(rice_id) {
            Some(i) => {
                let ghost db = self@;
                let e = self.entries.remove(i);
                assert(self@ =~= db.remove(i as int));
                Some(e)
            },
            None => None,
        }
    }
}

} // verus!
