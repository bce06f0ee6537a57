//! File-system paths, as text. Paths are `/`-separated; the operations here
//! follow `std::path` on Unix for paths without `.` or `..` components and
//! without repeated or trailing separators.

use vstd::prelude::*;
use vstd::string::StringExecFns;
use crate::text::{chars_of, has_prefix, push_char, same_text, starts_with, string_from_chars, to_owned_string};

verus! {

/// `p` is absolute: it begins at the root.
pub open spec fn is_absolute(p: Seq<char>) -> bool {
    p.len() > 0 && p[0] == '/'
}

/// `base` joined with `p` (`Path::join`): `p` itself when it is absolute;
/// otherwise `p` appended to `base`, with a `/` between them unless `base` is
/// empty or already ends with one.
pub open spec fn path_join(base: Seq<char>, p: Seq<char>) -> Seq<char> {
    if is_absolute(p) {
        p
    } else if base.len() > 0 && base.last() != '/' {
        base + seq!['/'] + p
    } else {
        base + p
    }
}

/// The part of `p` below the directory `base` (`Path::strip_prefix`): empty
/// when `p` is `base`, the rest after `base` and a `/` when `p` lies inside
/// it, and `None` otherwise.
pub open spec fn strip_dir_prefix(p: Seq<char>, base: Seq<char>) -> Option<Seq<char>> {
    if p == base {
        Some(Seq::empty())
    } else if base.len() > 0 && base.last() == '/' && has_prefix(p, base) {
        Some(p.skip(base.len() as int))
    } else if has_prefix(p, base + seq!['/']) {
        Some(p.skip(base.len() + 1int))
    } else {
        None
    }
}

/// The position of the first `/` in `p`, if any.
pub open spec fn first_slash(p: Seq<char>) -> Option<int>
    decreases p.len(),
{
    if p.len() == 0 {
        None
    } else if p[0] == '/' {
        Some(0)
    } else {
        match first_slash(p.drop_first()) {
            Some(i) => Some(i + 1),
            None => None,
        }
    }
}

/// The first component of a relative path: everything before its first `/`.
pub open spec fn first_component(p: Seq<char>) -> Seq<char> {
    match first_slash(p) {
        Some(i) => p.take(i),
        None => p,
    }
}

/// The position of the last `/` in `p`, if any.
pub open spec fn last_slash(p: Seq<char>) -> Option<int>
    decreases p.len(),
{
    if p.len() == 0 {
        None
    } else if p.last() == '/' {
        Some(p.len() - 1)
    } else {
        last_slash(p.drop_last())
    }
}

/// The last component of `p` (`Path::file_name` for a path that does not end
/// in `/`).
pub open spec fn file_name(p: Seq<char>) -> Seq<char> {
    match last_slash(p) {
        Some(i) => p.skip(i + 1),
        None => p,
    }
}

proof fn lemma_first_slash_scan(p: Seq<char>, k: int)
    requires
        0 <= k <= p.len(),
        forall|j: int| 0 <= j < k ==> p[j] != '/',
    ensures
        k < p.len() && p[k] == '/' ==> first_slash(p) == Some(k),
        k == p.len() ==> first_slash(p) is None,
    decreases k,
{
    if k > 0 {
        lemma_first_slash_scan(p.drop_first(), k - 1);
    }
}

proof fn lemma_last_slash_scan(p: Seq<char>, k: int)
    requires
        0 <= k <= p.len(),
        forall|j: int| k <= j < p.len() ==> p[j] != '/',
    ensures
        k > 0 && p[k - 1] == '/' ==> last_slash(p) == Some(k - 1),
        k == 0 ==> last_slash(p) is None,
    decreases p.len() - k,
{
    if k < p.len() {
        lemma_last_slash_scan(p.drop_last(), k);
    }
}

/// Law: below a non-empty directory, taking the part of a joined path
/// below that directory gives back the relative path that was joined.
pub proof fn lemma_strip_join(d: Seq<char>, r: Seq<char>)
    requires
        d.len() > 0,
        !is_absolute(r),
    ensures
        strip_dir_prefix(path_join(d, r), d) == Some(r),
{
    let p = path_join(d, r);
    if d.last() != '/' {
        assert(p =~= d + seq!['/'] + r);
        assert(p != d) by {
            assert(p.len() > d.len());
        }
        assert(p.subrange(0, d.len() + 1int) =~= d + seq!['/']);
        assert(p.skip(d.len() + 1int) =~= r);
    } else {
        assert(p =~= d + r);
        if p == d {
            assert(r.len() == 0);
            assert(r =~= Seq::<char>::empty());
        } else {
            assert(p.subrange(0, d.len() as int) =~= d);
            assert(p.skip(d.len() as int) =~= r);
        }
    }
}

/// Law: joining a directory with the part of a path below it gives the
/// path back (for a non-empty, relative part).
pub proof fn lemma_join_strip(f: Seq<char>, b: Seq<char>)
    requires
        b.len() > 0,
        strip_dir_prefix(f, b) matches Some(rel) && rel.len() > 0 && !is_absolute(rel),
    ensures
        path_join(b, strip_dir_prefix(f, b).unwrap()) == f,
{
    let rel = strip_dir_prefix(f, b).unwrap();
    if f == b {
    } else if b.last() == '/' && has_prefix(f, b) {
        assert(f =~= b + rel) by {
            assert(f =~= f.subrange(0, b.len() as int) + f.skip(b.len() as int));
        }
    } else {
        assert(has_prefix(f, b)) by {
            assert(f.subrange(0, b.len() as int) =~= f.subrange(0, b.len() + 1int).subrange(0, b.len() as int));
            assert(b =~= (b + seq!['/']).subrange(0, b.len() as int));
        }
        assert(b.last() != '/');
        assert(f =~= b + seq!['/'] + rel) by {
            assert(f =~= f.subrange(0, b.len() + 1int) + f.skip(b.len() + 1int));
        }
    }
}

proof fn lemma_last_slash_range(p: Seq<char>)
    ensures
        last_slash(p) matches Some(i) ==> 0 <= i < p.len() && p[i] == '/',
    decreases p.len(),
{
    if p.len() > 0 && p.last() != '/' {
        lemma_last_slash_range(p.drop_last());
    }
}

proof fn lemma_last_slash_suffix(x: Seq<char>, b: Seq<char>)
    requires
        x.len() > 0,
        x.last() == '/',
    ensures
        last_slash(x + b) == match last_slash(b) {
            Some(i) => Some(x.len() + i),
            None => Some(x.len() - 1),
        },
    decreases b.len(),
{
    if b.len() == 0 {
        assert(x + b =~= x);
    } else if b.last() == '/' {
        assert((x + b).last() == '/');
    } else {
        assert((x + b).drop_last() =~= x + b.drop_last());
        lemma_last_slash_suffix(x, b.drop_last());
    }
}

/// Below a directory prefix ending in `/`, the last component is the
/// last component of the rest.
pub proof fn lemma_file_name_suffix(x: Seq<char>, b: Seq<char>)
    requires
        x.len() > 0,
        x.last() == '/',
    ensures
        file_name(x + b) == file_name(b),
{
    lemma_last_slash_suffix(x, b);
    lemma_last_slash_range(b);
    match last_slash(b) {
        Some(i) => {
            assert((x + b).skip(x.len() + i + 1) =~= b.skip(i + 1));
        },
        None => {
            assert((x + b).skip(x.len() as int) =~= b);
        },
    }
}

/// The last component of a joined path is that of the relative part.
pub proof fn lemma_file_name_join(d: Seq<char>, r: Seq<char>)
    requires
        d.len() > 0,
        !is_absolute(r),
    ensures
        file_name(path_join(d, r)) == file_name(r),
{
    if d.last() != '/' {
        assert(path_join(d, r) =~= (d + seq!['/']) + r);
        lemma_file_name_suffix(d + seq!['/'], r);
    } else {
        lemma_file_name_suffix(d, r);
    }
}

/// `base` joined with `p`.
pub fn join(base: &str, p: &str) -> (r: String)
    ensures
        r@ == path_join(base@, p@),
{
    let b = chars_of(base);
    let q = chars_of(p);
    if q.len() > 0 && q[0] == '/' {
        return string_from_chars(&q);
    }
    let mut r = string_from_chars(&b);
    if b.len() > 0 && b[b.len() - 1] != '/' {
        push_char(&mut r, '/');
    }
    let r = r.concat(p);
    r
}

/// The characters of `s` from position `k` on.
pub fn skip_chars(s: &str, k: usize) -> (r: String)
    requires
        k <= s@.len(),
    ensures
        r@ == s@.skip(k as int),
{
    let c = chars_of(s);
    let mut rest: Vec<char> = Vec::new();
    let mut i = k;
    while i < c.len()
        invariant
            c@ == s@,
            k <= i <= c@.len(),
            rest@ == c@.subrange(k as int, i as int),
        decreases c@.len() - i,
    {
        rest.push(c[i]);
        assert(c@.subrange(k as int, i + 1) =~= c@.subrange(k as int, i as int).push(c@[i as int]));
        i = i + 1;
    }
    assert(rest@ =~= s@.skip(k as int));
    string_from_chars(&rest)
}

/// The part of `p` below the directory `base`, if `p` lies inside it.
pub fn strip_prefix(p: &str, base: &str) -> (r: Option<String>)
    ensures
        match strip_dir_prefix(p@, base@) {
            Some(s) => r matches Some(x) && x@ == s,
            None => r is None,
        },
{
    if same_text(p, base) {
        return Some(String::new());
    }
    let bc = chars_of(base);
    let n = bc.len();
    if n > 0 && bc[n - 1] == '/' {
        if starts_with(p, base) {
            return Some(skip_chars(p, n));
        }
    }
    let mut with_sep = to_owned_string(base);
    push_char(&mut with_sep, '/');
    let pc = chars_of(p);
    let pl = pc.len();
    assert(with_sep@ =~= base@ + seq!['/']);
    if starts_with(p, with_sep.as_str()) {
        proof {
            assert(p@.subrange(0, n as int) =~= p@.subrange(0, n + 1).subrange(0, n as int));
            assert(base@ =~= (base@ + seq!['/']).subrange(0, n as int));
        }
        assert(pc@.len() == p@.len());
        assert(n + 1 <= pl);
        Some(skip_chars(p, n + 1))
    } else {
        None
    }
}

/// The first component of a relative path.
pub fn first_component_of(p: &str) -> (r: String)
    ensures
        r@ == first_component(p@),
{
    let c = chars_of(p);
    let mut i: usize = 0;
    while i < c.len()
        invariant
            c@ == p@,
            i <= c@.len(),
            forall|j: int| 0 <= j < i ==> c@[j] != '/',
        ensures
            i <= c@.len(),
            forall|j: int| 0 <= j < i ==> c@[j] != '/',
            i < c@.len() ==> c@[i as int] == '/',
        decreases c@.len() - i,
    {
        if c[i] == '/' {
            break;
        }
        i = i + 1;
    }
    proof {
        lemma_first_slash_scan(c@, i as int);
    }
    let mut out: Vec<char> = Vec::new();
    let mut k: usize = 0;
    while k < i
        invariant
            c@ == p@,
            i <= c@.len(),
            k <= i,
            out@ == c@.take(k as int),
        decreases i - k,
    {
        out.push(c[k]);
        assert(c@.take(k + 1) =~= c@.take(k as int).push(c@[k as int]));
        k = k + 1;
    }
    assert(i == c@.len() ==> c@.take(i as int) =~= c@);
    string_from_chars(&out)
}

/// The last component of `p`.
pub fn file_name_of(p: &str) -> (r: String)
    ensures
        r@ == file_name(p@),
{
    let c = chars_of(p);
    let mut i: usize = c.len();
    while i > 0
        invariant
            c@ == p@,
            i <= c@.len(),
            forall|j: int| i <= j < c@.len() ==> c@[j] != '/',
        ensures
            i <= c@.len(),
            forall|j: int| i <= j < c@.len() ==> c@[j] != '/',
            i > 0 ==> c@[i - 1] == '/',
        decreases i,
    {
        if c[i - 1] == '/' {
            break;
        }
        i = i - 1;
    }
    proof {
        lemma_last_slash_scan(c@, i as int);
    }
    let mut out: Vec<char> = Vec::new();
    let mut k: usize = i;
    while k < c.len()
        invariant
            c@ == p@,
            i <= k <= c@.len(),
            out@ == c@.subrange(i as int, k as int),
        decreases c@.len() - k,
    {
        out.push(c[k]);
        assert(c@.subrange(i as int, k + 1) =~= c@.subrange(i as int, k as int).push(c@[k as int]));
        k = k + 1;
    }
    assert(out@ =~= c@.skip(i as int));
    string_from_chars(&out)
}

/// The directory that contains `p` (`Path::parent`): everything before its
/// last `/` (the root itself when that `/` is the first character), the
/// empty path for a single relative component, and `None` for the empty
/// path and for the root.
pub open spec fn parent_dir(p: Seq<char>) -> Option<Seq<char>> {
    if p.len() == 0 || p == seq!['/'] {
        None
    } else {
        match last_slash(p) {
            Some(i) => if i == 0 {
                Some(seq!['/'])
            } else {
                Some(p.take(i))
            },
            None => Some(Seq::empty()),
        }
    }
}

/// The directory that contains `p`.
pub fn parent_of(p: &str) -> (r: Option<String>)
    ensures
        r.deep_view() == parent_dir(p@),
{
    let c = chars_of(p);
    if c.len() == 0 || (c.len() == 1 && c[0] == '/') {
        assert(c@.len() == 1 ==> c@ =~= seq!['/']);
        return None;
    }
    assert(c@ != seq!['/']) by {
        if c@.len() == 1 {
            assert(c@[0] != '/');
        }
    }
    let mut i: usize = c.len();
    while i > 0
        invariant
            c@ == p@,
            i <= c@.len(),
            forall|j: int| i <= j < c@.len() ==> c@[j] != '/',
        ensures
            i <= c@.len(),
            forall|j: int| i <= j < c@.len() ==> c@[j] != '/',
            i > 0 ==> c@[i - 1] == '/',
        decreases i,
    {
        if c[i - 1] == '/' {
            break;
        }
        i = i - 1;
    }
    proof {
        lemma_last_slash_scan(c@, i as int);
    }
    if i == 0 {
        return Some(String::new());
    }
    if i == 1 {
        let mut root = String::new();
        push_char(&mut root, '/');
        assert(root@ =~= seq!['/']);
        return Some(root);
    }
    let mut out: Vec<char> = Vec::new();
    let mut k: usize = 0;
    while k < i - 1
        invariant
            c@ == p@,
            1 < i <= c@.len(),
            k <= i - 1,
            out@ == c@.take(k as int),
        decreases i - 1 - k,
    {
        out.push(c[k]);
        assert(c@.take(k + 1) =~= c@.take(k as int).push(c@[k as int]));
        k = k + 1;
    }
    let r = string_from_chars(&out);
    Some(r)
}

} // verus!
