//! Building and checking the registry: validating `rice.toml` metadata,
//! turning it into index records, ordering the index, and GitHub URLs.

use vstd::prelude::*;
use vstd::string::StringExecFns;
use vstd::string::StrSliceExecFns;
use crate::clock::{clock_error, clock_error_message, utc_now};
use crate::error::RiceForgeError;
use crate::git::arg_views;
use crate::paths::{file_name, file_name_of, join, path_join};
use crate::ui::{decimal, decimal_text};
use crate::text::to_owned_string;
use crate::models::{copy_strings, Index, Rice, RiceView, Timestamp, WindowManager, wm_from_lower};
use crate::sorting::{keyed_order, lemma_insert_stable, lemma_text_lt_trans, lemma_text_order, stable_sorted, text_le, text_less, text_lt};
use crate::text::{
    all_ascii, chars_of, has_char, has_prefix, is_alphanumeric, lowercase, push_char, same_text, starts_with,
    string_from_chars, to_lowercase, unicode_alphanumeric,
};

verus! {

/// The metadata a rice's author publishes in `rice.toml`.
#[derive(Clone, Debug, PartialEq)]
pub struct RiceToml {
    pub id: String,
    pub name: String,
    pub author: String,
    pub description: String,
    pub wm: String,
    pub theme: String,
    pub fonts: Vec<String>,
    pub dependencies: Vec<String>,
    pub repo_url: String,
    pub screenshots: Vec<String>,
}

/// `seq![m]` when `c` holds, nothing otherwise.
pub open spec fn msg_if(c: bool, m: Seq<char>) -> Seq<Seq<char>> {
    if c {
        seq![m]
    } else {
        Seq::empty()
    }
}

/// The lower-case window-manager names a `rice.toml` may give.
pub open spec fn allowed_wm(l: Seq<char>) -> bool {
    ||| l == "hyprland"@
    ||| l == "sway"@
    ||| l == "i3"@
    ||| l == "bspwm"@
    ||| l == "qtile"@
    ||| l == "xmonad"@
    ||| l == "openbox"@
}

/// A character an id may hold.
pub open spec fn id_char_ok(c: char) -> bool {
    unicode_alphanumeric(c) || c == '-' || c == '_'
}

/// Every problem with a `rice.toml`, in the order they are reported.
/// Lengths of descriptions are counted in characters.
pub open spec fn validation_errors(t: RiceToml) -> Seq<Seq<char>> {
    msg_if(t.id@.len() == 0 || t.id@.contains(' '), "id must be non-empty and contain no spaces"@)
        + msg_if(
        !(forall|i: int| 0 <= i < t.id@.len() ==> id_char_ok(#[trigger] t.id@[i])),
        "id must only contain alphanumeric characters, hyphens and underscores"@,
    ) + msg_if(t.name@.len() == 0, "name is required"@) + msg_if(t.author@.len() == 0, "author is required"@)
        + msg_if(
        t.description@.len() < 20,
        "description must be at least 20 characters"@,
    ) + msg_if(
        t.description@.len() > 300,
        "description must be at most 300 characters"@,
    ) + msg_if(!has_prefix(t.repo_url@, "https://github.com/"@), "repo_url must be a GitHub HTTPS URL"@)
        + (if t.wm@.len() == 0 {
        seq!["wm is required"@]
    } else if !allowed_wm(lowercase(t.wm@)) {
        seq![
            "wm '"@ + t.wm@
                + "' is not allowed; valid values: hyprland, sway, i3, bspwm, qtile, xmonad, openbox"@,
        ]
    } else {
        Seq::empty()
    }) + msg_if(t.theme@.len() == 0, "theme is required"@)
}

/// Whether every character of an id is allowed.
fn id_chars_ok(id: &str) -> (r: bool)
    ensures
        r == (forall|i: int| 0 <= i < id@.len() ==> id_char_ok(#[trigger] id@[i])),
{
    let c = chars_of(id);
    let mut i: usize = 0;
    while i < c.len()
        invariant
            c@ == id@,
            i <= c@.len(),
            forall|k: int| 0 <= k < i ==> id_char_ok(#[trigger] id@[k]),
        decreases c@.len() - i,
    {
        let ch = c[i];
        if !(is_alphanumeric(ch) || ch == '-' || ch == '_') {
            assert(!id_char_ok(id@[i as int]));
            return false;
        }
        i = i + 1;
    }
    true
}

/// Appends `m` to `errors` when `c` holds.
fn push_if(errors: &mut Vec<String>, c: bool, m: &str)
    ensures
        final(errors).deep_view() == old(errors).deep_view() + msg_if(c, m@),
{
    if c {
        let ghost e0 = errors.deep_view();
        errors.push(String::from_str(m));
        assert(errors.deep_view() =~= e0 + msg_if(c, m@));
    } else {
        assert(errors.deep_view() =~= errors.deep_view() + msg_if(c, m@));
    }
}

/// Checking and building the registry.
pub struct Registry;

impl Registry {
    /// Every problem with a `rice.toml`, in order; empty when it is valid.
    pub fn validate(t: &RiceToml) -> (r: Vec<String>)
        ensures
            r.deep_view() == validation_errors(*t),
    {
        let mut errors: Vec<String> = Vec::new();
        let id = t.id.as_str();
        push_if(&mut errors, id.is_empty() || has_char(id, ' '), "id must be non-empty and contain no spaces");
        push_if(
            &mut errors,
            !id_chars_ok(id),
            "id must only contain alphanumeric characters, hyphens and underscores",
        );
        push_if(&mut errors, t.name.as_str().is_empty(), "name is required");
        push_if(&mut errors, t.author.as_str().is_empty(), "author is required");
        let dlen = t.description.as_str().unicode_len();
        push_if(&mut errors, dlen < 20, "description must be at least 20 characters");
        push_if(&mut errors, dlen > 300, "description must be at most 300 characters");
        push_if(
            &mut errors,
            !starts_with(t.repo_url.as_str(), "https://github.com/"),
            "repo_url must be a GitHub HTTPS URL",
        );
        let ghost before_wm = errors.deep_view();
        if t.wm.as_str().is_empty() {
            errors.push(String::from_str("wm is required"));
        } else {
            let l = to_lowercase(t.wm.as_str());
            let l = l.as_str();
            let allowed = same_text(l, "hyprland") || same_text(l, "sway") || same_text(l, "i3")
                || same_text(l, "bspwm") || same_text(l, "qtile") || same_text(l, "xmonad")
                || same_text(l, "openbox");
            if !allowed {
                let m = String::from_str("wm '").concat(t.wm.as_str()).concat(
                    "' is not allowed; valid values: hyprland, sway, i3, bspwm, qtile, xmonad, openbox",
                );
                errors.push(m);
            }
        }
        let ghost wm_part = if t.wm@.len() == 0 {
            seq!["wm is required"@]
        } else if !allowed_wm(lowercase(t.wm@)) {
            seq![
                "wm '"@ + t.wm@
                    + "' is not allowed; valid values: hyprland, sway, i3, bspwm, qtile, xmonad, openbox"@,
            ]
        } else {
            Seq::<Seq<char>>::empty()
        };
        assert(errors.deep_view() =~= before_wm + wm_part);
        push_if(&mut errors, t.theme.as_str().is_empty(), "theme is required");
        errors
    }

    /// The index record for a `rice.toml`: its metadata, the window manager
    /// parsed ignoring case (`Unknown` for any other name), the given
    /// screenshots, no stars, no commit and no update time.
    pub fn rice_from_toml(t: RiceToml, screenshots: Vec<String>) -> (r: Rice)
        ensures
            r.id@ == t.id@,
            r.name@ == t.name@,
            r.author@ == t.author@,
            r.description@ == t.description@,
            r.wm == wm_from_lower(lowercase(t.wm@)),
            r.theme@ == t.theme@,
            r.fonts.deep_view() == t.fonts.deep_view(),
            r.dependencies.deep_view() == t.dependencies.deep_view(),
            r.repo_url@ == t.repo_url@,
            r.screenshots.deep_view() == screenshots.deep_view(),
            r.stars == 0,
            r.commit_hash is None,
            r.updated_at is None,
    {
        let wm = match WindowManager::from_str(t.wm.as_str()) {
            Ok(w) => w,
            Err(_) => WindowManager::Unknown,
        };
        Rice {
            id: t.id,
            name: t.name,
            author: t.author,
            description: t.description,
            wm,
            theme: t.theme,
            fonts: t.fonts,
            dependencies: t.dependencies,
            repo_url: t.repo_url,
            screenshots,
            stars: 0,
            commit_hash: None,
            updated_at: None,
        }
    }
}

/// Law: a `rice.toml` that passes validation names a window manager the
/// index knows: the record built from it never has `Unknown`.
pub proof fn lemma_valid_toml_has_known_wm(t: RiceToml)
    requires
        validation_errors(t).len() == 0,
    ensures
        wm_from_lower(lowercase(t.wm@)) != WindowManager::Unknown,
{
    let l = lowercase(t.wm@);
    reveal_strlit("hyprland");
    reveal_strlit("sway");
    reveal_strlit("i3");
    reveal_strlit("bspwm");
    reveal_strlit("qtile");
    reveal_strlit("xmonad");
    reveal_strlit("openbox");
    if t.wm@.len() == 0 || !allowed_wm(l) {
        assert(validation_errors(t).len() > 0);
    }
}

/// Law: a `rice.toml` passes validation exactly when its id is non-empty
/// and holds only letters, digits, `-` and `_`; its name, author and theme
/// are given; its description has 20 to 300 characters; its repository URL
/// begins with `https://github.com/`; and its window manager is, ignoring
/// case, one of hyprland, sway, i3, bspwm, qtile, xmonad, openbox.
pub proof fn lemma_valid_toml_exactly(t: RiceToml)
    ensures
        validation_errors(t).len() == 0 <==> {
            let l = lowercase(t.wm@);
            &&& t.id@.len() > 0
            &&& !t.id@.contains(' ')
            &&& forall|i: int| 0 <= i < t.id@.len() ==> (unicode_alphanumeric(#[trigger] t.id@[i]) || t.id@[i] == '-'
                || t.id@[i] == '_')
            &&& t.name@.len() > 0
            &&& t.author@.len() > 0
            &&& 20 <= t.description@.len() <= 300
            &&& t.repo_url@.len() >= 19 && t.repo_url@.subrange(0, 19) == "https://github.com/"@
            &&& t.wm@.len() > 0
            &&& (l == "hyprland"@ || l == "sway"@ || l == "i3"@ || l == "bspwm"@ || l == "qtile"@ || l == "xmonad"@
                || l == "openbox"@)
            &&& t.theme@.len() > 0
        },
{
    reveal_strlit("https://github.com/");
    reveal_strlit("hyprland");
    reveal_strlit("sway");
    reveal_strlit("i3");
    reveal_strlit("bspwm");
    reveal_strlit("qtile");
    reveal_strlit("xmonad");
    reveal_strlit("openbox");
}

/// An element of a concatenation is an element of one of its parts.
proof fn lemma_contains_concat(a: Seq<Seq<char>>, b: Seq<Seq<char>>, x: Seq<char>)
    ensures
        (a + b).contains(x) <==> a.contains(x) || b.contains(x),
{
    if (a + b).contains(x) {
        let k = choose|k: int| 0 <= k < (a + b).len() && (a + b)[k] == x;
        if k < a.len() {
            assert(a[k] == x);
        } else {
            assert(b[k - a.len()] == x);
        }
    }
    if a.contains(x) {
        let k = choose|k: int| 0 <= k < a.len() && a[k] == x;
        assert((a + b)[k] == x);
    }
    if b.contains(x) {
        let k = choose|k: int| 0 <= k < b.len() && b[k] == x;
        assert((a + b)[a.len() + k] == x);
    }
}

/// A message list made by `msg_if` holds `x` exactly when its condition
/// holds and its message is `x`.
proof fn lemma_contains_msg_if(c: bool, m: Seq<char>, x: Seq<char>)
    ensures
        msg_if(c, m).contains(x) <==> c && m == x,
{
    if c && m == x {
        assert(msg_if(c, m)[0] == x);
    }
}

/// Law: validation reports that the repository URL must be on GitHub
/// exactly when it does not begin with `https://github.com/`.
pub proof fn lemma_repo_url_checked(t: RiceToml)
    ensures
        validation_errors(t).contains("repo_url must be a GitHub HTTPS URL"@) <==> !(t.repo_url@.len() >= 19
            && t.repo_url@.subrange(0, 19) == "https://github.com/"@),
{
    let m = "repo_url must be a GitHub HTTPS URL"@;
    let m1 = "id must be non-empty and contain no spaces"@;
    let m2 = "id must only contain alphanumeric characters, hyphens and underscores"@;
    let m3 = "name is required"@;
    let m4 = "author is required"@;
    let m5 = "description must be at least 20 characters"@;
    let m6 = "description must be at most 300 characters"@;
    let m8 = "theme is required"@;
    let c1 = t.id@.len() == 0 || t.id@.contains(' ');
    let c2 = !(forall|i: int| 0 <= i < t.id@.len() ==> id_char_ok(#[trigger] t.id@[i]));
    let c3 = t.name@.len() == 0;
    let c4 = t.author@.len() == 0;
    let c5 = t.description@.len() < 20;
    let c6 = t.description@.len() > 300;
    let c7 = !has_prefix(t.repo_url@, "https://github.com/"@);
    let c8 = t.theme@.len() == 0;
    let wm_part = if t.wm@.len() == 0 {
        seq!["wm is required"@]
    } else if !allowed_wm(lowercase(t.wm@)) {
        seq![
            "wm '"@ + t.wm@
                + "' is not allowed; valid values: hyprland, sway, i3, bspwm, qtile, xmonad, openbox"@,
        ]
    } else {
        Seq::empty()
    };
    let p1 = msg_if(c1, m1);
    let p2 = p1 + msg_if(c2, m2);
    let p3 = p2 + msg_if(c3, m3);
    let p4 = p3 + msg_if(c4, m4);
    let p5 = p4 + msg_if(c5, m5);
    let p6 = p5 + msg_if(c6, m6);
    let p7 = p6 + msg_if(c7, m);
    let p8 = p7 + wm_part;
    let p9 = p8 + msg_if(c8, m8);
    assert(validation_errors(t) == p9);
    assert(m[0] == 'r') by {
        reveal_strlit("repo_url must be a GitHub HTTPS URL");
    }
    assert(m1[0] == 'i') by {
        reveal_strlit("id must be non-empty and contain no spaces");
    }
    assert(m2[0] == 'i') by {
        reveal_strlit("id must only contain alphanumeric characters, hyphens and underscores");
    }
    assert(m3[0] == 'n') by {
        reveal_strlit("name is required");
    }
    assert(m4[0] == 'a') by {
        reveal_strlit("author is required");
    }
    assert(m5[0] == 'd') by {
        reveal_strlit("description must be at least 20 characters");
    }
    assert(m6[0] == 'd') by {
        reveal_strlit("description must be at most 300 characters");
    }
    assert(m8[0] == 't') by {
        reveal_strlit("theme is required");
    }
    assert(!wm_part.contains(m)) by {
        if wm_part.contains(m) {
            let k = choose|k: int| 0 <= k < wm_part.len() && wm_part[k] == m;
            if t.wm@.len() == 0 {
                assert(wm_part[k] == "wm is required"@);
                reveal_strlit("wm is required");
                assert(wm_part[k][0] == 'w');
            } else {
                reveal_strlit("wm '");
                let w = "wm '"@ + t.wm@
                    + "' is not allowed; valid values: hyprland, sway, i3, bspwm, qtile, xmonad, openbox"@;
                assert(wm_part[k] == w);
                assert(w[0] == ("wm '"@)[0]);
                assert(w[0] == 'w');
            }
        }
    }
    lemma_contains_msg_if(c1, m1, m);
    lemma_contains_msg_if(c2, m2, m);
    lemma_contains_msg_if(c3, m3, m);
    lemma_contains_msg_if(c4, m4, m);
    lemma_contains_msg_if(c5, m5, m);
    lemma_contains_msg_if(c6, m6, m);
    lemma_contains_msg_if(c7, m, m);
    lemma_contains_msg_if(c8, m8, m);
    lemma_contains_concat(p1, msg_if(c2, m2), m);
    lemma_contains_concat(p2, msg_if(c3, m3), m);
    lemma_contains_concat(p3, msg_if(c4, m4), m);
    lemma_contains_concat(p4, msg_if(c5, m5), m);
    lemma_contains_concat(p5, msg_if(c6, m6), m);
    lemma_contains_concat(p6, msg_if(c7, m), m);
    lemma_contains_concat(p7, wm_part, m);
    lemma_contains_concat(p8, msg_if(c8, m8), m);
    assert(has_prefix(t.repo_url@, "https://github.com/"@) <==> (t.repo_url@.len() >= 19
        && t.repo_url@.subrange(0, 19) == "https://github.com/"@)) by {
        reveal_strlit("https://github.com/");
    }
}

// ---------------------------------------------------------------------------
// Ordering the index.

/// Index order: more stars first, then ids in code-point order.
pub open spec fn rank_le(a: RiceView, b: RiceView) -> bool {
    a.stars > b.stars || (a.stars == b.stars && text_le(a.id, b.id))
}

/// Rices tie in index order when they have the same stars and id.
pub open spec fn rank_key(a: RiceView) -> (u32, Seq<char>) {
    (a.stars, a.id)
}

proof fn lemma_rank_order()
    ensures
        keyed_order(|a: RiceView, b: RiceView| rank_le(a, b), |a: RiceView| rank_key(a)),
{
    let le = |a: RiceView, b: RiceView| rank_le(a, b);
    assert forall|a: RiceView, b: RiceView, c: RiceView| #[trigger] le(a, b) && #[trigger] le(b, c) implies le(a, c) by {
        if a.stars == b.stars && b.stars == c.stars {
            if text_lt(a.id, b.id) && text_lt(b.id, c.id) {
                lemma_text_lt_trans(a.id, b.id, c.id);
            }
        }
    }
    assert forall|a: RiceView, b: RiceView| #[trigger] le(a, b) || le(b, a) by {
        lemma_text_order(a.id, b.id);
    }
}

/// The views of a list of rices.
pub open spec fn views_of(s: Seq<Rice>) -> Seq<RiceView> {
    s.map_values(|r: Rice| r@)
}

/// Law: an index in index order has the most starred rices first, and rices
/// with equal stars ordered by id.
pub proof fn lemma_index_order(r: Seq<RiceView>, s: Seq<RiceView>)
    requires
        stable_sorted(r, s, |a: RiceView, b: RiceView| rank_le(a, b), |a: RiceView| rank_key(a)),
    ensures
        forall|i: int, j: int| 0 <= i < j < r.len() ==> r[i].stars >= r[j].stars,
        forall|i: int, j: int| 0 <= i < j < r.len() && r[i].stars == r[j].stars ==> text_le(r[i].id, r[j].id),
{
    assert forall|i: int, j: int| 0 <= i < j < r.len() implies r[i].stars >= r[j].stars by {
        assert(rank_le(r[i], r[j]));
    }
    assert forall|i: int, j: int| 0 <= i < j < r.len() && r[i].stars == r[j].stars implies text_le(r[i].id, r[j].id) by {
        assert(rank_le(r[i], r[j]));
    }
}

impl Registry {
    /// The rices in index order (more stars first, then by id); rices with
    /// the same stars and id keep their relative order.
    pub fn sort_rices(rices: Vec<Rice>) -> (r: Vec<Rice>)
        ensures
            stable_sorted(
                views_of(r@),
                views_of(rices@),
                |a: RiceView, b: RiceView| rank_le(a, b),
                |a: RiceView| rank_key(a),
            ),
    {
        let ghost le = |a: RiceView, b: RiceView| rank_le(a, b);
        let ghost key = |a: RiceView| rank_key(a);
        proof {
            lemma_rank_order();
        }
        let ghost s = views_of(rices@);
        let mut r: Vec<Rice> = Vec::new();
        assert(s.take(0) =~= views_of(r@));
        let mut i: usize = 0;
        while i < rices.len()
            invariant
                s == views_of(rices@),
                i <= s.len(),
                keyed_order(le, key),
                le == |a: RiceView, b: RiceView| rank_le(a, b),
                key == |a: RiceView| rank_key(a),
                stable_sorted(views_of(r@), s.take(i as int), le, key),
            decreases s.len() - i,
        {
            let x = rices[i].duplicate();
            let mut p: usize = 0;
            while p < r.len()
                invariant
                    p <= r@.len(),
                    forall|k: int| 0 <= k < p ==> rank_le(r@[k]@, x@),
                ensures
                    p <= r@.len(),
                    forall|k: int| 0 <= k < p ==> rank_le(r@[k]@, x@),
                    p < r@.len() ==> !rank_le(r@[p as int]@, x@),
                decreases r@.len() - p,
            {
                let y = &r[p];
                let y_first = y.stars > x.stars || (y.stars == x.stars && (same_text(y.id.as_str(), x.id.as_str())
                    || text_less(y.id.as_str(), x.id.as_str())));
                if !y_first {
                    break;
                }
                p = p + 1;
            }
            let ghost rv = views_of(r@);
            proof {
                assert(forall|k: int| 0 <= k < p ==> le(rv[k], x@));
                lemma_insert_stable(rv, s.take(i as int), x@, p as int, le, key);
                assert(s.take(i + 1) =~= s.take(i as int).push(x@));
            }
            r.insert(p, x);
            assert(views_of(r@) =~= rv.insert(p as int, x@));
            i = i + 1;
        }
        assert(s.take(s.len() as int) =~= s);
        r
    }

    /// A new index (version `1`, stamped `now`) holding the rices in index order.
    pub fn build_index_at(rices: Vec<Rice>, now: Timestamp) -> (r: Index)
        ensures
            r.version@ == "1"@,
            r.updated_at == now,
            stable_sorted(
                views_of(r.rices@),
                views_of(rices@),
                |a: RiceView, b: RiceView| rank_le(a, b),
                |a: RiceView| rank_key(a),
            ),
    {
        let sorted = Self::sort_rices(rices);
        Index { version: String::from_str("1"), updated_at: now, rices: sorted }
    }

    /// A new index (version `1`, stamped now) holding the rices in index
    /// order; an error when the clock reads before the Unix epoch.
    pub fn build_index(rices: Vec<Rice>) -> (r: Result<Index, RiceForgeError>)
        ensures
            match r {
                Ok(idx) => idx.version@ == "1"@ && stable_sorted(
                    views_of(idx.rices@),
                    views_of(rices@),
                    |a: RiceView, b: RiceView| rank_le(a, b),
                    |a: RiceView| rank_key(a),
                ),
                Err(e) => e matches RiceForgeError::Io(m) && m@ == clock_error_message(),
            },
    {
        match utc_now() {
            Some(now) => Ok(Self::build_index_at(rices, now)),
            None => Err(clock_error()),
        }
    }
}

// ---------------------------------------------------------------------------
// Screenshots found next to a `rice.toml`.

/// The position of the last `.` in `s`, if any.
pub open spec fn last_dot(s: Seq<char>) -> Option<int>
    decreases s.len(),
{
    if s.len() == 0 {
        None
    } else if s.last() == '.' {
        Some(s.len() - 1)
    } else {
        last_dot(s.drop_last())
    }
}

/// The extension of a file name (`Path::extension`): the text after its
/// last `.`, unless there is no `.`, the only one starts the name, or the
/// name is `..`.
pub open spec fn extension_of(name: Seq<char>) -> Option<Seq<char>> {
    if name == ".."@ {
        None
    } else {
        match last_dot(name) {
            Some(k) => if k == 0 {
                None
            } else {
                Some(name.skip(k + 1))
            },
            None => None,
        }
    }
}

/// The (lower-case) extensions of screenshot images.
pub open spec fn image_ext(l: Seq<char>) -> bool {
    ||| l == "png"@
    ||| l == "jpg"@
    ||| l == "jpeg"@
    ||| l == "webp"@
    ||| l == "gif"@
}

/// A file found in a rice's `screenshots` directory: its name, and its path
/// relative to the registry root when that can be read as text.
pub struct ShotFile {
    pub file_name: String,
    pub rel: Option<String>,
}

/// The value of a `ShotFile`.
pub struct ShotFileView {
    pub file_name: Seq<char>,
    pub rel: Option<Seq<char>>,
}

impl View for ShotFile {
    type V = ShotFileView;

    open spec fn view(&self) -> ShotFileView {
        ShotFileView { file_name: self.file_name@, rel: self.rel.deep_view() }
    }
}

/// A file is a screenshot when its extension, lower-cased, is an image
/// extension and its relative path is known.
pub open spec fn is_shot(f: ShotFileView) -> bool {
    &&& extension_of(f.file_name) matches Some(e) && image_ext(lowercase(e))
    &&& f.rel is Some
}

/// Backslashes turned into slashes.
pub open spec fn forward_slashes(s: Seq<char>) -> Seq<char> {
    s.map_values(|c: char| if c == '\\' { '/' } else { c })
}

/// The URL of a screenshot: `<base>/<relative path>`.
pub open spec fn shot_url(base: Seq<char>, f: ShotFileView) -> Seq<char> {
    base + "/"@ + forward_slashes(f.rel.unwrap())
}

/// The URLs of the screenshots among `files`, in the order found.
pub open spec fn found_shots(files: Seq<ShotFileView>, base: Seq<char>) -> Seq<Seq<char>> {
    files.filter(|f: ShotFileView| is_shot(f)).map_values(|f: ShotFileView| shot_url(base, f))
}

proof fn lemma_last_dot_scan(p: Seq<char>, k: int)
    requires
        0 <= k <= p.len(),
        forall|j: int| k <= j < p.len() ==> p[j] != '.',
    ensures
        k > 0 && p[k - 1] == '.' ==> last_dot(p) == Some(k - 1),
        k == 0 ==> last_dot(p) is None,
    decreases p.len() - k,
{
    if k < p.len() {
        lemma_last_dot_scan(p.drop_last(), k);
    }
}

/// The extension of a file name.
pub fn extension(name: &str) -> (r: Option<String>)
    ensures
        match extension_of(name@) {
            Some(e) => r matches Some(x) && x@ == e,
            None => r is None,
        },
{
    if same_text(name, "..") {
        return None;
    }
    let c = chars_of(name);
    let mut i: usize = c.len();
    while i > 0
        invariant
            c@ == name@,
            i <= c@.len(),
            forall|j: int| i <= j < c@.len() ==> c@[j] != '.',
        ensures
            i <= c@.len(),
            forall|j: int| i <= j < c@.len() ==> c@[j] != '.',
            i > 0 ==> c@[i - 1] == '.',
        decreases i,
    {
        if c[i - 1] == '.' {
            break;
        }
        i = i - 1;
    }
    proof {
        lemma_last_dot_scan(c@, i as int);
    }
    if i <= 1 {
        return None;
    }
    let mut out: Vec<char> = Vec::new();
    let mut k: usize = i;
    while k < c.len()
        invariant
            c@ == name@,
            i <= k <= c@.len(),
            out@ == c@.subrange(i as int, k as int),
        decreases c@.len() - k,
    {
        out.push(c[k]);
        assert(c@.subrange(i as int, k + 1) =~= c@.subrange(i as int, k as int).push(c@[k as int]));
        k = k + 1;
    }
    assert(out@ =~= c@.skip(i as int));
    Some(string_from_chars(&out))
}

/// `s` with backslashes turned into slashes.
pub fn with_forward_slashes(s: &str) -> (r: String)
    ensures
        r@ == forward_slashes(s@),
{
    let c = chars_of(s);
    let mut out: Vec<char> = Vec::new();
    let mut i: usize = 0;
    while i < c.len()
        invariant
            c@ == s@,
            i <= c@.len(),
            out@ == forward_slashes(c@.take(i as int)),
        decreases c@.len() - i,
    {
        let ch = if c[i] == '\\' { '/' } else { c[i] };
        out.push(ch);
        assert(forward_slashes(c@.take(i + 1)) =~= forward_slashes(c@.take(i as int)).push(ch));
        i = i + 1;
    }
    assert(c@.take(i as int) =~= c@);
    string_from_chars(&out)
}

proof fn lemma_text_keyed_order()
    ensures
        keyed_order(|a: Seq<char>, b: Seq<char>| text_le(a, b), |a: Seq<char>| a),
{
    let le = |a: Seq<char>, b: Seq<char>| text_le(a, b);
    assert forall|a: Seq<char>, b: Seq<char>, c: Seq<char>| #[trigger] le(a, b) && #[trigger] le(b, c) implies le(a, c) by {
        if text_lt(a, b) && text_lt(b, c) {
            lemma_text_lt_trans(a, b, c);
        }
    }
    assert forall|a: Seq<char>, b: Seq<char>| #[trigger] le(a, b) || le(b, a) by {
        lemma_text_order(a, b);
    }
}

impl Registry {
    /// Strings in code-point order (the order of `String`'s `Ord`).
    pub fn sort_strings(v: Vec<String>) -> (r: Vec<String>)
        ensures
            stable_sorted(r.deep_view(), v.deep_view(), |a: Seq<char>, b: Seq<char>| text_le(a, b), |a: Seq<char>| a),
    {
        let ghost le = |a: Seq<char>, b: Seq<char>| text_le(a, b);
        let ghost key = |a: Seq<char>| a;
        proof {
            lemma_text_keyed_order();
        }
        let ghost s = v.deep_view();
        let mut r: Vec<String> = Vec::new();
        assert(s.take(0) =~= r.deep_view());
        let mut i: usize = 0;
        while i < v.len()
            invariant
                s == v.deep_view(),
                i <= s.len(),
                keyed_order(le, key),
                le == |a: Seq<char>, b: Seq<char>| text_le(a, b),
                key == |a: Seq<char>| a,
                stable_sorted(r.deep_view(), s.take(i as int), le, key),
            decreases s.len() - i,
        {
            let x = v[i].clone();
            let mut p: usize = 0;
            while p < r.len()
                invariant
                    p <= r@.len(),
                    forall|k: int| 0 <= k < p ==> text_le(r@[k]@, x@),
                ensures
                    p <= r@.len(),
                    forall|k: int| 0 <= k < p ==> text_le(r@[k]@, x@),
                    p < r@.len() ==> !text_le(r@[p as int]@, x@),
                decreases r@.len() - p,
            {
                if !(same_text(r[p].as_str(), x.as_str()) || text_less(r[p].as_str(), x.as_str())) {
                    break;
                }
                p = p + 1;
            }
            let ghost rv = r.deep_view();
            proof {
                assert(forall|k: int| 0 <= k < p ==> le(rv[k], x@));
                lemma_insert_stable(rv, s.take(i as int), x@, p as int, le, key);
                assert(s.take(i + 1) =~= s.take(i as int).push(x@));
            }
            r.insert(p, x);
            assert(r.deep_view() =~= rv.insert(p as int, x@));
            i = i + 1;
        }
        assert(s.take(s.len() as int) =~= s);
        r
    }

    /// The screenshot list of a rice: the URLs (`<base>/<relative path>`) of
    /// the images found in its `screenshots` directory, in code-point order,
    /// followed by the screenshots its `rice.toml` declares.
    pub fn screenshot_urls(base: &str, files: &Vec<ShotFile>, declared: Vec<String>) -> (r: Vec<String>)
        ensures
            ({
                let found = found_shots(files@.map_values(|f: ShotFile| f@), base@);
                &&& r@.len() == found.len() + declared@.len()
                &&& stable_sorted(
                    r.deep_view().take(found.len() as int),
                    found,
                    |a: Seq<char>, b: Seq<char>| text_le(a, b),
                    |a: Seq<char>| a,
                )
                &&& r.deep_view().skip(found.len() as int) == declared.deep_view()
            }),
    {
        let ghost fv = files@.map_values(|f: ShotFile| f@);
        let ghost pred = |f: ShotFileView| is_shot(f);
        let ghost url = |f: ShotFileView| shot_url(base@, f);
        let mut found: Vec<String> = Vec::new();
        let mut i: usize = 0;
        while i < files.len()
            invariant
                fv == files@.map_values(|f: ShotFile| f@),
                pred == |f: ShotFileView| is_shot(f),
                url == |f: ShotFileView| shot_url(base@, f),
                i <= fv.len(),
                found.deep_view() == fv.take(i as int).filter(pred).map_values(url),
            decreases fv.len() - i,
        {
            let f = &files[i];
            proof {
                assert(fv.take(i + 1) =~= fv.take(i as int).push(f@));
                fv.take(i as int).lemma_filter_push(f@, pred);
            }
            let image = match extension(f.file_name.as_str()) {
                Some(e) => {
                    let l = to_lowercase(e.as_str());
                    let l = l.as_str();
                    same_text(l, "png") || same_text(l, "jpg") || same_text(l, "jpeg") || same_text(l, "webp")
                        || same_text(l, "gif")
                },
                None => false,
            };
            match &f.rel {
                Some(rel) => {
                    if image {
                        let mut u = String::from_str(base);
                        push_char(&mut u, '/');
                        let fixed = with_forward_slashes(rel.as_str());
                        let u = u.concat(fixed.as_str());
                        proof {
                            reveal_strlit("/");
                            assert(u@ =~= url(f@));
                        }
                        let ghost f0 = found.deep_view();
                        found.push(u);
                        assert(found.deep_view() =~= f0.push(url(f@)));
                        assert(fv.take(i as int).filter(pred).push(f@).map_values(url) =~= f0.push(url(f@)));
                    }
                },
                None => {},
            }
            i = i + 1;
        }
        assert(fv.take(i as int) =~= fv);
        let ghost found_spec = found.deep_view();
        let mut sorted = Self::sort_strings(found);
        let ghost n = sorted@.len();
        assert(sorted.deep_view().take(n as int) =~= sorted.deep_view());
        assert(sorted.deep_view().skip(n as int) =~= declared.deep_view().take(0));
        let mut j: usize = 0;
        while j < declared.len()
            invariant
                n <= sorted@.len(),
                sorted@.len() == n + j,
                j <= declared@.len(),
                stable_sorted(
                    sorted.deep_view().take(n as int),
                    found_spec,
                    |a: Seq<char>, b: Seq<char>| text_le(a, b),
                    |a: Seq<char>| a,
                ),
                sorted.deep_view().skip(n as int) == declared.deep_view().take(j as int),
            decreases declared@.len() - j,
        {
            let ghost before = sorted.deep_view();
            sorted.push(declared[j].clone());
            assert(sorted.deep_view().take(n as int) =~= before.take(n as int));
            assert(sorted.deep_view().skip(n as int) =~= declared.deep_view().take(j + 1));
            j = j + 1;
        }
        assert(declared.deep_view().take(j as int) =~= declared.deep_view());
        sorted
    }
}

// ---------------------------------------------------------------------------
// GitHub.

/// `s` without its trailing slashes.
pub open spec fn trim_end_slashes(s: Seq<char>) -> Seq<char>
    decreases s.len(),
{
    if s.len() > 0 && s.last() == '/' {
        trim_end_slashes(s.drop_last())
    } else {
        s
    }
}

/// Every occurrence of `pat` in `s`, scanning left to right without
/// overlap, replaced by `to` (`str::replace`, for a non-empty `pat`).
pub open spec fn replace_all(s: Seq<char>, pat: Seq<char>, to: Seq<char>) -> Seq<char>
    decreases s.len(),
{
    if s.len() == 0 {
        s
    } else if pat.len() > 0 && has_prefix(s, pat) {
        to + replace_all(s.skip(pat.len() as int), pat, to)
    } else {
        seq![s[0]] + replace_all(s.drop_first(), pat, to)
    }
}

/// The GitHub API address of a repository URL: trailing slashes dropped,
/// then `https://github.com/` replaced by `https://api.github.com/repos/`.
pub open spec fn api_url(repo_url: Seq<char>) -> Seq<char> {
    replace_all(trim_end_slashes(repo_url), "https://github.com/"@, "https://api.github.com/repos/"@)
}

proof fn lemma_trim_scan(s: Seq<char>, k: int)
    requires
        0 <= k <= s.len(),
        forall|j: int| k <= j < s.len() ==> s[j] == '/',
        k == 0 || s[k - 1] != '/',
    ensures
        trim_end_slashes(s) == s.take(k),
    decreases s.len() - k,
{
    if k < s.len() {
        lemma_trim_scan(s.drop_last(), k);
        assert(s.drop_last().take(k) =~= s.take(k));
    } else {
        assert(s.take(k) =~= s);
    }
}

/// Whether `hay[at..]` begins with `pat`.
fn prefix_at(hay: &Vec<char>, pat: &Vec<char>, at: usize) -> (r: bool)
    requires
        at <= hay@.len(),
    ensures
        r == has_prefix(hay@.skip(at as int), pat@),
{
    let hl = hay.len();
    if pat.len() > hl - at {
        return false;
    }
    let mut j: usize = 0;
    while j < pat.len()
        invariant
            hl == hay@.len(),
            at + pat@.len() <= hay@.len(),
            j <= pat@.len(),
            forall|k: int| 0 <= k < j ==> hay@[at + k] == pat@[k],
        decreases pat@.len() - j,
    {
        if hay[at + j] != pat[j] {
            assert(hay@.skip(at as int).subrange(0, pat@.len() as int)[j as int] != pat@[j as int]);
            return false;
        }
        j = j + 1;
    }
    assert(hay@.skip(at as int).subrange(0, pat@.len() as int) =~= pat@);
    true
}

impl Registry {
    /// The GitHub API address of a repository URL.
    pub fn github_api_url(repo_url: &str) -> (r: String)
        ensures
            r@ == api_url(repo_url@),
    {
        let c = chars_of(repo_url);
        let mut end = c.len();
        while end > 0 && c[end - 1] == '/'
            invariant
                c@ == repo_url@,
                end <= c@.len(),
                forall|j: int| end <= j < c@.len() ==> c@[j] == '/',
            decreases end,
        {
            end = end - 1;
        }
        proof {
            lemma_trim_scan(c@, end as int);
        }
        let ghost t = c@.take(end as int);
        let pat = chars_of("https://github.com/");
        let to = chars_of("https://api.github.com/repos/");
        let mut out: Vec<char> = Vec::new();
        let mut i: usize = 0;
        assert(t.skip(0) =~= t);
        while i < end
            invariant
                c@ == repo_url@,
                end <= c@.len(),
                t == c@.take(end as int),
                pat@ == "https://github.com/"@,
                to@ == "https://api.github.com/repos/"@,
                i <= end,
                replace_all(t, pat@, to@) == out@ + replace_all(t.skip(i as int), pat@, to@),
            decreases end - i,
        {
            let ghost tail = t.skip(i as int);
            let ghost o0 = out@;
            proof {
                assert(tail.len() > 0);
                assert(pat@.len() > 0) by {
                    reveal_strlit("https://github.com/");
                }
            }
            let hit = pat.len() <= end - i && prefix_at(&c, &pat, i);
            proof {
                if pat@.len() <= end - i {
                    assert(c@.skip(i as int).subrange(0, pat@.len() as int) =~= tail.subrange(0, pat@.len() as int));
                }
            }
            if hit {
                let mut k: usize = 0;
                while k < to.len()
                    invariant
                        out@ == o0 + to@.take(k as int),
                        k <= to@.len(),
                    decreases to@.len() - k,
                {
                    out.push(to[k]);
                    assert(to@.take(k + 1) =~= to@.take(k as int).push(to@[k as int]));
                    k = k + 1;
                }
                assert(to@.take(k as int) =~= to@);
                assert(t.skip(i as int).skip(pat@.len() as int) =~= t.skip(i + pat@.len()));
                assert(has_prefix(tail, pat@));
                i = i + pat.len();
            } else {
                out.push(c[i]);
                assert(tail.drop_first() =~= t.skip(i + 1));
                assert(tail[0] == c@[i as int]);
                i = i + 1;
            }
            assert(replace_all(t, pat@, to@) == out@ + replace_all(t.skip(i as int), pat@, to@));
        }
        assert(t.skip(i as int).len() == 0);
        assert(out@ + t.skip(i as int) =~= out@);
        string_from_chars(&out)
    }

    /// The arguments of the `curl` command that asks the GitHub API about a
    /// repository: silent, failing on HTTP errors, a 10-second connection
    /// timeout, GitHub's JSON media type, the token (when there is one) as a
    /// bearer authorization, then the API address.
    pub fn stars_request_args(api: &str, token: Option<&str>) -> (r: Vec<String>)
        ensures
            arg_views(r@) == seq!["-sf"@, "--connect-timeout"@, "10"@, "-H"@, "Accept: application/vnd.github+json"@]
                + match token {
                Some(t) => seq!["-H"@, "Authorization: Bearer "@ + t@],
                None => Seq::<Seq<char>>::empty(),
            } + seq![api@],
    {
        let mut r = vec![
            String::from_str("-sf"),
            String::from_str("--connect-timeout"),
            String::from_str("10"),
            String::from_str("-H"),
            String::from_str("Accept: application/vnd.github+json"),
        ];
        let ghost head = seq!["-sf"@, "--connect-timeout"@, "10"@, "-H"@, "Accept: application/vnd.github+json"@];
        assert(arg_views(r@) =~= head);
        match token {
            Some(t) => {
                r.push(String::from_str("-H"));
                r.push(String::from_str("Authorization: Bearer ").concat(t));
                assert(arg_views(r@) =~= head + seq!["-H"@, "Authorization: Bearer "@ + t@]);
            },
            None => {
                assert(arg_views(r@) =~= head + Seq::<Seq<char>>::empty());
            },
        }
        let ghost before = arg_views(r@);
        r.push(String::from_str(api));
        assert(arg_views(r@) =~= before + seq![api@]);
        r
    }

    /// Where the `rice.toml` of an entry of the registry directory is: inside
    /// it for a directory (`true`: screenshots may sit beside it), the entry
    /// itself for a file with extension `toml` (`false`); any other entry is
    /// skipped.
    pub fn toml_source(path: &str, is_dir: bool) -> (r: Option<(String, bool)>)
        ensures
            is_dir ==> (r matches Some((p, true)) && p@ == path_join(path@, "rice.toml"@)),
            !is_dir && extension_of(file_name(path@)) == Some("toml"@) ==> (r matches Some((p, false)) && p@ == path@),
            !is_dir && extension_of(file_name(path@)) != Some("toml"@) ==> r is None,
    {
        if is_dir {
            return Some((join(path, "rice.toml"), true));
        }
        let name = file_name_of(path);
        match extension(name.as_str()) {
            Some(e) => {
                if same_text(e.as_str(), "toml") {
                    Some((to_owned_string(path), false))
                } else {
                    None
                }
            },
            None => None,
        }
    }

    /// The summary of a failed validation: how many problems were found.
    pub fn validation_summary(count: usize) -> (r: String)
        ensures
            r@ == decimal(count as nat) + " validation errors"@,
    {
        decimal_text(count).concat(" validation errors")
    }

    /// A star count as recorded in the index (the low 32 bits of GitHub's count).
    pub fn stars_from_count(count: u64) -> (r: u32)
        ensures
            r as int == count as int % 0x1_0000_0000,
    {
        let r = (count % 0x1_0000_0000) as u32;
        r
    }
}

} // verus!
