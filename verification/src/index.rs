//! Looking rices up in the registry index.

use vstd::prelude::*;
use crate::models::{Index, Rice, RiceView, WindowManager};
use vstd::string::StringExecFns;
use crate::error::RiceForgeError;
use crate::git::arg_views;
use crate::text::{contains, is_substring, lowercase, same_text, to_lowercase};

verus! {

/// The registry, searched in memory. Fetching and caching the index file
/// is the caller's work.
pub struct IndexManager;

/// The views of a list of rices.
pub open spec fn rice_views(rices: Seq<Rice>) -> Seq<RiceView> {
    rices.map_values(|r: Rice| r@)
}

/// `r` answers the (already lower-cased) free-text query `q`: `q` is empty,
/// or occurs in the lower-cased id, name, author, description or theme.
pub open spec fn query_matches(r: RiceView, q: Seq<char>) -> bool {
    ||| q.len() == 0
    ||| is_substring(q, lowercase(r.id))
    ||| is_substring(q, lowercase(r.name))
    ||| is_substring(q, lowercase(r.author))
    ||| is_substring(q, lowercase(r.description))
    ||| is_substring(q, lowercase(r.theme))
}

/// `r` passes a search: the query matches (ignoring case), the window
/// manager is the one asked for (if any), and the lower-cased theme filter
/// (if any) occurs in the lower-cased theme.
pub open spec fn search_matches(
    r: RiceView,
    query: Seq<char>,
    wm: Option<WindowManager>,
    theme: Option<Seq<char>>,
) -> bool {
    &&& query_matches(r, lowercase(query))
    &&& (wm matches Some(w) ==> r.wm == w)
    &&& (theme matches Some(t) ==> is_substring(lowercase(t), lowercase(r.theme)))
}

/// The search results: the matching rices, in index order.
pub open spec fn search_spec(
    rices: Seq<RiceView>,
    query: Seq<char>,
    wm: Option<WindowManager>,
    theme: Option<Seq<char>>,
) -> Seq<RiceView> {
    rices.filter(|r: RiceView| search_matches(r, query, wm, theme))
}

/// The position of the first rice whose id is `id`, if there is one.
pub open spec fn first_with_id(rices: Seq<RiceView>, id: Seq<char>) -> Option<int>
    decreases rices.len(),
{
    if rices.len() == 0 {
        None
    } else if rices[0].id == id {
        Some(0)
    } else {
        match first_with_id(rices.drop_first(), id) {
            Some(i) => Some(i + 1),
            None => None,
        }
    }
}

proof fn lemma_first_with_id(rices: Seq<RiceView>, id: Seq<char>, k: int)
    requires
        0 <= k <= rices.len(),
        forall|j: int| 0 <= j < k ==> rices[j].id != id,
    ensures
        k < rices.len() && rices[k].id == id ==> first_with_id(rices, id) == Some(k),
        k == rices.len() ==> first_with_id(rices, id) is None,
    decreases k,
{
    if k > 0 {
        let tail = rices.drop_first();
        lemma_first_with_id(tail, id, k - 1);
    } else if rices.len() > 0 {
    }
}

proof fn lemma_first_with_id_found(rices: Seq<RiceView>, id: Seq<char>)
    ensures
        first_with_id(rices, id) matches Some(i) ==> 0 <= i < rices.len() && rices[i].id == id
            && forall|j: int| 0 <= j < i ==> rices[j].id != id,
        first_with_id(rices, id) is None ==> forall|j: int| 0 <= j < rices.len() ==> rices[j].id != id,
    decreases rices.len(),
{
    if rices.len() > 0 {
        lemma_first_with_id_found(rices.drop_first(), id);
        if rices[0].id != id {
            assert forall|j: int| 1 <= j < rices.len() implies rices[j] == rices.drop_first()[j - 1] by {}
        }
    }
}

fn rice_matches(
    r: &Rice,
    q: &str,
    wm: Option<&WindowManager>,
    theme_low: &Option<String>,
) -> (b: bool)
    ensures
        b == (query_matches(r@, q@) && (wm matches Some(w) ==> r.wm == *w) && (*theme_low matches Some(t) ==> is_substring(t@, lowercase(r.theme@)))),
{
    let matches_query = q.is_empty() || contains(to_lowercase(r.id.as_str()).as_str(), q)
        || contains(to_lowercase(r.name.as_str()).as_str(), q)
        || contains(to_lowercase(r.author.as_str()).as_str(), q)
        || contains(to_lowercase(r.description.as_str()).as_str(), q)
        || contains(to_lowercase(r.theme.as_str()).as_str(), q);
    let matches_wm = match wm {
        None => true,
        Some(w) => r.wm == *w,
    };
    let matches_theme = match theme_low {
        None => true,
        Some(t) => contains(to_lowercase(r.theme.as_str()).as_str(), t.as_str()),
    };
    matches_query && matches_wm && matches_theme
}

/// Where the registry index is published.
pub const INDEX_URL: &'static str = "https://raw.githubusercontent.com/riceforge/riceforge-index/main/index.json";

impl IndexManager {
    /// The arguments of the `curl` command that downloads the index: silent,
    /// failing on HTTP errors, giving up on connecting after 15 seconds.
    pub fn fetch_args() -> (r: Vec<String>)
        ensures
            arg_views(r@) == seq!["-sf"@, "--connect-timeout"@, "15"@, INDEX_URL@],
    {
        let r = vec![
            String::from_str("-sf"),
            String::from_str("--connect-timeout"),
            String::from_str("15"),
            String::from_str(INDEX_URL),
        ];
        assert(arg_views(r@) =~= seq!["-sf"@, "--connect-timeout"@, "15"@, INDEX_URL@]);
        r
    }

    /// The error when `curl` could not be started.
    pub fn fetch_launch_error(detail: &str) -> (r: RiceForgeError)
        ensures
            r matches RiceForgeError::Http(m) && m@ == "curl not found: "@ + detail@,
    {
        RiceForgeError::Http(String::from_str("curl not found: ").concat(detail))
    }

    /// The error when `curl` exited with `status` other than success.
    pub fn fetch_failure(status: &str) -> (r: RiceForgeError)
        ensures
            r matches RiceForgeError::Http(m) && m@ == "curl failed ("@ + status@ + "). Check your internet connection."@,
    {
        RiceForgeError::Http(
            String::from_str("curl failed (").concat(status).concat("). Check your internet connection."),
        )
    }

    /// Whether the cached index can be loaded: it must have been downloaded
    /// before.
    pub fn require_cache(cache_exists: bool) -> (r: Result<(), RiceForgeError>)
        ensures
            cache_exists ==> r is Ok,
            !cache_exists ==> (r matches Err(RiceForgeError::NotFound(m)) && m@ == "no cached index — run 'riceforge update' first"@),
    {
        if cache_exists {
            Ok(())
        } else {
            Err(RiceForgeError::NotFound(String::from_str("no cached index — run 'riceforge update' first")))
        }
    }

    /// The first rice of the index whose id is `id`, copied.
    pub fn find(index: &Index, id: &str) -> (r: Option<Rice>)
        ensures
            match first_with_id(rice_views(index.rices@), id@) {
                Some(i) => r matches Some(rice) && rice@ == index.rices@[i]@,
                None => r is None,
            },
    {
        let ghost views = rice_views(index.rices@);
        let mut i: usize = 0;
        while i < index.rices.len()
            invariant
                views == rice_views(index.rices@),
                i <= index.rices@.len(),
                forall|j: int| 0 <= j < i ==> views[j].id != id@,
            decreases index.rices@.len() - i,
        {
            if same_text(index.rices[i].id.as_str(), id) {
                proof {
                    lemma_first_with_id(views, id@, i as int);
                }
                return Some(index.rices[i].duplicate());
            }
            i = i + 1;
        }
        proof {
            lemma_first_with_id(views, id@, i as int);
        }
        None
    }

    /// The rices matching a search, in index order. The query is compared,
    /// ignoring case, with the id, name, author, description and theme (an
    /// empty query matches every rice); `wm` keeps only rices for that window
    /// manager; `theme` keeps only rices whose theme contains it, ignoring case.
    pub fn search<'a>(
        index: &'a Index,
        query: &str,
        wm: Option<&WindowManager>,
        theme: Option<&str>,
    ) -> (r: Vec<&'a Rice>)
        ensures
            r@.map_values(|x: &Rice| x@) == search_spec(
                rice_views(index.rices@),
                query@,
                match wm {
                    Some(w) => Some(*w),
                    None => None,
                },
                match theme {
                    Some(t) => Some(t@),
                    None => None,
                },
            ),
            query@.len() == 0 && wm is None && theme is None ==> r@.map_values(|x: &Rice| x@) == rice_views(
                index.rices@,
            ),
    {
        let q = to_lowercase(query);
        let theme_low: Option<String> = match theme {
            Some(t) => Some(to_lowercase(t)),
            None => None,
        };
        let ghost wm_v: Option<WindowManager> = match wm {
            Some(w) => Some(*w),
            None => None,
        };
        let ghost theme_v: Option<Seq<char>> = match theme {
            Some(t) => Some(t@),
            None => None,
        };
        let ghost views = rice_views(index.rices@);
        let ghost pred = |x: RiceView| search_matches(x, query@, wm_v, theme_v);
        let mut res: Vec<&'a Rice> = Vec::new();
        let mut i: usize = 0;
        while i < index.rices.len()
            invariant
                views == rice_views(index.rices@),
                i <= index.rices@.len(),
                q@ == lowercase(query@),
                theme_low matches Some(t) ==> theme_v matches Some(tv) && t@ == lowercase(tv),
                theme_low is None ==> theme_v is None,
                wm_v == match wm {
                    Some(w) => Some(*w),
                    None => None::<WindowManager>,
                },
                pred == |x: RiceView| search_matches(x, query@, wm_v, theme_v),
                res@.map_values(|x: &Rice| x@) == views.take(i as int).filter(pred),
            decreases index.rices@.len() - i,
        {
            let r = &index.rices[i];
            let keep = rice_matches(r, q.as_str(), wm, &theme_low);
            proof {
                assert(views.take(i + 1) =~= views.take(i as int).push(views[i as int]));
                views.take(i as int).lemma_filter_push(views[i as int], pred);
                assert(keep == pred(views[i as int]));
            }
            if keep {
                res.push(r);
                assert(res@.map_values(|x: &Rice| x@) =~= views.take(i as int).filter(pred).push(views[i as int]));
            }
            i = i + 1;
        }
        assert(views.take(i as int) =~= views);
        proof {
            if query@.len() == 0 && wm is None && theme is None {
                assert(crate::text::all_ascii(query@));
                assert(q@.len() == 0);
                assert forall|j: int| 0 <= j < views.len() implies pred(views[j]) by {
                    assert(query_matches(views[j], lowercase(query@)));
                }
                lemma_filter_all(views, pred);
            }
        }
        res
    }
}

/// Law: every search result is a rice of the index that passes the search.
pub proof fn lemma_search_results_match(
    rices: Seq<RiceView>,
    query: Seq<char>,
    wm: Option<WindowManager>,
    theme: Option<Seq<char>>,
)
    ensures
        forall|k: int|
            0 <= k < search_spec(rices, query, wm, theme).len() ==> search_matches(
                #[trigger] search_spec(rices, query, wm, theme)[k],
                query,
                wm,
                theme,
            ) && rices.contains(search_spec(rices, query, wm, theme)[k]),
        search_spec(rices, query, wm, theme).len() <= rices.len(),
{
    broadcast use vstd::seq_lib::group_filter_ensures;

    let p = |r: RiceView| search_matches(r, query, wm, theme);
    assert forall|k: int| 0 <= k < rices.filter(p).len() implies search_matches(#[trigger] rices.filter(p)[k], query, wm, theme)
        && rices.contains(rices.filter(p)[k]) by {
        assert(p(rices.filter(p)[k]));
        assert(rices.filter(p).contains(rices.filter(p)[k]));
        rices.lemma_filter_contains_rev(p, rices.filter(p)[k]);
    }
}

/// Law: a rice that `find` returns has the id asked for, and no earlier
/// rice of the index has it.
pub proof fn lemma_find_has_id(rices: Seq<RiceView>, id: Seq<char>)
    ensures
        first_with_id(rices, id) matches Some(i) ==> 0 <= i < rices.len() && rices[i].id == id
            && forall|j: int| 0 <= j < i ==> rices[j].id != id,
        first_with_id(rices, id) is None ==> forall|j: int| 0 <= j < rices.len() ==> rices[j].id != id,
{
    lemma_first_with_id_found(rices, id);
}

/// Filtering by `p`, then by `q`, is filtering by a predicate that holds
/// exactly when both do.
proof fn lemma_filter_then(s: Seq<RiceView>, p: spec_fn(RiceView) -> bool, q: spec_fn(RiceView) -> bool, pq: spec_fn(RiceView) -> bool)
    requires
        forall|x: RiceView| #[trigger] pq(x) == (p(x) && q(x)),
    ensures
        s.filter(p).filter(q) == s.filter(pq),
    decreases s.len(),
{
    if s.len() > 0 {
        let init = s.drop_last();
        let x = s.last();
        lemma_filter_then(init, p, q, pq);
        assert(s == init.push(x));
        init.lemma_filter_push(x, p);
        init.lemma_filter_push(x, pq);
        init.filter(p).lemma_filter_push(x, q);
    } else {
        reveal(Seq::filter);
        assert(s.filter(p) =~= s);
        assert(s.filter(p).filter(q) =~= s);
    }
}

/// Filtering by predicates that agree everywhere gives the same result.
proof fn lemma_filter_same(s: Seq<RiceView>, p: spec_fn(RiceView) -> bool, q: spec_fn(RiceView) -> bool)
    requires
        forall|x: RiceView| #[trigger] p(x) == q(x),
    ensures
        s.filter(p) == s.filter(q),
{
    assert(p =~= q);
}

/// Law: searching with a window-manager filter gives the results of the
/// same search without it that are for that window manager, in order.
pub proof fn lemma_search_wm_filter(
    rices: Seq<RiceView>,
    query: Seq<char>,
    wm: WindowManager,
    theme: Option<Seq<char>>,
)
    ensures
        search_spec(rices, query, Some(wm), theme) == search_spec(rices, query, None, theme).filter(
            |r: RiceView| r.wm == wm,
        ),
{
    lemma_filter_then(
        rices,
        |r: RiceView| search_matches(r, query, None, theme),
        |r: RiceView| r.wm == wm,
        |r: RiceView| search_matches(r, query, Some(wm), theme),
    );
}

/// Law: searching with a theme filter gives the results of the same
/// search without it whose theme contains the filter, ignoring case.
pub proof fn lemma_search_theme_filter(
    rices: Seq<RiceView>,
    query: Seq<char>,
    wm: Option<WindowManager>,
    theme: Seq<char>,
)
    ensures
        search_spec(rices, query, wm, Some(theme)) == search_spec(rices, query, wm, None).filter(
            |r: RiceView| is_substring(lowercase(theme), lowercase(r.theme)),
        ),
{
    lemma_filter_then(
        rices,
        |r: RiceView| search_matches(r, query, wm, None),
        |r: RiceView| is_substring(lowercase(theme), lowercase(r.theme)),
        |r: RiceView| search_matches(r, query, wm, Some(theme)),
    );
}

/// Law: a search with an empty query and no filters gives every rice of
/// the index, in order. (The empty query lower-cases to itself, which
/// `to_lowercase` states of every all-ASCII string.)
pub proof fn lemma_empty_search_is_everything(rices: Seq<RiceView>)
    requires
        lowercase(Seq::<char>::empty()) == Seq::<char>::empty(),
    ensures
        search_spec(rices, Seq::empty(), None, None) == rices,
{
    let pred = |r: RiceView| search_matches(r, Seq::empty(), None, None);
    assert forall|j: int| 0 <= j < rices.len() implies pred(rices[j]) by {
        assert(query_matches(rices[j], lowercase(Seq::<char>::empty())));
    }
    lemma_filter_all(rices, pred);
}

/// Law: a search without filters finds a rice exactly when the lower-cased
/// query is empty or occurs in its lower-cased id, name, author,
/// description or theme.
pub proof fn lemma_search_fields(rices: Seq<RiceView>, query: Seq<char>, r: RiceView)
    requires
        rices.contains(r),
    ensures
        search_spec(rices, query, None, None).contains(r) <==> {
            let q = lowercase(query);
            ||| q.len() == 0
            ||| is_substring(q, lowercase(r.id))
            ||| is_substring(q, lowercase(r.name))
            ||| is_substring(q, lowercase(r.author))
            ||| is_substring(q, lowercase(r.description))
            ||| is_substring(q, lowercase(r.theme))
        },
{
    broadcast use vstd::seq_lib::group_filter_ensures;

    let p = |x: RiceView| search_matches(x, query, None, None);
    let k = choose|k: int| 0 <= k < rices.len() && rices[k] == r;
    if p(r) {
        rices.lemma_filter_contains(p, k);
    }
    if rices.filter(p).contains(r) {
        rices.lemma_filter_contains_rev(p, r);
        let j = choose|j: int| 0 <= j < rices.filter(p).len() && rices.filter(p)[j] == r;
        assert(p(rices.filter(p)[j]));
    }
}

/// Law: every result of a search passes each given filter: it is for the
/// window manager asked for, and its lower-cased theme contains the
/// lower-cased theme filter; and it answers the query in one of its fields.
pub proof fn lemma_search_results_pass_filters(
    rices: Seq<RiceView>,
    query: Seq<char>,
    wm: Option<WindowManager>,
    theme: Option<Seq<char>>,
    r: RiceView,
)
    requires
        search_spec(rices, query, wm, theme).contains(r),
    ensures
        rices.contains(r),
        wm matches Some(w) ==> r.wm == w,
        theme matches Some(t) ==> is_substring(lowercase(t), lowercase(r.theme)),
        ({
            let q = lowercase(query);
            ||| q.len() == 0
            ||| is_substring(q, lowercase(r.id))
            ||| is_substring(q, lowercase(r.name))
            ||| is_substring(q, lowercase(r.author))
            ||| is_substring(q, lowercase(r.description))
            ||| is_substring(q, lowercase(r.theme))
        }),
{
    broadcast use vstd::seq_lib::group_filter_ensures;

    let p = |x: RiceView| search_matches(x, query, wm, theme);
    rices.lemma_filter_contains_rev(p, r);
    let j = choose|j: int| 0 <= j < rices.filter(p).len() && rices.filter(p)[j] == r;
    assert(p(rices.filter(p)[j]));
}

/// Law: queries that lower-case alike (for ASCII queries, those that differ
/// only in the case of letters, as `to_lowercase` states) give the same
/// results.
pub proof fn lemma_search_ignores_query_case(
    rices: Seq<RiceView>,
    q1: Seq<char>,
    q2: Seq<char>,
    wm: Option<WindowManager>,
    theme: Option<Seq<char>>,
)
    requires
        lowercase(q1) == lowercase(q2),
    ensures
        search_spec(rices, q1, wm, theme) == search_spec(rices, q2, wm, theme),
{
    lemma_filter_same(
        rices,
        |r: RiceView| search_matches(r, q1, wm, theme),
        |r: RiceView| search_matches(r, q2, wm, theme),
    );
}

proof fn lemma_filter_all(s: Seq<RiceView>, pred: spec_fn(RiceView) -> bool)
    requires
        forall|j: int| 0 <= j < s.len() ==> pred(s[j]),
    ensures
        s.filter(pred) == s,
    decreases s.len(),
{
    reveal(Seq::filter);
    if s.len() > 0 {
        lemma_filter_all(s.drop_last(), pred);
        assert(s.drop_last().push(s.last()) =~= s);
    }
}

} // verus!
