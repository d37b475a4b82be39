//! Paths of documentation pages, in URLs and inside the archives that hold the pages.
use crate::text::{
    contains_char, ends_with_char, join, joined, last_index, lemma_last_index, lemma_pieces,
    lemma_pieces_of_joined, lemma_single_piece, maybe_str, pieces, rfind, same_text, split, starts_with_char, strip_suffix, texts,
};
use vstd::prelude::*;
use vstd::string::{StrSliceExecFns, StringExecFns};

verus! {

/// The file that a folder is shown as.
pub open spec fn index_html() -> Seq<char> {
    "index.html"@
}

/// What follows the last dot of `path`, where that is a file extension: no slash comes behind
/// the dot.
pub open spec fn file_extension(path: Seq<char>) -> Option<Seq<char>> {
    match last_index(path, '.') {
        Some(i) if !path.skip(i + 1).contains('/') => Some(path.skip(i + 1)),
        _ => None,
    }
}

/// The extension of the file that `path` leads to. There is none in `foo.html/bar`.
pub fn get_file_extension(path: &str) -> (r: Option<&str>)
    ensures
        maybe_str(r) == file_extension(path@),
{
    match rfind(path, '.') {
        Some(i) => {
            let n: usize = path.unicode_len();
            let ext: &str = path.substring_char(i + 1, n);
            assert(ext@ =~= path@.skip(i + 1));
            if contains_char(ext, '/') {
                None
            } else {
                Some(ext)
            }
        },
        None => None,
    }
}

/// Whether `path` is that of a folder.
pub open spec fn is_folder(path: Seq<char>) -> bool {
    path.len() == 0 || path.last() == '/'
}

/// Whether a path is that of a folder: it is empty or ends in a slash.
pub fn path_is_folder(path: &str) -> (r: bool)
    ensures
        r == is_folder(path@),
{
    path.is_empty() || ends_with_char(path, '/')
}

/// The page inside a target's documentation: the one that was asked for or, where a crate's name
/// is known and nothing but an index was asked for, the folder of that name.
pub open spec fn page_or_default(
    target_name: Option<Seq<char>>,
    inner_path: Option<Seq<char>>,
) -> Seq<char> {
    match (target_name, inner_path) {
        (Some(_), Some(p)) if p.len() > 0 && p != index_html() => p,
        (Some(name), _) => name + "/"@,
        (None, Some(p)) => p,
        (None, None) => Seq::empty(),
    }
}

/// The page behind the folder of its target. The default target has no folder of its own.
pub open spec fn under_target(
    default_target: Option<Seq<char>>,
    doc_target: Option<Seq<char>>,
    page: Seq<char>,
) -> Seq<char> {
    match doc_target {
        Some(t) if default_target != Some(t) => t + "/"@ + page,
        _ => page,
    }
}

/// `path` with the name of an index file cut off.
pub open spec fn without_index(path: Seq<char>) -> Seq<char> {
    if path == index_html() {
        Seq::empty()
    } else if "/index.html"@.is_suffix_of(path) {
        path.take(path.len() - index_html().len())
    } else {
        path
    }
}

/// The path of a page in a URL.
pub open spec fn rustdoc_path(
    target_name: Option<Seq<char>>,
    default_target: Option<Seq<char>>,
    doc_target: Option<Seq<char>>,
    inner_path: Option<Seq<char>>,
) -> Seq<char> {
    without_index(
        under_target(default_target, doc_target, page_or_default(target_name, inner_path)),
    )
}

/// The path of a page in a URL, without the name of an index file at its end.
pub fn generate_rustdoc_path_for_url(
    target_name: Option<&str>,
    default_target: Option<&str>,
    doc_target: Option<&str>,
    inner_path: Option<&str>,
) -> (r: String)
    ensures
        r@ == rustdoc_path(
            maybe_str(target_name),
            maybe_str(default_target),
            maybe_str(doc_target),
            maybe_str(inner_path),
        ),
{
    let page: String = page_for(target_name, inner_path);
    let path: String = match doc_target {
        Some(t) => {
            if is_same_target(default_target, t) {
                page
            } else {
                let mut under: String = t.to_owned();
                under.append("/");
                under.append(page.as_str());
                under
            }
        },
        None => page,
    };
    cut_index(path)
}

fn page_for(target_name: Option<&str>, inner_path: Option<&str>) -> (r: String)
    ensures
        r@ == page_or_default(maybe_str(target_name), maybe_str(inner_path)),
{
    match target_name {
        Some(name) => {
            if let Some(p) = inner_path {
                if !p.is_empty() && !same_text(p, "index.html") {
                    return p.to_owned();
                }
            }
            let mut folder: String = name.to_owned();
            folder.append("/");
            folder
        },
        None => match inner_path {
            Some(p) => p.to_owned(),
            None => String::new(),
        },
    }
}

fn is_same_target(default_target: Option<&str>, doc_target: &str) -> (r: bool)
    ensures
        r == (maybe_str(default_target) == Some(doc_target@)),
{
    match default_target {
        Some(d) => same_text(doc_target, d),
        None => false,
    }
}

fn cut_index(path: String) -> (r: String)
    ensures
        r@ == without_index(path@),
{
    if same_text(path.as_str(), "index.html") {
        return String::new();
    }
    match strip_suffix(path.as_str(), "/index.html") {
        Some(_) => {
            let n: usize = path.as_str().unicode_len();
            proof {
                reveal_strlit("/index.html");
                reveal_strlit("index.html");
                assert(path@.subrange(0, n - 10) =~= path@.take(n - 10));
            }
            path.as_str().substring_char(0, n - 10).to_owned()
        },
        None => path,
    }
}

/// The path of a page never ends in the name of an index file.
pub proof fn law_rustdoc_path_names_no_index(
    target_name: Option<Seq<char>>,
    default_target: Option<Seq<char>>,
    doc_target: Option<Seq<char>>,
    inner_path: Option<Seq<char>>,
)
    ensures
        ({
            let path = rustdoc_path(target_name, default_target, doc_target, inner_path);
            path != index_html() && !"/index.html"@.is_suffix_of(path)
        }),
{
    reveal_strlit("/index.html");
    reveal_strlit("index.html");
    let whole = under_target(default_target, doc_target, page_or_default(target_name, inner_path));
    let path = without_index(whole);
    if whole == index_html() {
        assert(path.len() == 0);
    } else if "/index.html"@.is_suffix_of(whole) {
        let n = whole.len();
        assert(whole.subrange(n - 11, n as int)[0] == '/');
        assert(path.last() == '/');
        assert(index_html().last() == 'l');
        if "/index.html"@.is_suffix_of(path) {
            assert(path.subrange(path.len() - 11, path.len() as int)[10] == path.last());
            assert("/index.html"@[10] == 'l');
        }
    }
}

/// Cutting the index off a path that was cut already changes nothing.
pub proof fn law_index_is_cut_once(path: Seq<char>)
    ensures
        without_index(without_index(path)) == without_index(path),
{
    law_rustdoc_path_names_no_index(None, None, None, Some(path));
}

/// Whether a component of a route is a placeholder.
pub open spec fn is_dynamic(component: Seq<char>) -> bool {
    component.len() > 0 && component[0] == '{' && component.last() == '}'
}

/// The components that close both a route and a path, from behind the last placeholder of the
/// route, or from the start of the shorter one where there is no placeholder before that.
/// Nothing where the route and the path differ there.
pub open spec fn common_ending(route: Seq<Seq<char>>, path: Seq<Seq<char>>) -> Option<
    Seq<Seq<char>>,
>
    decreases route.len(),
{
    if route.len() == 0 || path.len() == 0 || is_dynamic(route.last()) {
        Some(Seq::empty())
    } else if route.last() != path.last() {
        None
    } else {
        match common_ending(route.drop_last(), path.drop_last()) {
            Some(s) => Some(s.push(route.last())),
            None => None,
        }
    }
}

/// The static end of a route, as it stands in the path that the route matched.
pub open spec fn static_route_suffix(route: Seq<char>, path: Seq<char>) -> Option<Seq<char>> {
    match common_ending(pieces(route, '/'), pieces(path, '/')) {
        Some(s) if s.len() > 0 && !(s.len() == 1 && s[0].len() == 0) => Some(joined(s, "/"@)),
        _ => None,
    }
}

/// A route such as `/{name}/{version}/help.html` has a static suffix that no parameter of the
/// route holds. This is the suffix that the route and the actual path share.
pub fn find_static_route_suffix(route: &str, path: &str) -> (r: Option<String>)
    ensures
        (match r {
            Some(s) => Some(s@),
            None => None,
        }) == static_route_suffix(route@, path@),
{
    let routes: Vec<&str> = split(route, '/');
    let paths: Vec<&str> = split(path, '/');
    let n: usize = routes.len();
    let m: usize = paths.len();
    let ghost rs = texts(routes@);
    let ghost ps = texts(paths@);
    let mut k: usize = 0;
    assert(rs.take(n as int) =~= rs);
    assert(ps.take(m as int) =~= ps);
    assert(forall|s: Seq<Seq<char>>| #[trigger] (s + rs.skip(n as int)) =~= s);
    let mut go: bool = k < n && k < m;
    while go
        invariant
            n == routes@.len(),
            m == paths@.len(),
            rs == texts(routes@),
            ps == texts(paths@),
            rs == pieces(route@, '/'),
            ps == pieces(path@, '/'),
            k <= n,
            k <= m,
            go ==> k < n && k < m,
            common_ending(rs, ps) == (match common_ending(rs.take(n - k), ps.take(m - k)) {
                Some(s) => Some(s + rs.skip(n - k)),
                None => None,
            }),
            !go ==> common_ending(rs.take(n - k), ps.take(m - k)) == Some(Seq::<Seq<char>>::empty()),
        decreases n - k + (if go {
            1int
        } else {
            0int
        }),
    {
        let route_component: &str = routes[n - 1 - k];
        let path_component: &str = paths[m - 1 - k];
        assert(rs.take(n - k).last() == route_component@);
        assert(ps.take(m - k).last() == path_component@);
        if starts_with_char(route_component, '{') && ends_with_char(route_component, '}') {
            go = false;
        } else {
            if !same_text(route_component, path_component) {
                return None;
            }
            assert(rs.take(n - k).drop_last() =~= rs.take(n - k - 1));
            assert(ps.take(m - k).drop_last() =~= ps.take(m - k - 1));
            assert(forall|s: Seq<Seq<char>>|
                s.push(route_component@) + rs.skip(n - k) =~= #[trigger] (s + rs.skip(
                    n - k - 1,
                )));
            k = k + 1;
            go = k < n && k < m;
        }
    }
    let mut suffix: Vec<&str> = Vec::new();
    for i in (n - k)..n
        invariant
            n == routes@.len(),
            k <= n,
            rs == texts(routes@),
            texts(suffix@) == rs.subrange(n - k, i as int),
    {
        let ghost before = suffix@;
        suffix.push(routes[i]);
        assert(texts(suffix@) =~= texts(before).push(rs[i as int]));
        assert(rs.subrange(n - k, i + 1) =~= rs.subrange(n - k, i as int).push(rs[i as int]));
    }
    assert(texts(suffix@) =~= rs.skip(n - k));
    assert(Seq::<Seq<char>>::empty() + rs.skip(n - k) =~= rs.skip(n - k));
    if suffix.len() == 0 {
        None
    } else if suffix.len() == 1 && suffix[0].is_empty() {
        assert(texts(suffix@)[0] == suffix@[0]@);
        None
    } else {
        assert(texts(suffix@)[0] == suffix@[0]@);
        Some(join(&suffix, "/"))
    }
}

/// Where the name that documentation is filed under is known, asking for its index is asking for
/// nothing in particular: every target then leads to the folder of that name.
pub proof fn law_index_is_the_folder_of_the_crate(
    target_name: Seq<char>,
    default_target: Option<Seq<char>>,
    doc_target: Option<Seq<char>>,
)
    ensures
        ({
            let path = rustdoc_path(Some(target_name), default_target, doc_target, None);
            &&& rustdoc_path(Some(target_name), default_target, doc_target, Some("index.html"@))
                == path
            &&& rustdoc_path(Some(target_name), default_target, doc_target, Some(Seq::empty()))
                == path
            &&& (target_name + "/"@).is_suffix_of(path)
            &&& doc_target is None || doc_target == default_target ==> path == target_name + "/"@
        }),
{
    reveal_strlit("/");
    reveal_strlit("index.html");
    reveal_strlit("/index.html");
    let folder = target_name + "/"@;
    let whole = under_target(default_target, doc_target, folder);
    assert(whole.last() == '/');
    assert(index_html().last() == 'l');
    assert("/index.html"@[10] == 'l');
    if "/index.html"@.is_suffix_of(whole) {
        assert(whole.subrange(whole.len() - 11, whole.len() as int)[10] == whole.last());
    }
    assert(without_index(whole) == whole);
    assert(whole.skip(whole.len() - folder.len()) =~= folder);
}

/// A page that is asked for by more than an index is the one that is shown, below the folder of
/// its target unless that is the default one. Only the name of an index file at the end is left
/// out, and then the path is that of a folder.
pub proof fn law_page_is_kept(
    target_name: Option<Seq<char>>,
    default_target: Option<Seq<char>>,
    doc_target: Option<Seq<char>>,
    page: Seq<char>,
)
    requires
        page.len() > 0,
        page != "index.html"@,
    ensures
        ({
            let path = rustdoc_path(target_name, default_target, doc_target, Some(page));
            let whole = if doc_target is Some && doc_target != default_target {
                doc_target.unwrap() + "/"@ + page
            } else {
                page
            };
            &&& path == whole || (is_folder(path) && path + "index.html"@ == whole)
            &&& !"/index.html"@.is_suffix_of(whole) ==> path == whole
        }),
{
    reveal_strlit("/");
    reveal_strlit("index.html");
    reveal_strlit("/index.html");
    let whole = under_target(default_target, doc_target, page);
    assert(page_or_default(target_name, Some(page)) == page);
    let n = whole.len() as int;
    if whole == index_html() {
        if whole != page {
            let t = doc_target.unwrap();
            assert(whole[t.len() as int] == '/');
            assert(index_html()[t.len() as int] == '/');
        }
    } else if "/index.html"@.is_suffix_of(whole) {
        let path = whole.take(n - 10);
        let end = whole.subrange(n - 11, n);
        assert(end == "/index.html"@);
        assert(path.last() == end[0]);
        assert(path + "index.html"@ =~= whole) by {
            assert forall|i: int| n - 10 <= i < n implies whole[i] == "index.html"@[i - n + 10] by {
                assert(whole[i] == end[i - n + 11]);
            }
        }
    }
}

/// The pages of a target that is not the default one stand in a folder of its name.
pub proof fn law_target_is_the_first_folder(
    target_name: Option<Seq<char>>,
    default_target: Option<Seq<char>>,
    doc_target: Seq<char>,
    inner_path: Option<Seq<char>>,
)
    requires
        default_target != Some(doc_target),
    ensures
        (doc_target + "/"@).is_prefix_of(
            rustdoc_path(target_name, default_target, Some(doc_target), inner_path),
        ),
{
    reveal_strlit("/");
    reveal_strlit("index.html");
    reveal_strlit("/index.html");
    let page = page_or_default(target_name, inner_path);
    let folder = doc_target + "/"@;
    let whole = folder + page;
    let path = without_index(whole);
    let n = whole.len() as int;
    assert(under_target(default_target, Some(doc_target), page) =~= whole);
    assert(whole[doc_target.len() as int] == '/');
    if whole == index_html() {
        assert(index_html()[doc_target.len() as int] == '/');
    } else if "/index.html"@.is_suffix_of(whole) {
        let end = whole.subrange(n - 11, n);
        assert(end == "/index.html"@);
        if n - 10 < folder.len() {
            assert(end[doc_target.len() - (n - 11)] == '/');
            assert(doc_target.len() - (n - 11) > 0);
        }
    }
    assert(path.take(folder.len() as int) =~= folder);
}

/// A file extension is what follows the last dot of a path, and of its last component: it has
/// neither a dot nor a slash. Where there is none, a slash follows every dot.
pub proof fn law_file_extension_ends_the_path(path: Seq<char>)
    ensures
        file_extension(path) matches Some(ext) ==> ("."@ + ext).is_suffix_of(path) && !ext.contains(
            '.',
        ) && !ext.contains('/'),
        file_extension(path) is None ==> forall|i: int|
            0 <= i < path.len() && #[trigger] path[i] == '.' ==> path.skip(i + 1).contains('/'),
{
    reveal_strlit(".");
    lemma_last_index(path, '.');
    match last_index(path, '.') {
        Some(k) => {
            let ext = path.skip(k + 1);
            assert(path.skip(k) =~= "."@ + ext);
            assert(path.len() - ("."@ + ext).len() == k);
            if ext.contains('.') {
                let j = choose|j: int| 0 <= j < ext.len() && ext[j] == '.';
                assert(path[k + 1 + j] == '.');
            }
            if ext.contains('/') {
                let j = choose|j: int| 0 <= j < ext.len() && ext[j] == '/';
                assert forall|i: int| 0 <= i < path.len() && #[trigger] path[i]
                    == '.' implies path.skip(i + 1).contains('/') by {
                    assert(i <= k);
                    assert(path.skip(i + 1)[k + j - i] == '/');
                }
            }
        },
        None => {
            assert forall|i: int| 0 <= i < path.len() && #[trigger] path[i]
                == '.' implies path.skip(i + 1).contains('/') by {
                assert(path.contains(path[i]));
            }
        },
    }
}

/// What closes both a route and a path closes each of them, holds no placeholder, and reaches back
/// to a placeholder or to the start of one of them.
proof fn lemma_common_ending(route: Seq<Seq<char>>, path: Seq<Seq<char>>)
    ensures
        common_ending(route, path) matches Some(s) ==> {
            &&& s.is_suffix_of(route)
            &&& s.is_suffix_of(path)
            &&& forall|i: int| 0 <= i < s.len() ==> !is_dynamic(#[trigger] s[i])
            &&& s.len() == route.len() || s.len() == path.len() || is_dynamic(
                route[route.len() - s.len() - 1],
            )
        },
    decreases route.len(),
{
    if route.len() > 0 && path.len() > 0 && !is_dynamic(route.last()) && route.last()
        == path.last() {
        lemma_common_ending(route.drop_last(), path.drop_last());
        if let Some(s) = common_ending(route.drop_last(), path.drop_last()) {
            let all = s.push(route.last());
            let r = route.drop_last();
            let p = path.drop_last();
            assert(all =~= route.skip(route.len() - all.len())) by {
                assert(s == r.skip(r.len() - s.len()));
            }
            assert(all =~= path.skip(path.len() - all.len())) by {
                assert(s == p.skip(p.len() - s.len()));
            }
            assert forall|i: int| 0 <= i < all.len() implies !is_dynamic(#[trigger] all[i]) by {
                if i < s.len() {
                    assert(all[i] == s[i]);
                }
            }
        }
    } else if common_ending(route, path) is Some {
        assert(Seq::<Seq<char>>::empty() =~= route.skip(route.len() as int));
        assert(Seq::<Seq<char>>::empty() =~= path.skip(path.len() as int));
    }
}

/// The static suffix of a route is the end of the route and of the path, component by component,
/// has no placeholder in it, and reaches back to one or to the start of the route or the path.
pub proof fn law_static_suffix_is_shared(route: Seq<char>, path: Seq<char>)
    ensures
        static_route_suffix(route, path) matches Some(suffix) ==> {
            let s = pieces(suffix, '/');
            let r = pieces(route, '/');
            let p = pieces(path, '/');
            &&& suffix.len() > 0
            &&& s.is_suffix_of(r)
            &&& s.is_suffix_of(p)
            &&& forall|i: int| 0 <= i < s.len() ==> !is_dynamic(#[trigger] s[i])
            &&& s.len() == r.len() || s.len() == p.len() || is_dynamic(r[r.len() - s.len() - 1])
        },
{
    reveal_strlit("/");
    assert("/"@ =~= seq!['/']);
    let r = pieces(route, '/');
    let p = pieces(path, '/');
    lemma_common_ending(r, p);
    lemma_pieces(route, '/');
    if let Some(suffix) = static_route_suffix(route, path) {
        let s = common_ending(r, p).unwrap();
        assert(s == r.skip(r.len() - s.len()));
        assert forall|i: int| 0 <= i < s.len() implies !(#[trigger] s[i]).contains('/') by {
            assert(s[i] == r[r.len() - s.len() + i]);
        }
        lemma_pieces_of_joined(s, '/');
        if suffix.len() == 0 {
            lemma_single_piece(suffix, '/');
            assert(s =~= seq![suffix]);
        }
    }
}

} // verus!
