//! Requests for `/:crate` and `/:crate/:version`, which lead to the documentation or to the page
//! about the crate.
use crate::cache::{CachePolicy, CachePolicyText};
use crate::error::{AxumNope, Failure};
use crate::header::SurrogateKeys;
use crate::query::{pair_texts, PairTexts};
use crate::query_map::{
    insert, is_ordered, lemma_lookup_is_last, lemma_lookup_last, lemma_lookup_missing,
    lemma_lookup_present, lemma_text_less_irreflexive, lookup, text_less,
};
use crate::redirection::{Base, Query, Redirection};
use crate::release::{canonical_req_version, MatchedRelease};
use crate::rustdoc_page::{
    is_component, law_path_keeps_components, release_path, requested_components,
};
use crate::rustdoc_path::{file_extension, law_file_extension_ends_the_path};
use crate::text::{
    as_deref, ends_with, find_text, first_match, joined, last_index, lemma_first_match,
    lemma_joined_first, lemma_last_index, lemma_last_index_is, maybe_str, maybe_text, pieces, rfind, same_text,
    starts_with,
};
use crate::version::{
    law_version_text_has_no_slash, law_version_text_is_unique, lemma_version_begins_with_a_digit,
    ReqVersion, ReqVersionText,
};
use vstd::prelude::*;
use vstd::string::{StrSliceExecFns, StringExecFns};

verus! {

/// A crate whose documentation is part of Rust's own.
#[derive(Clone, Copy, Debug)]
pub struct OfficialCrateDescription {
    pub name: &'static str,
    pub href: &'static str,
    pub description: &'static str,
}

/// The name and the address of a crate's documentation, and what the crate is, where the
/// documentation is part of Rust's own.
pub open spec fn official(name: Seq<char>) -> Option<(Seq<char>, Seq<char>, Seq<char>)> {
    if name == "alloc"@ || name == "liballoc"@ {
        Some(("alloc"@, "https://doc.rust-lang.org/stable/alloc/"@, "Rust alloc library"@))
    } else if name == "core"@ || name == "libcore"@ {
        Some(("core"@, "https://doc.rust-lang.org/stable/core/"@, "Rust core library"@))
    } else if name == "proc_macro"@ || name == "libproc_macro"@ || name == "proc-macro"@ || name
        == "libproc-macro"@ {
        Some(
            (
                "proc_macro"@,
                "https://doc.rust-lang.org/stable/proc_macro/"@,
                "Rust proc_macro library"@,
            ),
        )
    } else if name == "std"@ || name == "libstd"@ {
        Some(("std"@, "https://doc.rust-lang.org/stable/std/"@, "Rust standard library"@))
    } else if name == "test"@ || name == "libtest"@ {
        Some(("test"@, "https://doc.rust-lang.org/stable/test/"@, "Rust test library"@))
    } else if name == "rustc"@ {
        Some(("rustc"@, "https://doc.rust-lang.org/nightly/nightly-rustc/"@, "rustc API"@))
    } else if name == "rustdoc"@ {
        Some(
            (
                "rustdoc"@,
                "https://doc.rust-lang.org/nightly/nightly-rustc/rustdoc/"@,
                "rustdoc API"@,
            ),
        )
    } else {
        None
    }
}

/// What is known of a crate whose documentation is part of Rust's own.
pub fn official_crate(name: &str) -> (r: Option<OfficialCrateDescription>)
    ensures
        (match r {
            Some(d) => Some((d.name@, d.href@, d.description@)),
            None => None,
        }) == official(name@),
{
    if same_text(name, "alloc") || same_text(name, "liballoc") {
        Some(
            OfficialCrateDescription {
                name: "alloc",
                href: "https://doc.rust-lang.org/stable/alloc/",
                description: "Rust alloc library",
            },
        )
    } else if same_text(name, "core") || same_text(name, "libcore") {
        Some(
            OfficialCrateDescription {
                name: "core",
                href: "https://doc.rust-lang.org/stable/core/",
                description: "Rust core library",
            },
        )
    } else if same_text(name, "proc_macro") || same_text(name, "libproc_macro") || same_text(
        name,
        "proc-macro",
    ) || same_text(name, "libproc-macro") {
        Some(
            OfficialCrateDescription {
                name: "proc_macro",
                href: "https://doc.rust-lang.org/stable/proc_macro/",
                description: "Rust proc_macro library",
            },
        )
    } else if same_text(name, "std") || same_text(name, "libstd") {
        Some(
            OfficialCrateDescription {
                name: "std",
                href: "https://doc.rust-lang.org/stable/std/",
                description: "Rust standard library",
            },
        )
    } else if same_text(name, "test") || same_text(name, "libtest") {
        Some(
            OfficialCrateDescription {
                name: "test",
                href: "https://doc.rust-lang.org/stable/test/",
                description: "Rust test library",
            },
        )
    } else if same_text(name, "rustc") {
        Some(
            OfficialCrateDescription {
                name: "rustc",
                href: "https://doc.rust-lang.org/nightly/nightly-rustc/",
                description: "rustc API",
            },
        )
    } else if same_text(name, "rustdoc") {
        Some(
            OfficialCrateDescription {
                name: "rustdoc",
                href: "https://doc.rust-lang.org/nightly/nightly-rustc/rustdoc/",
                description: "rustdoc API",
            },
        )
    } else {
        None
    }
}

/// What follows the last dot.
pub open spec fn after_last_dot(s: Seq<char>) -> Option<Seq<char>> {
    match last_index(s, '.') {
        Some(i) => Some(s.skip(i + 1)),
        None => None,
    }
}

fn text_after_last_dot(s: &str) -> (r: Option<&str>)
    ensures
        maybe_str(r) == after_last_dot(s@),
{
    match rfind(s, '.') {
        Some(i) => {
            let n: usize = s.unicode_len();
            assert(s@.subrange(i + 1, n as int) =~= s@.skip(i + 1));
            Some(s.substring_char(i + 1, n))
        },
        None => None,
    }
}

/// The extensions of the assets that older builds share, which stand at the root.
pub open spec fn is_asset_extension(ext: Seq<char>) -> bool {
    ext == "css"@ || ext == "js"@ || ext == "png"@ || ext == "svg"@ || ext == "woff"@ || ext
        == "woff2"@
}

/// The name of the crate in `krate::some::path`.
pub open spec fn crate_part(name: Seq<char>) -> Seq<char> {
    match first_match(name, "::"@) {
        Some(i) => name.take(i),
        None => name,
    }
}

/// The path inside the crate in `krate::some::path`.
pub open spec fn path_part(name: Seq<char>) -> Option<Seq<char>> {
    match first_match(name, "::"@) {
        Some(i) => Some(name.skip(i + 2)),
        None => None,
    }
}

/// Whether `pairs` are the names and values of a request, in order, with the path inside a crate
/// as what to search for, unless the request has that already.
pub open spec fn is_doc_query(
    pairs: PairTexts,
    path_in_crate: Option<Seq<char>>,
    given: PairTexts,
) -> bool {
    &&& is_ordered(pairs)
    &&& forall|name: Seq<char>| #[trigger]
        lookup(pairs, name) == (match lookup(given, name) {
            Some(value) => Some(value),
            None => if name == "search"@ {
                path_in_crate
            } else {
                None
            },
        })
}

/// The query for a documentation page.
pub fn doc_query(path_in_crate: Option<&str>, query_pairs: &Vec<(String, String)>) -> (r: Vec<
    (String, String),
>)
    ensures
        is_doc_query(pair_texts(r@), maybe_str(path_in_crate), pair_texts(query_pairs@)),
{
    let ghost given = pair_texts(query_pairs@);
    let mut queries: Vec<(String, String)> = Vec::new();
    assert(pair_texts(queries@) =~= Seq::empty());
    if let Some(path) = path_in_crate {
        queries = insert(queries, "search".to_owned(), path.to_owned());
    }
    let n: usize = query_pairs.len();
    assert(given.take(0) =~= Seq::empty());
    for i in 0..n
        invariant
            n == query_pairs@.len(),
            given == pair_texts(query_pairs@),
            is_doc_query(
                pair_texts(queries@),
                maybe_str(path_in_crate),
                given.take(i as int),
            ),
    {
        let ghost before = pair_texts(queries@);
        let name: String = query_pairs[i].0.clone();
        let value: String = query_pairs[i].1.clone();
        queries = insert(queries, name, value);
        assert(given.take(i + 1).drop_last() =~= given.take(i as int));
        assert(given.take(i + 1).last() == (name@, value@));
        assert forall|other: Seq<char>| #[trigger]
            lookup(pair_texts(queries@), other) == (match lookup(given.take(i + 1), other) {
                Some(v) => Some(v),
                None => if other == "search"@ {
                    maybe_str(path_in_crate)
                } else {
                    None
                },
            }) by {
            assert(lookup(before, other) == lookup(before, other));
        }
    }
    assert(given.take(n as int) =~= given);
    queries
}

/// What to do with a request before anything is looked up.
#[derive(Debug)]
pub enum RedirectorStart {
    /// Serve an asset that older builds share from the root of the storage.
    LegacyAsset(String),
    /// Redirect.
    Redirect(Redirection),
    /// Look for a release of a crate. The path inside the crate is what to search for there.
    MatchRelease { crate_name: String, path_in_crate: Option<String> },
}

/// Whether `r` is the redirect to the documentation of a crate that is part of Rust's own.
pub open spec fn is_official_redirect(
    r: Redirection,
    href: Seq<char>,
    path_in_crate: Option<Seq<char>>,
    given: PairTexts,
    keys: Seq<Seq<char>>,
) -> bool {
    &&& r.base matches Base::Url(u) && u@ == href
    &&& r.query matches Query::Pairs(pairs) && is_doc_query(pair_texts(pairs@), path_in_crate, given)
    &&& r.cache_policy@ == CachePolicyText::ForeverInCdnAndStaleInBrowser(keys)
}

/// Whether `start` is what to do with a request before anything is looked up: an asset that older
/// builds share is served, an icon is that of the site, and documentation that is part of Rust's
/// own is elsewhere.
pub open spec fn is_start(
    start: RedirectorStart,
    name: Seq<char>,
    uri_path: Seq<char>,
    given: PairTexts,
    keys: Seq<Seq<char>>,
) -> bool {
    if after_last_dot(name) matches Some(ext) && is_asset_extension(ext) {
        start matches RedirectorStart::LegacyAsset(path) && path@ == name
    } else if after_last_dot(uri_path) == Some("ico"@) {
        start matches RedirectorStart::Redirect(to) && to.is_to("/-/static/favicon.ico"@)
            && to.query is Empty && to.cache_policy@ == CachePolicyText::ForeverInCdnAndBrowser
    } else {
        match official(crate_part(name)) {
            Some(d) => start matches RedirectorStart::Redirect(to) && is_official_redirect(
                to,
                d.1,
                path_part(name),
                given,
                keys,
            ),
            None => start matches RedirectorStart::MatchRelease { crate_name, path_in_crate }
                && crate_name@ == crate_part(name) && maybe_text(path_in_crate) == path_part(name),
        }
    }
}

/// What to do with a request before anything is looked up.
pub fn start_redirect(
    name: &str,
    uri_path: &str,
    query_pairs: &Vec<(String, String)>,
    keys: &SurrogateKeys,
) -> (r: RedirectorStart)
    ensures
        is_start(r, name@, uri_path@, pair_texts(query_pairs@), keys@),
{
    if let Some(ext) = text_after_last_dot(name) {
        if same_text(ext, "css") || same_text(ext, "js") || same_text(ext, "png") || same_text(
            ext,
            "svg",
        ) || same_text(ext, "woff") || same_text(ext, "woff2") {
            return RedirectorStart::LegacyAsset(name.to_owned());
        }
    }
    if let Some(ext) = text_after_last_dot(uri_path) {
        if same_text(ext, "ico") {
            return RedirectorStart::Redirect(
                Redirection {
                    base: Base::Path("/-/static/favicon.ico".to_owned()),
                    query: Query::Empty,
                    cache_policy: CachePolicy::ForeverInCdnAndBrowser,
                },
            );
        }
    }
    let (crate_name, path_in_crate): (String, Option<String>) = match find_text(name, "::") {
        Some(i) => {
            proof {
                reveal_strlit("::");
            }
            let n: usize = name.unicode_len();
            assert(name@.subrange(0, i as int) =~= name@.take(i as int));
            assert(name@.subrange(i + 2, n as int) =~= name@.skip(i + 2));
            (
                name.substring_char(0, i).to_owned(),
                Some(name.substring_char(i + 2, n).to_owned()),
            )
        },
        None => (name.to_owned(), None),
    };
    match official_crate(crate_name.as_str()) {
        Some(description) => RedirectorStart::Redirect(
            Redirection {
                base: Base::Url(description.href.to_owned()),
                query: Query::Pairs(doc_query(as_deref(&path_in_crate), query_pairs)),
                cache_policy: CachePolicy::ForeverInCdnAndStaleInBrowser(keys.clone()),
            },
        ),
        None => RedirectorStart::MatchRelease { crate_name, path_in_crate },
    }
}

/// What to do with a request when a release was found.
#[derive(Debug)]
pub enum RedirectorAction {
    /// Serve a file of the release's own documentation.
    CrateAsset { release: MatchedRelease, path: String },
    /// Redirect.
    Redirect(Redirection),
}

/// Whether a script or a style sheet was asked for.
pub open spec fn is_crate_asset(target: Option<Seq<char>>) -> bool {
    target matches Some(t) && (".js"@.is_suffix_of(t) || ".css"@.is_suffix_of(t))
}

/// The path of the start page of a release, for a target. The index and the name that the
/// documentation is filed under are no targets.
pub open spec fn start_page_path(
    crate_name: Seq<char>,
    version: ReqVersionText,
    target: Option<Seq<char>>,
    target_name: Seq<char>,
) -> Seq<char> {
    "/"@ + crate_name + "/"@ + version.text() + "/"@ + (match target {
        Some(t) if t != "index.html"@ && t != target_name => t + "/"@,
        _ => Seq::empty(),
    }) + target_name + "/"@
}

/// The policy for a page: one that is asked for as the newest changes with every release.
pub open spec fn page_policy(is_latest: bool, keys: Seq<Seq<char>>) -> CachePolicyText {
    if is_latest {
        CachePolicyText::ForeverInCdn(keys)
    } else {
        CachePolicyText::ForeverInCdnAndStaleInBrowser(keys)
    }
}

/// The policy for a page.
pub fn policy_for_page(is_latest: bool, keys: &SurrogateKeys) -> (r: CachePolicy)
    ensures
        r@ == page_policy(is_latest, keys@),
{
    if is_latest {
        CachePolicy::ForeverInCdn(keys.clone())
    } else {
        CachePolicy::ForeverInCdnAndStaleInBrowser(keys.clone())
    }
}

/// Whether `action` is what to do with a request when a release was found.
pub open spec fn is_action(
    action: RedirectorAction,
    target: Option<Seq<char>>,
    release: MatchedRelease,
    path_in_crate: Option<Seq<char>>,
    given: PairTexts,
    query: Option<Seq<char>>,
    keys: Seq<Seq<char>>,
) -> bool {
    if is_crate_asset(target) {
        action matches RedirectorAction::CrateAsset { release: found, path } && path@
            == target.unwrap() && found.name@ == release.exact_name()
            && found.corrected_name is None && found.req_version == release.req_version
            && found.release == release.release
    } else if release.release.rustdoc_status {
        action matches RedirectorAction::Redirect(to) && is_docs_redirect(
            to,
            release,
            target,
            path_in_crate,
            given,
            keys,
        )
    } else {
        action matches RedirectorAction::Redirect(to) && is_crate_page_redirect(
            to,
            release,
            query,
            keys,
        )
    }
}

/// What to do with a request when a release was found: serve a file that belongs to it, or go
/// to its documentation or, where it has none, to the page about the crate.
pub fn redirect_to_release(
    target: Option<&str>,
    release: MatchedRelease,
    path_in_crate: Option<&str>,
    query_pairs: &Vec<(String, String)>,
    query: Option<&str>,
    keys: &SurrogateKeys,
) -> (r: RedirectorAction)
    requires
        release.release.valid(),
    ensures
        is_action(
            r,
            maybe_str(target),
            release,
            maybe_str(path_in_crate),
            pair_texts(query_pairs@),
            maybe_str(query),
            keys@,
        ),
{
    let release: MatchedRelease = release.into_exactly_named();
    if let Some(t) = target {
        if ends_with(t, ".js") || ends_with(t, ".css") {
            return RedirectorAction::CrateAsset { release, path: t.to_owned() };
        }
    }
    let release: MatchedRelease = release.into_canonical_req_version();
    match release.target_name() {
        Some(target_name) if release.rustdoc_status() => {
            let mut path: String = "/".to_owned();
            path.append(release.name.as_str());
            path.append("/");
            path.append(release.req_version.to_text().as_str());
            path.append("/");
            let ghost front = path@;
            if let Some(t) = target {
                if !same_text(t, "index.html") && !same_text(t, target_name) {
                    path.append(t);
                    path.append("/");
                }
            }
            assert(path@ =~= front + (match maybe_str(target) {
                Some(t) if t != "index.html"@ && t != target_name@ => t + "/"@,
                _ => Seq::empty(),
            }));
            path.append(target_name);
            path.append("/");
            let cache_policy: CachePolicy = policy_for_page(release.is_latest_url(), keys);
            RedirectorAction::Redirect(
                Redirection {
                    base: Base::Path(path),
                    query: Query::Pairs(doc_query(path_in_crate, query_pairs)),
                    cache_policy,
                },
            )
        },
        _ => {
            let mut path: String = "/crate/".to_owned();
            path.append(release.name.as_str());
            path.append("/");
            path.append(release.req_version.to_text().as_str());
            RedirectorAction::Redirect(
                Redirection {
                    base: Base::Path(path),
                    query: Query::keep(query),
                    cache_policy: CachePolicy::ForeverInCdn(keys.clone()),
                },
            )
        },
    }
}

/// Whether `r` is the redirect to the start page of a release.
pub open spec fn is_docs_redirect(
    r: Redirection,
    release: MatchedRelease,
    target: Option<Seq<char>>,
    path_in_crate: Option<Seq<char>>,
    given: PairTexts,
    keys: Seq<Seq<char>>,
) -> bool {
    let version = canonical_req_version(release.req_version@, release.release.version@);
    &&& r.is_to(
        start_page_path(
            release.exact_name(),
            version,
            target,
            release.release.target_name.unwrap()@,
        ),
    )
    &&& r.query matches Query::Pairs(pairs) && is_doc_query(pair_texts(pairs@), path_in_crate, given)
    &&& r.cache_policy@ == page_policy(version == ReqVersionText::Latest, keys)
}

/// Whether `r` is the redirect to the page about the crate.
pub open spec fn is_crate_page_redirect(
    r: Redirection,
    release: MatchedRelease,
    query: Option<Seq<char>>,
    keys: Seq<Seq<char>>,
) -> bool {
    let version = canonical_req_version(release.req_version@, release.release.version@);
    &&& r.is_to("/crate/"@ + release.exact_name() + "/"@ + version.text())
    &&& r.query.kept(query)
    &&& r.cache_policy@ == CachePolicyText::ForeverInCdn(keys)
}

/// What to do when the documentation of a release does not hold a file that was asked for. Some
/// requests for assets that builds share still come under the path of a crate: those are served
/// from the root of the storage, under the path that is returned.
pub fn serve_missing_asset(target: &str, err: Failure) -> (r: Result<String, AxumNope>)
    ensures
        ({
            let is_shared = "search-"@.is_prefix_of(target@) || "settings-"@.is_prefix_of(target@);
            &&& r is Ok <==> is_shared
            &&& r matches Ok(path) ==> path@ == target@
            &&& r matches Err(e) ==> e == answer_of(err)
        }),
{
    if starts_with(target, "search-") || starts_with(target, "settings-") {
        Ok(target.to_owned())
    } else {
        Err(AxumNope::from(err))
    }
}

/// What an error is answered as.
pub open spec fn answer_of(err: Failure) -> AxumNope {
    match err {
        Failure::Nope(nope) => nope,
        Failure::PathNotFound => AxumNope::ResourceNotFound,
        Failure::Other(message) => AxumNope::InternalError(message),
    }
}

/// A request for `/:crate`, `/:crate/:version` or `/:crate/:version/:target`.
#[derive(Debug)]
pub struct RedirectorRequest {
    pub name: String,
    pub version: Option<ReqVersion>,
    pub target: Option<String>,
    /// The path of the URL.
    pub uri_path: String,
    /// The query of the URL.
    pub query: Option<String>,
    /// The names and values in the query, each name once.
    pub query_pairs: Vec<(String, String)>,
}

/// How far a request has come, and what is to be done next for it.
#[derive(Debug)]
#[allow(inconsistent_fields)]
pub enum RedirectorState {
    /// Look for a release.
    MatchRelease {
        request: RedirectorRequest,
        crate_name: String,
        version: ReqVersion,
        path_in_crate: Option<String>,
    },
    /// Load what is known of a release, and get a file from its documentation.
    FetchCrateAsset { release: MatchedRelease, path: String },
    /// Get a file from the root of the storage.
    FetchLegacyAsset { path: String },
    /// Answer with a redirect.
    Redirect(Redirection),
    /// Answer with an error.
    Fail(AxumNope),
    /// Answer with the file that was found.
    ServeFile,
}

/// What came of what was to be done for a request.
#[derive(Debug)]
pub enum RedirectorEvent {
    Release(Result<MatchedRelease, AxumNope>),
    /// What is known of the release could not be loaded.
    DetailsFailed(AxumNope),
    FileFound,
    FileFailed(Failure),
}

impl RedirectorState {
    /// Whether an event can come of what is to be done.
    pub open spec fn accepts(self, event: RedirectorEvent) -> bool {
        match self {
            RedirectorState::MatchRelease { .. } => event matches RedirectorEvent::Release(found)
                && (found matches Ok(release) ==> release.release.valid()),
            RedirectorState::FetchCrateAsset { .. } => !(event is Release),
            RedirectorState::FetchLegacyAsset { .. } => event is FileFound || event is FileFailed,
            _ => false,
        }
    }

    /// Whether `next` is what a request begins with.
    pub open spec fn starts(
        request: RedirectorRequest,
        keys: Seq<Seq<char>>,
        next: RedirectorState,
    ) -> bool {
        let given = pair_texts(request.query_pairs@);
        match next {
            RedirectorState::FetchLegacyAsset { path } => is_start(
                RedirectorStart::LegacyAsset(path),
                request.name@,
                request.uri_path@,
                given,
                keys,
            ),
            RedirectorState::Redirect(to) => is_start(
                RedirectorStart::Redirect(to),
                request.name@,
                request.uri_path@,
                given,
                keys,
            ),
            RedirectorState::MatchRelease { request: same, crate_name, version, path_in_crate } => {
                &&& same == request
                &&& version@ == (match request.version {
                    Some(v) => v@,
                    None => ReqVersionText::Latest,
                })
                &&& is_start(
                    RedirectorStart::MatchRelease { crate_name, path_in_crate },
                    request.name@,
                    request.uri_path@,
                    given,
                    keys,
                )
            },
            _ => false,
        }
    }

    /// Whether `next` is what a request comes to by an event.
    pub open spec fn leads_to(
        self,
        event: RedirectorEvent,
        keys: Seq<Seq<char>>,
        next: RedirectorState,
    ) -> bool {
        match (self, event) {
            (
                RedirectorState::MatchRelease { request, path_in_crate, .. },
                RedirectorEvent::Release(Ok(release)),
            ) => {
                let action = match next {
                    RedirectorState::FetchCrateAsset { release, path } => Some(
                        RedirectorAction::CrateAsset { release, path },
                    ),
                    RedirectorState::Redirect(to) => Some(RedirectorAction::Redirect(to)),
                    _ => None,
                };
                action is Some && is_action(
                    action.unwrap(),
                    maybe_text(request.target),
                    release,
                    maybe_text(path_in_crate),
                    pair_texts(request.query_pairs@),
                    maybe_text(request.query),
                    keys,
                )
            },
            (_, RedirectorEvent::Release(Err(e))) => next == RedirectorState::Fail(e),
            (_, RedirectorEvent::DetailsFailed(e)) => next == RedirectorState::Fail(e),
            (_, RedirectorEvent::FileFound) => next is ServeFile,
            (RedirectorState::FetchCrateAsset { path, .. }, RedirectorEvent::FileFailed(err)) => {
                if "search-"@.is_prefix_of(path@) || "settings-"@.is_prefix_of(path@) {
                    next matches RedirectorState::FetchLegacyAsset { path: shared } && shared@
                        == path@
                } else {
                    next == RedirectorState::Fail(answer_of(err))
                }
            },
            (_, RedirectorEvent::FileFailed(err)) => next == RedirectorState::Fail(answer_of(err)),
            _ => false,
        }
    }

    /// Begins with a request.
    pub fn start(request: RedirectorRequest, keys: &SurrogateKeys) -> (r: RedirectorState)
        ensures
            RedirectorState::starts(request, keys@, r),
    {
        match start_redirect(
            request.name.as_str(),
            request.uri_path.as_str(),
            &request.query_pairs,
            keys,
        ) {
            RedirectorStart::LegacyAsset(path) => RedirectorState::FetchLegacyAsset { path },
            RedirectorStart::Redirect(to) => RedirectorState::Redirect(to),
            RedirectorStart::MatchRelease { crate_name, path_in_crate } => {
                let version: ReqVersion = match &request.version {
                    Some(v) => v.clone(),
                    None => ReqVersion::Latest,
                };
                RedirectorState::MatchRelease { request, crate_name, version, path_in_crate }
            },
        }
    }

    /// Goes on with what came of what was to be done.
    pub fn proceed(self, event: RedirectorEvent, keys: &SurrogateKeys) -> (r: RedirectorState)
        requires
            self.accepts(event),
        ensures
            self.leads_to(event, keys@, r),
    {
        match (self, event) {
            (
                RedirectorState::MatchRelease { request, path_in_crate, .. },
                RedirectorEvent::Release(Ok(release)),
            ) => {
                match redirect_to_release(
                    as_deref(&request.target),
                    release,
                    as_deref(&path_in_crate),
                    &request.query_pairs,
                    as_deref(&request.query),
                    keys,
                ) {
                    RedirectorAction::CrateAsset { release, path } => {
                        RedirectorState::FetchCrateAsset { release, path }
                    },
                    RedirectorAction::Redirect(to) => RedirectorState::Redirect(to),
                }
            },
            (_, RedirectorEvent::Release(Err(e))) => RedirectorState::Fail(e),
            (_, RedirectorEvent::DetailsFailed(e)) => RedirectorState::Fail(e),
            (_, RedirectorEvent::FileFound) => RedirectorState::ServeFile,
            (
                RedirectorState::FetchCrateAsset { path, .. },
                RedirectorEvent::FileFailed(err),
            ) => {
                match serve_missing_asset(path.as_str(), err) {
                    Ok(path) => RedirectorState::FetchLegacyAsset { path },
                    Err(e) => RedirectorState::Fail(e),
                }
            },
            (_, RedirectorEvent::FileFailed(err)) => RedirectorState::Fail(AxumNope::from(err)),
            _ => vstd::pervasive::unreached(),
        }
    }

    /// How many things are still to be done for a request, at most.
    pub open spec fn steps_left(self) -> nat {
        match self {
            RedirectorState::MatchRelease { .. } => 3,
            RedirectorState::FetchCrateAsset { .. } => 2,
            RedirectorState::FetchLegacyAsset { .. } => 1,
            _ => 0,
        }
    }
}

/// Every request is answered: each event brings it closer to its answer.
pub proof fn law_redirector_answers(
    state: RedirectorState,
    event: RedirectorEvent,
    keys: Seq<Seq<char>>,
    next: RedirectorState,
)
    requires
        state.accepts(event),
        state.leads_to(event, keys, next),
    ensures
        next.steps_left() < state.steps_left(),
        next is ServeFile ==> event is FileFound,
{
}

/// A release without documentation leads to the page about its crate, in the version that was
/// asked for: that version is the last component of the path. A requirement leads to the version
/// that was found for it, unless every version meets it.
pub proof fn law_crate_page_is_of_the_requested_version(
    to: Redirection,
    release: MatchedRelease,
    query: Option<Seq<char>>,
    keys: Seq<Seq<char>>,
)
    requires
        is_crate_page_redirect(to, release, query, keys),
        is_component(release.exact_name()),
        release.release.version@.valid(),
        release.req_version@ matches ReqVersionText::Exact(v) ==> v.valid(),
    ensures
        to.base matches Base::Path(p) && ({
            let parts = pieces(p@, '/');
            &&& parts.len() == 4
            &&& parts[1] == "crate"@
            &&& parts[2] == release.exact_name()
            &&& release.req_version@ matches ReqVersionText::Exact(v) ==> parts.last() == v.text()
            &&& release.req_version@ is Latest ==> parts.last() == "latest"@
            &&& release.req_version@ matches ReqVersionText::Semver(r) ==> parts.last() == if r
                == "*"@ {
                "latest"@
            } else {
                release.release.version@.text()
            }
        }),
        to.query.kept(query),
        to.cache_policy@ is ForeverInCdn,
        to.cache_policy@.keys() == keys,
{
    reveal_strlit("/");
    reveal_strlit("crate");
    reveal_strlit("/crate/");
    reveal_strlit("latest");
    assert(is_component("crate"@));
    assert(is_component("latest"@));
    law_version_text_has_no_slash(release.release.version@);
    if let ReqVersionText::Exact(v) = release.req_version@ {
        law_version_text_has_no_slash(v);
    }
    let version = canonical_req_version(release.req_version@, release.release.version@).text();
    assert(is_component(version));
    let last = seq![version];
    assert forall|i: int| 0 <= i < last.len() implies is_component(#[trigger] last[i]) by {}
    law_path_keeps_components("crate"@, release.exact_name(), last);
    assert(joined(last, "/"@) == version);
    assert("/crate/"@ + release.exact_name() + "/"@ + version =~= release_path(
        "crate"@,
        release.exact_name(),
        last,
    ));
}

/// Requests for two versions of crates without documentation lead to two pages.
pub proof fn law_crate_pages_of_versions_differ(
    to: Redirection,
    release: MatchedRelease,
    query: Option<Seq<char>>,
    keys: Seq<Seq<char>>,
    other_to: Redirection,
    other: MatchedRelease,
    other_query: Option<Seq<char>>,
    other_keys: Seq<Seq<char>>,
)
    requires
        is_crate_page_redirect(to, release, query, keys),
        is_crate_page_redirect(other_to, other, other_query, other_keys),
        is_component(release.exact_name()),
        is_component(other.exact_name()),
        release.release.version@.valid(),
        other.release.version@.valid(),
        release.req_version@ is Exact,
        other.req_version@ is Exact,
        release.req_version@->Exact_0.valid(),
        other.req_version@->Exact_0.valid(),
        release.req_version@ != other.req_version@,
    ensures
        to.base matches Base::Path(p) && (other_to.base matches Base::Path(q) && p@ != q@),
{
    law_crate_page_is_of_the_requested_version(to, release, query, keys);
    law_crate_page_is_of_the_requested_version(other_to, other, other_query, other_keys);
    law_version_text_is_unique(release.req_version@->Exact_0, other.req_version@->Exact_0);
}

/// A release with documentation leads to the start page of the version that was asked for: behind
/// the name and the version come the target, where one was asked for, the folder of the crate, and
/// nothing more. Only a page that is asked for as the newest is never shown stale.
pub proof fn law_docs_are_of_the_requested_version(
    to: Redirection,
    release: MatchedRelease,
    target: Option<Seq<char>>,
    path_in_crate: Option<Seq<char>>,
    given: PairTexts,
    keys: Seq<Seq<char>>,
)
    requires
        is_docs_redirect(to, release, target, path_in_crate, given, keys),
        release.release.target_name is Some,
        is_component(release.exact_name()),
        is_component(release.release.target_name.unwrap()@),
        target matches Some(t) ==> is_component(t),
        release.release.version@.valid(),
        release.req_version@ matches ReqVersionText::Exact(v) ==> v.valid(),
    ensures
        to.base matches Base::Path(p) && ({
            let parts = pieces(p@, '/');
            let name = release.release.target_name.unwrap()@;
            &&& parts[1] == release.exact_name()
            &&& release.req_version@ matches ReqVersionText::Exact(v) ==> parts[2] == v.text()
            &&& release.req_version@ is Latest ==> parts[2] == "latest"@
            &&& release.req_version@ matches ReqVersionText::Semver(r) ==> parts[2] == if r == "*"@ {
                "latest"@
            } else {
                release.release.version@.text()
            }
            &&& requested_components(p@) == if target is None || target == Some("index.html"@)
                || target == Some(name) {
                seq![name, Seq::empty()]
            } else {
                seq![target.unwrap(), name, Seq::empty()]
            }
            &&& to.cache_policy@ is ForeverInCdn <==> parts[2] == "latest"@
        }),
        to.cache_policy@ is ForeverInCdn || to.cache_policy@ is ForeverInCdnAndStaleInBrowser,
        to.cache_policy@.keys() == keys,
{
    reveal_strlit("/");
    reveal_strlit("latest");
    assert("/"@ =~= seq!['/']);
    assert(is_component("latest"@));
    law_version_text_has_no_slash(release.release.version@);
    lemma_version_begins_with_a_digit(release.release.version@);
    if let ReqVersionText::Exact(v) = release.req_version@ {
        law_version_text_has_no_slash(v);
        lemma_version_begins_with_a_digit(v);
    }
    let canonical = canonical_req_version(release.req_version@, release.release.version@);
    assert(is_component(canonical.text()));
    let name = release.release.target_name.unwrap()@;
    let none = Seq::<char>::empty();
    let rest = if target is None || target == Some("index.html"@) || target == Some(name) {
        seq![name, none]
    } else {
        seq![target.unwrap(), name, none]
    };
    assert forall|i: int| 0 <= i < rest.len() implies is_component(#[trigger] rest[i]) by {
        assert(is_component(none));
    }
    law_path_keeps_components(release.exact_name(), canonical.text(), rest);
    let end = seq![name, none];
    lemma_joined_first(end, "/"@);
    assert(end.skip(1) =~= seq![none]);
    assert(joined(seq![none], "/"@) == none);
    assert(joined(end, "/"@) =~= name + "/"@);
    if rest.len() == 3 {
        lemma_joined_first(rest, "/"@);
        assert(rest.skip(1) =~= end);
        assert(joined(rest, "/"@) =~= target.unwrap() + "/"@ + name + "/"@);
    }
    assert(start_page_path(release.exact_name(), canonical, target, name) =~= release_path(
        release.exact_name(),
        canonical.text(),
        rest,
    ));
}

/// The name of a crate and a path inside it are what stands before and behind the first pair of
/// colons in what was asked for.
pub proof fn law_names_are_split_at_the_first_colons(name: Seq<char>)
    ensures
        path_part(name) matches Some(path) ==> crate_part(name) + "::"@ + path == name,
        path_part(name) is None ==> crate_part(name) == name,
        forall|i: int|
            0 <= i < crate_part(name).len() - 1 ==> !(#[trigger] crate_part(name)[i] == ':'
                && crate_part(name)[i + 1] == ':'),
{
    reveal_strlit("::");
    let needle = "::"@;
    lemma_first_match(name, needle);
    if let Some(k) = first_match(name, needle) {
        let behind = name.skip(k);
        assert(behind.take(2) == needle);
        assert(name[k] == behind.take(2)[0] && name[k + 1] == behind.take(2)[1]);
        assert(crate_part(name) + needle + name.skip(k + 2) =~= name);
    }
    let part = crate_part(name);
    assert forall|i: int| 0 <= i < part.len() - 1 implies !(#[trigger] part[i] == ':' && part[i
        + 1] == ':') by {
        if part[i] == ':' && part[i + 1] == ':' {
            assert(name[i] == ':' && name[i + 1] == ':');
            assert(name.skip(i).take(2) =~= needle);
            assert(needle.is_prefix_of(name.skip(i)));
        }
    }
}

/// A crate that is part of Rust's own has one name, which leads to the same documentation as every
/// other name of it does. The documentation is on the site of Rust's own, and ends in a folder.
pub proof fn law_official_crates_have_one_name(name: Seq<char>)
    ensures
        official(name) matches Some(d) ==> {
            &&& official(d.0) == official(name)
            &&& name == d.0 || name == "lib"@ + d.0 || d.0 == "proc_macro"@
            &&& "https://doc.rust-lang.org/"@.is_prefix_of(d.1)
            &&& (d.0 + "/"@).is_suffix_of(d.1)
        },
{
    reveal_strlit("/");
    reveal_strlit("lib");
    reveal_strlit("alloc");
    reveal_strlit("liballoc");
    reveal_strlit("core");
    reveal_strlit("libcore");
    reveal_strlit("proc_macro");
    reveal_strlit("proc-macro");
    reveal_strlit("libproc_macro");
    reveal_strlit("libproc-macro");
    reveal_strlit("std");
    reveal_strlit("libstd");
    reveal_strlit("test");
    reveal_strlit("libtest");
    reveal_strlit("rustc");
    reveal_strlit("rustdoc");
    reveal_strlit("https://doc.rust-lang.org/");
    reveal_strlit("https://doc.rust-lang.org/stable/alloc/");
    reveal_strlit("https://doc.rust-lang.org/stable/core/");
    reveal_strlit("https://doc.rust-lang.org/stable/proc_macro/");
    reveal_strlit("https://doc.rust-lang.org/stable/std/");
    reveal_strlit("https://doc.rust-lang.org/stable/test/");
    reveal_strlit("https://doc.rust-lang.org/nightly/nightly-rustc/");
    reveal_strlit("https://doc.rust-lang.org/nightly/nightly-rustc/rustdoc/");
    if let Some(d) = official(name) {
        let href = d.1;
        let site = "https://doc.rust-lang.org/"@;
        assert(href.take(site.len() as int) =~= site);
        let end = d.0 + "/"@;
        assert(href.skip(href.len() - end.len()) =~= end);
        assert("liballoc"@ =~= "lib"@ + "alloc"@);
        assert("libcore"@ =~= "lib"@ + "core"@);
        assert("libstd"@ =~= "lib"@ + "std"@);
        assert("libtest"@ =~= "lib"@ + "test"@);
        assert("alloc"@.len() == 5 && "core"@.len() == 4 && "std"@.len() == 3 && "test"@.len() == 4);
        assert("proc_macro"@.len() == 10 && "rustc"@.len() == 5 && "rustdoc"@.len() == 7);
        assert("alloc"@[0] == 'a' && "rustc"@[0] == 'r' && "core"@[0] == 'c' && "test"@[0] == 't');
        assert("liballoc"@.len() == 8 && "libcore"@.len() == 7 && "libcore"@[0] == 'l');
        assert("libstd"@.len() == 6 && "libtest"@.len() == 7 && "libtest"@[0] == 'l');
        assert("rustdoc"@[0] == 'r');
        assert("libproc_macro"@.len() == 13 && "libproc-macro"@.len() == 13);
        assert("proc-macro"@.len() == 10);
    }
}

/// The query for a documentation page holds what the request gave, each name once and with the
/// last value that was given for it. The path inside a crate is searched for where the request
/// searches for nothing itself, and nothing else is added.
pub proof fn law_doc_query_holds_what_was_given(
    pairs: PairTexts,
    path_in_crate: Option<Seq<char>>,
    given: PairTexts,
)
    requires
        is_doc_query(pairs, path_in_crate, given),
    ensures
        forall|i: int|
            0 <= i < given.len() && (forall|j: int|
                i < j < given.len() ==> (#[trigger] given[j]).0 != given[i].0) ==> pairs.contains(
                #[trigger] given[i],
            ),
        forall|k: int|
            0 <= k < pairs.len() ==> given.contains(#[trigger] pairs[k]) || (path_in_crate is Some
                && pairs[k] == ("search"@, path_in_crate.unwrap())),
        forall|k: int, l: int|
            0 <= k < pairs.len() && 0 <= l < pairs.len() && k != l ==> (#[trigger] pairs[k]).0 != (
            #[trigger] pairs[l]).0,
        (forall|i: int| 0 <= i < given.len() ==> (#[trigger] given[i]).0 != "search"@) && path_in_crate
            is Some ==> pairs.contains(("search"@, path_in_crate.unwrap())),
        (exists|i: int| 0 <= i < given.len() && (#[trigger] given[i]).0 == "search"@) ==> forall|
            k: int,
        | 0 <= k < pairs.len() && (#[trigger] pairs[k]).0 == "search"@ ==> given.contains(pairs[k]),
{
    assert forall|k: int, l: int| 0 <= k < pairs.len() && 0 <= l < pairs.len() && k
        != l implies (#[trigger] pairs[k]).0 != (#[trigger] pairs[l]).0 by {
        lemma_text_less_irreflexive(pairs[k].0);
        if k < l {
            assert(text_less(pairs[k].0, pairs[l].0));
        } else {
            assert(text_less(pairs[l].0, pairs[k].0));
        }
    }
    assert forall|i: int|
        0 <= i < given.len() && (forall|j: int|
            i < j < given.len() ==> (#[trigger] given[j]).0 != given[i].0) implies pairs.contains(
        #[trigger] given[i],
    ) by {
        lemma_lookup_last(given, i);
        assert(lookup(pairs, given[i].0) == Some(given[i].1));
        lemma_lookup_is_last(pairs, given[i].0);
        let k = choose|k: int| 0 <= k < pairs.len() && pairs[k] == (given[i].0, given[i].1);
        assert(pairs[k] == given[i]);
    }
    assert forall|k: int| 0 <= k < pairs.len() implies given.contains(#[trigger] pairs[k]) || (
    path_in_crate is Some && pairs[k] == ("search"@, path_in_crate.unwrap())) by {
        let name = pairs[k].0;
        assert forall|i: int| k < i < pairs.len() implies (#[trigger] pairs[i]).0 != name by {
            assert(pairs[k].0 != pairs[i].0);
        }
        lemma_lookup_last(pairs, k);
        lemma_lookup_is_last(given, name);
        assert(lookup(pairs, name) == Some(pairs[k].1));
        if let Some(value) = lookup(given, name) {
            let i = choose|i: int| 0 <= i < given.len() && given[i] == (name, value);
            assert(given[i] == pairs[k]);
        }
    }
    lemma_lookup_missing(given, "search"@);
    lemma_lookup_is_last(pairs, "search"@);
    if (forall|i: int| 0 <= i < given.len() ==> (#[trigger] given[i]).0 != "search"@)
        && path_in_crate is Some {
        assert(lookup(pairs, "search"@) == path_in_crate);
        let value = path_in_crate.unwrap();
        let k = choose|k: int| 0 <= k < pairs.len() && pairs[k] == ("search"@, value);
        assert(pairs[k] == ("search"@, value));
    }
    if exists|i: int| 0 <= i < given.len() && (#[trigger] given[i]).0 == "search"@ {
        let i = choose|i: int| 0 <= i < given.len() && (#[trigger] given[i]).0 == "search"@;
        lemma_lookup_present(given, i);
        lemma_lookup_is_last(given, "search"@);
        let value = lookup(given, "search"@).unwrap();
        let g = choose|g: int| 0 <= g < given.len() && given[g] == ("search"@, value);
        assert forall|k: int| 0 <= k < pairs.len() && (#[trigger] pairs[k]).0
            == "search"@ implies given.contains(pairs[k]) by {
            assert forall|j: int| k < j < pairs.len() implies (#[trigger] pairs[j]).0
                != pairs[k].0 by {
                assert(pairs[k].0 != pairs[j].0);
            }
            lemma_lookup_last(pairs, k);
            assert(pairs[k] == given[g]);
        }
    }
}

/// A script or a style sheet below a crate is served from its documentation under the path that
/// was asked for, and nothing else is.
pub proof fn law_crate_assets_are_scripts_and_styles(
    action: RedirectorAction,
    target: Option<Seq<char>>,
    release: MatchedRelease,
    path_in_crate: Option<Seq<char>>,
    given: PairTexts,
    query: Option<Seq<char>>,
    keys: Seq<Seq<char>>,
)
    requires
        is_action(action, target, release, path_in_crate, given, query, keys),
    ensures
        action is CrateAsset <==> target is Some && (file_extension(target.unwrap()) == Some("js"@)
            || file_extension(target.unwrap()) == Some("css"@)),
        action matches RedirectorAction::CrateAsset { release: found, path } ==> target == Some(
            path@,
        ) && found.name@ == release.exact_name() && found.release == release.release,
{
    if let Some(t) = target {
        reveal_strlit("js");
        reveal_strlit("css");
        reveal_strlit(".js");
        reveal_strlit(".css");
        reveal_strlit(".");
        assert(".js"@ =~= "."@ + "js"@);
        assert(".css"@ =~= "."@ + "css"@);
        law_file_extension_ends_the_path(t);
        if ".js"@.is_suffix_of(t) {
            lemma_extension_is(t, "js"@);
        }
        if ".css"@.is_suffix_of(t) {
            lemma_extension_is(t, "css"@);
        }
    }
}

/// What follows the last dot is the extension, where it has no slash in it.
pub proof fn lemma_extension_is(path: Seq<char>, ext: Seq<char>)
    requires
        ("."@ + ext).is_suffix_of(path),
        !ext.contains('.'),
        !ext.contains('/'),
    ensures
        file_extension(path) == Some(ext),
        after_last_dot(path) == Some(ext),
{
    reveal_strlit(".");
    let end = "."@ + ext;
    let k = path.len() - end.len();
    assert(path.skip(k) == end);
    assert(path[k] == end[0]);
    assert(path.skip(k + 1) =~= ext) by {
        assert forall|i: int| 0 <= i < ext.len() implies path[k + 1 + i] == ext[i] by {
            assert(path.skip(k)[1 + i] == end[1 + i]);
        }
    }
    assert forall|j: int| k < j < path.len() implies path[j] != '.' by {
        assert(path[j] == path.skip(k + 1)[j - k - 1]);
        assert(ext.contains(ext[j - k - 1]));
    }
    lemma_last_index_is(path, '.', k);
}

/// What fails because nothing is stored under a path is not found. What is known to be answered is
/// answered so, and everything else is a fault of the server, with what was reported.
pub proof fn law_failures_are_answered(err: Failure)
    ensures
        err is PathNotFound ==> answer_of(err).status() == 404,
        err matches Failure::Nope(nope) ==> answer_of(err) == nope,
        err matches Failure::Other(message) ==> answer_of(err).status() == 500 && answer_of(
            err,
        ).message() == message@,
        answer_of(err) == <AxumNope as vstd::std_specs::convert::FromSpec<Failure>>::from_spec(err),
{
}

/// A name that ends in the extension of an asset is served as one, under that name, whatever
/// stands before the extension.
pub proof fn law_shared_assets_are_served(
    start: RedirectorStart,
    stem: Seq<char>,
    ext: Seq<char>,
    uri_path: Seq<char>,
    given: PairTexts,
    keys: Seq<Seq<char>>,
)
    requires
        is_start(start, stem + "."@ + ext, uri_path, given, keys),
        ext == "css"@ || ext == "js"@ || ext == "png"@ || ext == "svg"@ || ext == "woff"@ || ext
            == "woff2"@,
    ensures
        start matches RedirectorStart::LegacyAsset(path) && path@ == stem + "."@ + ext,
{
    reveal_strlit("css");
    reveal_strlit("js");
    reveal_strlit("png");
    reveal_strlit("svg");
    reveal_strlit("woff");
    reveal_strlit("woff2");
    let name = stem + "."@ + ext;
    let end = "."@ + ext;
    assert(name.skip(name.len() - end.len()) =~= end);
    lemma_extension_is(name, ext);
}

/// A name without a dot is that of a crate, and no asset. Where the URL ends in the extension of
/// an icon, the icon of the site is led to. Where the crate is part of Rust's own, its own
/// documentation is. In every other case a release is looked for.
pub proof fn law_crates_are_looked_for(
    start: RedirectorStart,
    name: Seq<char>,
    uri_path: Seq<char>,
    given: PairTexts,
    keys: Seq<Seq<char>>,
)
    requires
        is_start(start, name, uri_path, given, keys),
        !name.contains('.'),
    ensures
        !(start is LegacyAsset),
        file_extension(uri_path) == Some("ico"@) ==> (start matches RedirectorStart::Redirect(to)
            && (to.base matches Base::Path(p) && p@ == "/-/static/favicon.ico"@) && to.query.value()
            is None && to.cache_policy@ is ForeverInCdnAndBrowser),
        !uri_path.contains('.') && official(crate_part(name)) is Some ==> (
        start matches RedirectorStart::Redirect(to) && (to.base matches Base::Url(u) && u@
            == official(crate_part(name)).unwrap().1) && to.cache_policy@.keys() == keys && (
        to.query matches Query::Pairs(pairs) && is_doc_query(
            pair_texts(pairs@),
            path_part(name),
            given,
        ))),
        !uri_path.contains('.') && official(crate_part(name)) is None ==> (
        start matches RedirectorStart::MatchRelease { crate_name, path_in_crate } && name
            == crate_name@ + (match path_in_crate {
            Some(path) => "::"@ + path@,
            None => Seq::empty(),
        })),
{
    reveal_strlit("ico");
    reveal_strlit(".");
    lemma_last_index(name, '.');
    lemma_last_index(uri_path, '.');
    law_file_extension_ends_the_path(uri_path);
    law_names_are_split_at_the_first_colons(name);
    if file_extension(uri_path) == Some("ico"@) {
        lemma_extension_is(uri_path, "ico"@);
    }
    if path_part(name) is Some {
        let path = path_part(name).unwrap();
        assert(crate_part(name) + "::"@ + path =~= crate_part(name) + ("::"@ + path));
    } else {
        assert(crate_part(name) + Seq::<char>::empty() =~= crate_part(name));
    }
}

/// The version that is looked for is the one that was asked for, or the newest where none was.
pub proof fn law_newest_version_is_looked_for_by_default(
    request: RedirectorRequest,
    keys: Seq<Seq<char>>,
    next: RedirectorState,
)
    requires
        RedirectorState::starts(request, keys, next),
    ensures
        next matches RedirectorState::MatchRelease { request: same, version, .. } ==> same
            == request && (request.version matches Some(v) ==> version@ == v@) && (
        request.version is None ==> version@.text() == "latest"@),
{
}

/// A file that a release does not hold is looked for at the root under the same name, where its
/// name is that of an asset that builds share, and else the failure is the answer. At the root
/// every failure is.
pub proof fn law_missing_assets_are_shared_ones(
    state: RedirectorState,
    err: Failure,
    keys: Seq<Seq<char>>,
    next: RedirectorState,
)
    requires
        state.accepts(RedirectorEvent::FileFailed(err)),
        state.leads_to(RedirectorEvent::FileFailed(err), keys, next),
    ensures
        next matches RedirectorState::FetchLegacyAsset { path } ==> (
        state matches RedirectorState::FetchCrateAsset { path: asked, .. } && path@ == asked@ && (
        path@.len() >= 7 && (path@.take(7) == "search-"@ || (path@.len() >= 9 && path@.take(9)
            == "settings-"@)))),
        state matches RedirectorState::FetchCrateAsset { path: asked, .. } ==> ("search-"@.is_prefix_of(
            asked@,
        ) || "settings-"@.is_prefix_of(asked@) ==> next is FetchLegacyAsset),
        !(next is FetchLegacyAsset) ==> next == RedirectorState::Fail(answer_of(err)),
{
    reveal_strlit("search-");
    reveal_strlit("settings-");
}

} // verus!
