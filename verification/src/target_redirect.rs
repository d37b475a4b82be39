//! Requests that lead to the same page for another target or version, or to a search where there
//! is no such page.
use crate::error::AxumNope;
use crate::header::SurrogateKeys;
use crate::query::{form_text, pair_texts, PairTexts};
use crate::redirection::{Base, Query, Redirection};
use crate::redirector::{page_policy, policy_for_page};
use crate::release::{CrateDetails, MatchedRelease};
use crate::rustdoc_page::{
    is_canonical, is_component, law_path_keeps_components, release_path, requested_components,
};
use crate::rustdoc_params::is_one_of;
use crate::text::{
    join, joined, lemma_joined_first, lemma_pieces, lemma_pieces_concat, lemma_single_piece,
    maybe_text, owned_texts, pieces, same_text, split, strip_suffix, stripped_suffix,
    texts,
};
use crate::version::{ReqVersion, ReqVersionText};
use vstd::prelude::*;
use vstd::string::StringExecFns;

verus! {

/// The target that comes first in a path, empty where none does.
pub open spec fn platform_of(file_path: Seq<Seq<char>>, targets: Seq<Seq<char>>) -> Seq<char> {
    if targets.contains(file_path[0]) {
        file_path[0]
    } else {
        Seq::empty()
    }
}

/// What to search for in place of a page that does not exist: the module, the item, or the
/// module that a source file holds.
pub open spec fn search_item(file_path: Seq<Seq<char>>, platform: Seq<char>) -> Option<Seq<char>> {
    let last = file_path.last();
    let source_place = if platform.len() == 0 {
        0int
    } else {
        1int
    };
    if last == "index.html"@ {
        if file_path.len() >= 2 {
            Some(file_path[file_path.len() - 2])
        } else {
            None
        }
    } else if last == platform {
        None
    } else if !(source_place < file_path.len() && file_path[source_place] == "src"@) {
        if pieces(last, '.').len() >= 2 {
            Some(pieces(last, '.')[1])
        } else {
            None
        }
    } else {
        stripped_suffix(last, ".rs.html"@)
    }
}

/// The start page of a target's documentation.
pub open spec fn start_of(platform: Seq<char>, target_name: Seq<char>) -> Seq<char> {
    if platform.len() == 0 {
        target_name + "/"@
    } else {
        platform + "/"@ + target_name + "/"@
    }
}

/// A query with what to search for.
pub open spec fn search_query(item: Option<Seq<char>>) -> PairTexts {
    match item {
        Some(i) => seq![("search"@, i)],
        None => Seq::empty(),
    }
}

/// Where to go in place of a page that does not exist: the start page of the documentation for
/// the same target, with a search for what was asked for. `file_path` is
/// `[platform/]module/[kind.name.html|index.html]`, component by component. The path that is
/// returned goes behind `/crate/version/`.
pub fn path_for_version(file_path: &Vec<&str>, crate_details: &CrateDetails) -> (r: (
    String,
    Vec<(String, String)>,
))
    requires
        file_path@.len() > 0,
        crate_details.metadata.doc_targets is Some,
        crate_details.target_name is Some,
    ensures
        ({
            let path = texts(file_path@);
            let platform = platform_of(
                path,
                owned_texts(crate_details.metadata.doc_targets.unwrap()@),
            );
            &&& r.0@ == start_of(platform, crate_details.target_name.unwrap()@)
            &&& pair_texts(r.1@) == search_query(search_item(path, platform))
        }),
{
    let ghost path = texts(file_path@);
    let n: usize = file_path.len();
    let first: &str = file_path[0];
    let last: &str = file_path[n - 1];
    proof {
        assert(path[0] == first@ && path.last() == last@);
        reveal_strlit("");
        assert(""@ =~= Seq::<char>::empty());
    }
    let platform: &str = match &crate_details.metadata.doc_targets {
        Some(targets) if is_one_of(targets, first) => first,
        _ => "",
    };
    let is_source_view: bool = if platform.is_empty() {
        same_text(first, "src")
    } else {
        proof {
            if n > 1 {
                assert(path[1] == file_path@[1]@);
            }
        }
        n > 1 && same_text(file_path[1], "src")
    };
    let item: Option<String> = if same_text(last, "index.html") {
        if n >= 2 {
            assert(path[n - 2] == file_path@[n - 2]@);
            Some(file_path[n - 2].to_owned())
        } else {
            None
        }
    } else if same_text(last, platform) {
        None
    } else if !is_source_view {
        let parts: Vec<&str> = split(last, '.');
        assert(texts(parts@).len() == parts@.len());
        if parts.len() >= 2 {
            assert(texts(parts@)[1] == parts@[1]@);
            Some(parts[1].to_owned())
        } else {
            None
        }
    } else {
        match strip_suffix(last, ".rs.html") {
            Some(stem) => Some(stem.to_owned()),
            None => None,
        }
    };
    assert(maybe_text(item) == search_item(path, platform@));
    let mut start: String = String::new();
    if !platform.is_empty() {
        start.append(platform);
        start.append("/");
    }
    if let Some(target_name) = &crate_details.target_name {
        start.append(target_name.as_str());
        start.append("/");
    }
    assert(start@ =~= start_of(platform@, crate_details.target_name.unwrap()@));
    let query: Vec<(String, String)> = match item {
        Some(i) => vec![("search".to_owned(), i)],
        None => Vec::new(),
    };
    assert(pair_texts(query@) =~= search_query(search_item(path, platform@)));
    (start, query)
}

/// The components of the path where a page is stored: without the default target, which has no
/// folder, and with the index of a folder.
pub open spec fn location_components(req_path: Seq<char>, default_target: Seq<char>) -> Seq<
    Seq<char>,
> {
    let all = pieces(req_path, '/');
    let rest = if all[0] == default_target {
        all.skip(1)
    } else {
        all
    };
    if rest.len() > 0 && rest.last().len() == 0 {
        rest.drop_last().push("index.html"@)
    } else {
        rest
    }
}

/// The path where a page is stored.
pub open spec fn storage_location(req_path: Seq<char>, default_target: Seq<char>) -> Seq<char> {
    joined(location_components(req_path, default_target), "/"@)
}

/// The path where a page is stored. `req_path` begins with the target.
pub fn storage_location_for_path(req_path: &str, default_target: &str) -> (r: String)
    ensures
        r@ == storage_location(req_path@, default_target@),
{
    let parts: Vec<&str> = split(req_path, '/');
    let ghost all = texts(parts@);
    assert(all[0] == parts@[0]@);
    let n: usize = parts.len();
    let start: usize = if same_text(parts[0], default_target) {
        1
    } else {
        0
    };
    let mut rest: Vec<&str> = Vec::new();
    for i in start..n
        invariant
            n == parts@.len(),
            start <= n,
            all == texts(parts@),
            texts(rest@) == all.subrange(start as int, i as int),
    {
        let ghost before = rest@;
        rest.push(parts[i]);
        assert(texts(rest@) =~= texts(before).push(all[i as int]));
        assert(all.subrange(start as int, i + 1) =~= all.subrange(start as int, i as int).push(
            all[i as int],
        ));
    }
    let ghost kept = all.skip(start as int);
    assert(texts(rest@) =~= kept);
    assert(start == 0 ==> kept =~= all);
    let m: usize = rest.len();
    if m > 0 {
        assert(kept.last() == rest@[m - 1]@);
        if rest[m - 1].is_empty() {
            let _ = rest.pop();
            rest.push("index.html");
            assert(texts(rest@) =~= kept.drop_last().push("index.html"@));
        }
    }
    join(&rest, "/")
}

/// The release to look at, where the version that was asked for is the one that URLs ask for.
pub fn match_target_redirect(release: MatchedRelease) -> (r: Result<MatchedRelease, AxumNope>)
    ensures
        r is Ok <==> is_canonical(release),
        r matches Ok(found) ==> found.name == release.name && found.corrected_name
            == release.corrected_name && found.release == release.release && found.req_version@
            == release.req_version@,
        r matches Err(e) ==> e is VersionNotFound,
{
    match release.canonically_versioned() {
        Ok(found) => Ok(found),
        Err(_) => Err(AxumNope::VersionNotFound),
    }
}

/// The path where the page that was asked for is stored. A release whose build failed early has
/// no default target, and no pages.
pub fn locate_target_redirect(req_path: &str, crate_details: &CrateDetails) -> (r: Result<
    String,
    AxumNope,
>)
    ensures
        r is Ok <==> crate_details.metadata.default_target is Some,
        r matches Ok(location) ==> location@ == storage_location(
            req_path@,
            crate_details.metadata.default_target.unwrap()@,
        ),
        r matches Err(e) ==> e is VersionNotFound,
{
    match &crate_details.metadata.default_target {
        Some(default_target) => Ok(storage_location_for_path(req_path, default_target.as_str())),
        None => Err(AxumNope::VersionNotFound),
    }
}

/// Whether `r` leads to the page where it exists, else to a search for it.
pub open spec fn is_target_redirect(
    r: Redirection,
    name: Seq<char>,
    req_version: ReqVersionText,
    location: Seq<char>,
    exists: bool,
    crate_details: CrateDetails,
    keys: Seq<Seq<char>>,
) -> bool {
    let path = pieces(location, '/');
    let platform = platform_of(path, owned_texts(crate_details.metadata.doc_targets.unwrap()@));
    let rest = if exists {
        location
    } else {
        start_of(platform, crate_details.target_name.unwrap()@)
    };
    let item = if exists {
        None
    } else {
        search_item(path, platform)
    };
    &&& r.is_to("/"@ + name + "/"@ + req_version.text() + "/"@ + rest)
    &&& r.query matches Query::Pairs(pairs) && pair_texts(pairs@) == search_query(item)
    &&& r.cache_policy@ == page_policy(req_version == ReqVersionText::Latest, keys)
}

/// Where to go: to the page where it exists, else to a search for it.
pub fn redirect_to_target(
    name: &str,
    req_version: &ReqVersion,
    location: &str,
    exists: bool,
    crate_details: &CrateDetails,
    keys: &SurrogateKeys,
) -> (r: Redirection)
    requires
        !exists ==> crate_details.metadata.doc_targets is Some && crate_details.target_name is Some,
    ensures
        is_target_redirect(r, name@, req_version@, location@, exists, *crate_details, keys@),
{
    let (rest, query): (String, Vec<(String, String)>) = if exists {
        let none: Vec<(String, String)> = Vec::new();
        assert(pair_texts(none@) =~= Seq::empty());
        (location.to_owned(), none)
    } else {
        let parts: Vec<&str> = split(location, '/');
        path_for_version(&parts, crate_details)
    };
    let mut path: String = "/".to_owned();
    path.append(name);
    path.append("/");
    path.append(req_version.to_text().as_str());
    path.append("/");
    path.append(rest.as_str());
    Redirection {
        base: Base::Path(path),
        query: Query::Pairs(query),
        cache_policy: policy_for_page(req_version.is_latest(), keys),
    }
}

/// A request for a page for a target.
#[derive(Debug)]
pub struct TargetRedirectRequest {
    pub name: String,
    pub req_version: ReqVersion,
    /// The target, and behind it the path of the page.
    pub req_path: String,
}

/// How far a request has come, and what is to be done next for it.
#[derive(Debug)]
#[allow(inconsistent_fields)]
pub enum TargetRedirectState {
    /// Look for the release that the request asks for.
    MatchRelease { request: TargetRedirectRequest },
    /// Load what is known of the crate.
    LoadDetails { request: TargetRedirectRequest, release: MatchedRelease },
    /// Find out whether the archive of the release holds a file.
    CheckFile { request: TargetRedirectRequest, krate: CrateDetails, location: String },
    /// Answer with a redirect.
    Redirect(Redirection),
    /// Answer with an error.
    Fail(AxumNope),
}

/// What came of what was to be done for a request.
#[derive(Debug)]
pub enum TargetRedirectEvent {
    Release(Result<MatchedRelease, AxumNope>),
    Details(Result<CrateDetails, AxumNope>),
    Exists(Result<bool, AxumNope>),
}

impl TargetRedirectState {
    /// Documentation that is looked into is there.
    pub open spec fn valid(self) -> bool {
        self matches TargetRedirectState::CheckFile { krate, .. } ==> krate.has_docs()
    }

    /// Whether an event can come of what is to be done. A crate with a default target has
    /// documentation.
    pub open spec fn accepts(self, event: TargetRedirectEvent) -> bool {
        match self {
            TargetRedirectState::MatchRelease { .. } => event is Release,
            TargetRedirectState::LoadDetails { .. } => event matches TargetRedirectEvent::Details(
                details,
            ) && (details matches Ok(krate) ==> krate.metadata.default_target is Some
                ==> krate.has_docs()),
            TargetRedirectState::CheckFile { .. } => event is Exists,
            _ => false,
        }
    }

    /// Whether `next` is what a request comes to by an event.
    pub open spec fn leads_to(
        self,
        event: TargetRedirectEvent,
        keys: Seq<Seq<char>>,
        next: TargetRedirectState,
    ) -> bool {
        match (self, event) {
            (
                TargetRedirectState::MatchRelease { request },
                TargetRedirectEvent::Release(Ok(release)),
            ) => if is_canonical(release) {
                next matches TargetRedirectState::LoadDetails { request: same, release: found }
                    && same == request && found.name == release.name && found.corrected_name
                    == release.corrected_name && found.release == release.release
                    && found.req_version@ == release.req_version@
            } else {
                next matches TargetRedirectState::Fail(e) && e is VersionNotFound
            },
            (
                TargetRedirectState::LoadDetails { request, .. },
                TargetRedirectEvent::Details(Ok(krate)),
            ) => match krate.metadata.default_target {
                Some(default_target) => next matches TargetRedirectState::CheckFile {
                    request: same,
                    krate: of,
                    location,
                } && same == request && of == krate && location@ == storage_location(
                    request.req_path@,
                    default_target@,
                ),
                None => next matches TargetRedirectState::Fail(e) && e is VersionNotFound,
            },
            (
                TargetRedirectState::CheckFile { request, krate, location },
                TargetRedirectEvent::Exists(Ok(exists)),
            ) => next matches TargetRedirectState::Redirect(to) && is_target_redirect(
                to,
                request.name@,
                request.req_version@,
                location@,
                exists,
                krate,
                keys,
            ),
            (_, TargetRedirectEvent::Release(Err(e))) => next == TargetRedirectState::Fail(e),
            (_, TargetRedirectEvent::Details(Err(e))) => next == TargetRedirectState::Fail(e),
            (_, TargetRedirectEvent::Exists(Err(e))) => next == TargetRedirectState::Fail(e),
            _ => false,
        }
    }

    /// Goes on with what came of what was to be done.
    pub fn proceed(self, event: TargetRedirectEvent, keys: &SurrogateKeys) -> (r:
        TargetRedirectState)
        requires
            self.valid(),
            self.accepts(event),
        ensures
            r.valid(),
            self.leads_to(event, keys@, r),
    {
        match (self, event) {
            (
                TargetRedirectState::MatchRelease { request },
                TargetRedirectEvent::Release(Ok(release)),
            ) => match match_target_redirect(release) {
                Ok(release) => TargetRedirectState::LoadDetails { request, release },
                Err(e) => TargetRedirectState::Fail(e),
            },
            (
                TargetRedirectState::LoadDetails { request, .. },
                TargetRedirectEvent::Details(Ok(krate)),
            ) => match locate_target_redirect(request.req_path.as_str(), &krate) {
                Ok(location) => TargetRedirectState::CheckFile { request, krate, location },
                Err(e) => TargetRedirectState::Fail(e),
            },
            (
                TargetRedirectState::CheckFile { request, krate, location },
                TargetRedirectEvent::Exists(Ok(exists)),
            ) => TargetRedirectState::Redirect(
                redirect_to_target(
                    request.name.as_str(),
                    &request.req_version,
                    location.as_str(),
                    exists,
                    &krate,
                    keys,
                ),
            ),
            (_, TargetRedirectEvent::Release(Err(e))) => TargetRedirectState::Fail(e),
            (_, TargetRedirectEvent::Details(Err(e))) => TargetRedirectState::Fail(e),
            (_, TargetRedirectEvent::Exists(Err(e))) => TargetRedirectState::Fail(e),
            _ => vstd::pervasive::unreached(),
        }
    }

    /// How many things are still to be done for a request, at most.
    pub open spec fn steps_left(self) -> nat {
        match self {
            TargetRedirectState::MatchRelease { .. } => 3,
            TargetRedirectState::LoadDetails { .. } => 2,
            TargetRedirectState::CheckFile { .. } => 1,
            _ => 0,
        }
    }
}

/// Every request is answered: each event brings it closer to its answer.
pub proof fn law_target_redirects_are_answered(
    state: TargetRedirectState,
    event: TargetRedirectEvent,
    keys: Seq<Seq<char>>,
    next: TargetRedirectState,
)
    requires
        state.accepts(event),
        state.leads_to(event, keys, next),
    ensures
        next.steps_left() < state.steps_left(),
{
}

/// In place of the index of a module, at any depth and for any target, the module itself is
/// searched for. What comes before it in the path makes no difference.
pub proof fn law_modules_are_searched_by_their_name(
    before: Seq<Seq<char>>,
    module: Seq<char>,
    platform: Seq<char>,
)
    ensures
        search_item(before.push(module).push("index.html"@), platform) == Some(module),
        search_item(before.push(module).push("index.html"@), platform) == search_item(
            seq![module, "index.html"@],
            platform,
        ),
{
    let path = before.push(module).push("index.html"@);
    assert(path.last() == "index.html"@);
    assert(path[path.len() - 2] == module);
    let short = seq![module, "index.html"@];
    assert(short.last() == "index.html"@);
    assert(short[short.len() - 2] == module);
}

/// In place of the page of an item, which is named after the kind and the name of the item, the
/// name is searched for, at any depth and for any target.
pub proof fn law_items_are_searched_by_their_name(
    before: Seq<Seq<char>>,
    kind: Seq<char>,
    name: Seq<char>,
    rest: Seq<char>,
    platform: Seq<char>,
)
    requires
        !kind.contains('.'),
        !name.contains('.'),
        ({
            let last = kind + "."@ + name + "."@ + rest;
            let path = before.push(last);
            &&& last != platform
            &&& platform.len() == 0 ==> path[0] != "src"@
            &&& platform.len() > 0 && path.len() > 1 ==> path[1] != "src"@
        }),
    ensures
        search_item(before.push(kind + "."@ + name + "."@ + rest), platform) == Some(name),
{
    reveal_strlit(".");
    reveal_strlit("index.html");
    let last = kind + "."@ + name + "."@ + rest;
    let path = before.push(last);
    assert(path.last() == last);
    let behind = name.push('.') + rest;
    lemma_single_piece(kind, '.');
    lemma_single_piece(name, '.');
    lemma_pieces_concat(name, rest, '.');
    lemma_pieces_concat(kind, behind, '.');
    lemma_pieces(rest, '.');
    assert(last =~= kind.push('.') + behind);
    let p = pieces(last, '.');
    assert(p == seq![kind] + (seq![name] + pieces(rest, '.')));
    assert(p[1] == name && p.len() >= 3);
    assert(last != "index.html"@) by {
        let k = kind.len() as int;
        let m = k + 1 + name.len();
        assert(last[k] == '.' && last[m] == '.');
        if last == "index.html"@ {
            assert("index.html"@[k] == '.');
            assert("index.html"@[m] == '.');
        }
    }
}

/// In place of a page that shows the source of a file, the module in that file is searched for.
pub proof fn law_sources_are_searched_by_their_module(
    before: Seq<Seq<char>>,
    module: Seq<char>,
    platform: Seq<char>,
)
    requires
        ({
            let last = module + ".rs.html"@;
            let path = before.push(last);
            &&& last != platform
            &&& platform.len() == 0 ==> path[0] == "src"@
            &&& platform.len() > 0 ==> path.len() > 1 && path[1] == "src"@
        }),
    ensures
        search_item(before.push(module + ".rs.html"@), platform) == Some(module),
{
    reveal_strlit(".rs.html");
    reveal_strlit("index.html");
    let last = module + ".rs.html"@;
    let path = before.push(last);
    assert(path.last() == last);
    assert(last.skip(last.len() - 8) =~= ".rs.html"@);
    assert(last.take(last.len() - 8) =~= module);
    if last == "index.html"@ {
        assert(last[last.len() - 6] == ".rs.html"@[2]);
        assert("index.html"@[4] == 'x');
    }
}

/// The start page of a target ends in the folder of the crate, and stands in the folder of the
/// target exactly where there is one.
pub proof fn law_start_is_the_folder_of_the_crate(platform: Seq<char>, target_name: Seq<char>)
    ensures
        (target_name + "/"@).is_suffix_of(start_of(platform, target_name)),
        platform.len() > 0 ==> start_of(platform, target_name) == platform + "/"@ + start_of(
            Seq::empty(),
            target_name,
        ),
{
    let s = start_of(platform, target_name);
    let end = target_name + "/"@;
    assert(s.skip(s.len() - end.len()) =~= end);
    assert(start_of(Seq::empty(), target_name) == end);
    assert(platform + "/"@ + end =~= platform + "/"@ + target_name + "/"@);
}

/// The pages of the default target are stored at the root, and those of another target in the
/// folder of its name. A folder is stored as its index.
pub proof fn law_targets_are_folders_in_the_storage(
    target: Seq<char>,
    default_target: Seq<char>,
    path: Seq<char>,
)
    requires
        !target.contains('/'),
    ensures
        ({
            let location = storage_location(target + "/"@ + path, default_target);
            let stored = if path.len() == 0 || path.last() == '/' {
                path + "index.html"@
            } else {
                path
            };
            if target == default_target {
                location == stored
            } else {
                location == target + "/"@ + stored
            }
        }),
{
    reveal_strlit("/");
    assert("/"@ =~= seq!['/']);
    let req_path = target + "/"@ + path;
    let p = pieces(path, '/');
    lemma_pieces(path, '/');
    lemma_single_piece(target, '/');
    lemma_pieces_concat(target, path, '/');
    assert(req_path =~= target.push('/') + path);
    let all = pieces(req_path, '/');
    assert(all =~= seq![target] + p);
    assert(all.skip(1) =~= p);
    let index = "index.html"@;
    let is_folder = path.len() == 0 || path.last() == '/';
    assert(p.last().len() == 0 <==> is_folder);
    let rest = if is_folder {
        p.drop_last().push(index)
    } else {
        p
    };
    let stored = if is_folder {
        path + index
    } else {
        path
    };
    if is_folder {
        assert(p.last() =~= Seq::<char>::empty());
        assert(rest.drop_last() =~= p.drop_last());
        if p.len() == 1 {
            assert(joined(p, "/"@) == p[0]);
            assert(rest =~= seq![index]);
            assert(joined(rest, "/"@) =~= path + index);
        } else {
            assert(joined(p, "/"@) =~= joined(p.drop_last(), "/"@) + "/"@);
            assert(joined(rest, "/"@) =~= path + index);
        }
    }
    assert(joined(rest, "/"@) == stored);
    let whole = seq![target] + rest;
    if target == default_target {
        assert(location_components(req_path, default_target) =~= rest);
    } else {
        assert(all.last() == p.last());
        assert(location_components(req_path, default_target) =~= whole);
        lemma_joined_first(whole, "/"@);
        assert(whole.skip(1) =~= rest);
    }
}

/// A page that exists is led to as it is, and without a search. In place of one that does not, the
/// start page is led to. The name and the version are those of the request.
pub proof fn law_target_redirects_lead_to_the_page(
    to: Redirection,
    name: Seq<char>,
    req_version: ReqVersionText,
    location: Seq<char>,
    exists_there: bool,
    crate_details: CrateDetails,
    keys: Seq<Seq<char>>,
)
    requires
        is_target_redirect(to, name, req_version, location, exists_there, crate_details, keys),
        crate_details.has_docs(),
        is_component(name),
        is_component(req_version.text()),
    ensures
        to.base matches Base::Path(p) && pieces(p@, '/')[1] == name && pieces(p@, '/')[2]
            == req_version.text() && (if exists_there {
            requested_components(p@) == pieces(location, '/')
        } else {
            (crate_details.target_name.unwrap()@ + "/"@).is_suffix_of(p@)
        }),
        exists_there ==> to.query.value() is None,
        req_version.text() == "latest"@ && !(req_version is Semver) && !(req_version is Exact)
            ==> to.cache_policy@ is ForeverInCdn,
        req_version is Exact ==> to.cache_policy@ is ForeverInCdnAndStaleInBrowser,
        to.cache_policy@.keys() == keys,
{
    reveal_strlit("/");
    assert("/"@ =~= seq!['/']);
    let file_path = pieces(location, '/');
    let platform = platform_of(
        file_path,
        owned_texts(crate_details.metadata.doc_targets.unwrap()@),
    );
    let rest = if exists_there {
        location
    } else {
        start_of(platform, crate_details.target_name.unwrap()@)
    };
    let parts = pieces(rest, '/');
    lemma_pieces(rest, '/');
    assert forall|i: int| 0 <= i < parts.len() implies is_component(#[trigger] parts[i]) by {}
    law_path_keeps_components(name, req_version.text(), parts);
    let path = "/"@ + name + "/"@ + req_version.text() + "/"@ + rest;
    assert(path == release_path(name, req_version.text(), parts));
    if !exists_there {
        law_start_is_the_folder_of_the_crate(platform, crate_details.target_name.unwrap()@);
        let end = crate_details.target_name.unwrap()@ + "/"@;
        assert(rest.skip(rest.len() - end.len()) == end);
        assert(path.skip(path.len() - end.len()) =~= end);
    }
}

/// A requirement is not followed, and a release without a default target has no pages: both are
/// not found. Everything else is looked for where it is stored, for the crate that was found.
pub proof fn law_target_redirects_are_for_one_version(
    state: TargetRedirectState,
    event: TargetRedirectEvent,
    keys: Seq<Seq<char>>,
    next: TargetRedirectState,
)
    requires
        state.accepts(event),
        state.leads_to(event, keys, next),
    ensures
        event matches TargetRedirectEvent::Release(Ok(release)) ==> (next is Fail
            <==> release.req_version@ is Semver) && (next is Fail || next is LoadDetails),
        event matches TargetRedirectEvent::Details(Ok(krate)) ==> (next is Fail
            <==> krate.metadata.default_target is None) && (next is Fail || next is CheckFile),
        event matches TargetRedirectEvent::Exists(Ok(_)) ==> next is Redirect,
        event matches TargetRedirectEvent::Release(Ok(_)) ==> (next matches TargetRedirectState::Fail(
            e,
        ) ==> e.status() == 404),
        event matches TargetRedirectEvent::Details(Ok(_)) ==> (next matches TargetRedirectState::Fail(
            e,
        ) ==> e.status() == 404),
        event matches TargetRedirectEvent::Release(Err(e)) ==> next == TargetRedirectState::Fail(e),
        event matches TargetRedirectEvent::Details(Err(e)) ==> next == TargetRedirectState::Fail(e),
        event matches TargetRedirectEvent::Exists(Err(e)) ==> next == TargetRedirectState::Fail(e),
{
}

/// The target of a path is its first component, where documentation was built for it, and there is
/// none otherwise.
pub proof fn law_platform_is_a_known_first_component(
    file_path: Seq<Seq<char>>,
    targets: Seq<Seq<char>>,
)
    requires
        file_path.len() > 0,
    ensures
        targets.contains(file_path[0]) ==> platform_of(file_path, targets) == file_path[0],
        !targets.contains(file_path[0]) ==> platform_of(file_path, targets).len() == 0,
{
}

/// The name of a target alone is nothing to search for, and neither is an index at the root.
pub proof fn law_targets_are_not_searched_for(before: Seq<Seq<char>>, platform: Seq<char>)
    requires
        platform != "index.html"@,
    ensures
        search_item(before.push(platform), platform) is None,
        search_item(seq!["index.html"@], platform) is None,
{
    assert(before.push(platform).last() == platform);
    assert(seq!["index.html"@].last() == "index.html"@);
}

/// A file that is named by one word is nothing to search for. The second part of a name that has
/// two is searched for, even without an extension. A source file that holds no module is nothing
/// to search for.
pub proof fn law_names_of_files_are_searched_by_their_second_part(
    before: Seq<Seq<char>>,
    word: Seq<char>,
    name: Seq<char>,
    file: Seq<char>,
    platform: Seq<char>,
)
    requires
        !word.contains('.'),
        !name.contains('.'),
        platform.len() == 0,
        word.len() > 0,
        word != "src"@ || before.len() > 0,
        before.len() > 0 ==> before[0] != "src"@,
        word + "."@ + name != "index.html"@,
        file != "index.html"@,
        file.len() > 0,
        !".rs.html"@.is_suffix_of(file),
    ensures
        search_item(before.push(word), platform) is None,
        search_item(before.push(word + "."@ + name), platform) == Some(name),
        search_item(seq!["src"@] + before.push(file), platform) is None,
{
    reveal_strlit(".");
    reveal_strlit("src");
    reveal_strlit("index.html");
    let both = word + "."@ + name;
    assert(before.push(word).last() == word);
    assert(before.push(both).last() == both);
    let source = seq!["src"@] + before.push(file);
    assert(source.last() == file);
    assert(source[0] == "src"@);
    lemma_single_piece(word, '.');
    lemma_single_piece(name, '.');
    lemma_pieces_concat(word, name, '.');
    assert(both =~= word.push('.') + name);
    assert(pieces(both, '.') =~= seq![word, name]);
    if word == "index.html"@ {
        assert("index.html"@[5] == '.');
        assert(word.contains(word[5]));
    }
    if before.len() == 0 {
        assert(before.push(both)[0] == both);
        if both == "src"@ {
            assert(both[word.len() as int] == '.');
            assert("src"@[word.len() as int] == '.');
        }
    }
}

/// In place of a page that does not exist, the redirect leads to the start page of the target that
/// the page was asked for, or of none, and searches for the item and for nothing else.
pub proof fn law_missing_pages_lead_to_a_search(
    to: Redirection,
    name: Seq<char>,
    req_version: ReqVersionText,
    location: Seq<char>,
    crate_details: CrateDetails,
    keys: Seq<Seq<char>>,
)
    requires
        is_target_redirect(to, name, req_version, location, false, crate_details, keys),
        crate_details.has_docs(),
        is_component(name),
        is_component(req_version.text()),
        is_component(crate_details.target_name.unwrap()@),
        !owned_texts(crate_details.metadata.doc_targets.unwrap()@).contains(Seq::<char>::empty()),
    ensures
        ({
            let file_path = pieces(location, '/');
            let targets = owned_texts(crate_details.metadata.doc_targets.unwrap()@);
            let folder = crate_details.target_name.unwrap()@;
            let known = targets.contains(file_path[0]);
            let item = search_item(
                file_path,
                if known {
                    file_path[0]
                } else {
                    Seq::empty()
                },
            );
            &&& to.base matches Base::Path(p) && requested_components(p@) == if known {
                seq![file_path[0], folder, Seq::empty()]
            } else {
                seq![folder, Seq::empty()]
            }
            &&& item is None ==> to.query.value() is None
            &&& item matches Some(i) ==> to.query.value() == Some(form_text(seq![("search"@, i)]))
        }),
{
    reveal_strlit("/");
    assert("/"@ =~= seq!['/']);
    let file_path = pieces(location, '/');
    lemma_pieces(location, '/');
    let targets = owned_texts(crate_details.metadata.doc_targets.unwrap()@);
    let folder = crate_details.target_name.unwrap()@;
    let none = Seq::<char>::empty();
    let known = targets.contains(file_path[0]);
    if file_path[0].len() == 0 {
        assert(file_path[0] =~= none);
    }
    let rest = if known {
        seq![file_path[0], folder, none]
    } else {
        seq![folder, none]
    };
    assert forall|i: int| 0 <= i < rest.len() implies is_component(#[trigger] rest[i]) by {
        assert(!file_path[0].contains('/'));
        assert(is_component(none));
    }
    law_path_keeps_components(name, req_version.text(), rest);
    let end = seq![folder, none];
    lemma_joined_first(end, "/"@);
    assert(end.skip(1) =~= seq![none]);
    assert(joined(seq![none], "/"@) == none);
    assert(joined(end, "/"@) =~= folder + "/"@);
    if known {
        lemma_joined_first(rest, "/"@);
        assert(rest.skip(1) =~= end);
    }
    let platform = platform_of(file_path, targets);
    assert(start_of(platform, folder) =~= joined(rest, "/"@));
    assert(to.query is Pairs);
    let pairs = to.query->Pairs_0;
    let item = search_item(file_path, platform);
    assert(pair_texts(pairs@) == search_query(item));
    assert(pair_texts(pairs@).len() == pairs@.len());
}

} // verus!
