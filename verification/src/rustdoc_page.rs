//! Requests for the pages and files that rustdoc wrote for a release.
use crate::cache::{CachePolicy, CachePolicyText};
use crate::error::AxumNope;
use crate::header::SurrogateKeys;
use crate::percent::{
    escaped_path, holds_escape, law_decoding_undoes_escaping, url_decode, url_decode_message,
    url_decoded,
};
use crate::redirection::{Base, Query, Redirection};
use crate::redirector::{page_policy, policy_for_page, start_page_path};
use crate::release::{canonical_req_version, CrateDetails, MatchedRelease};
use crate::rustdoc_path::{file_extension, is_folder, law_file_extension_ends_the_path};
use crate::target_redirect::{location_components, storage_location};
use crate::rustdoc_params::{clone_metadata, copy_texts, is_one_of, MetaData};
use crate::text::{
    as_deref, contains_char, ends_with, ends_with_char, find_text, first_match, join_from, joined,
    lemma_first_match, lemma_joined_first, lemma_last_index_is, lemma_pieces_concat,
    lemma_pieces_of_joined, lemma_single_piece, maybe_str, maybe_text, owned_texts, pieces, same_text, split, texts,
};
use crate::uri::{query_suffix, Uri};
use crate::version::{
    before_build, law_prerelease_is_seen_in_the_text, law_version_text_has_no_slash,
    law_version_text_is_unique, lemma_version_begins_with_a_digit, ReqVersion, ReqVersionText,
    Version,
};
use vstd::prelude::*;
use vstd::string::StringExecFns;
use vstd::utf8::encode_utf8;

verus! {

/// A page of documentation, with what surrounds it.
#[derive(Clone, Debug)]
pub struct RustdocPage {
    pub latest_path: String,
    pub permalink_path: String,
    pub inner_path: String,
    /// Whether this is the newest version of the crate, however the URL asks for it.
    pub is_latest_version: bool,
    /// Whether the URL asks for the version as the newest.
    pub is_latest_url: bool,
    pub is_prerelease: bool,
    pub krate: CrateDetails,
    pub metadata: MetaData,
    pub current_target: String,
}

/// What goes before the content of a page.
#[derive(Debug)]
pub struct PageHead {
    pub status: u16,
    /// What search engines are told.
    pub robots_tag: Option<&'static str>,
    pub cache_policy: CachePolicy,
}

impl RustdocPage {
    /// Whether the links to other platforms lead to their pages directly: the link to the newest
    /// version is not one that looks for a page.
    pub open spec fn links_directly(self) -> bool {
        first_match(self.latest_path@, "/target-redirect/"@) is None
    }

    /// Whether the links to other platforms lead to their pages directly.
    pub fn use_direct_platform_links(&self) -> (r: bool)
        ensures
            r == self.links_directly(),
    {
        find_text(self.latest_path.as_str(), "/target-redirect/").is_none()
    }

    /// What goes before the content: only pages of the newest version are for search engines.
    pub fn head(&self, keys: &SurrogateKeys) -> (r: PageHead)
        ensures
            r.status == 200,
            maybe_str(r.robots_tag) == (if self.is_latest_url {
                None
            } else {
                Some("noindex"@)
            }),
            r.cache_policy@ == page_policy(self.is_latest_url, keys@),
    {
        PageHead {
            status: 200,
            robots_tag: if self.is_latest_url {
                None
            } else {
                Some("noindex")
            },
            cache_policy: policy_for_page(self.is_latest_url, keys),
        }
    }
}

/// What follows the name and the version in the path of a URL, component by component.
pub open spec fn requested_components(path: Seq<char>) -> Seq<Seq<char>> {
    pieces(path, '/').skip(3)
}

/// A request for a page or a file of a release.
#[derive(Debug)]
pub struct HtmlRequest {
    /// The name of the crate in the URL.
    pub name: String,
    /// The version in the URL.
    pub version: ReqVersion,
    /// What follows them in the URL, component by component.
    pub components: Vec<String>,
    /// The query of the URL.
    pub query: Option<String>,
}

/// The path of a page: the components, joined, behind the name and the version.
pub open spec fn release_path(
    name: Seq<char>,
    version: Seq<char>,
    components: Seq<Seq<char>>,
) -> Seq<char> {
    "/"@ + name + "/"@ + version + "/"@ + joined(components, "/"@)
}

fn page_of_release(name: &str, version: &str, components: &Vec<String>, start: usize) -> (r: String)
    requires
        start <= components@.len(),
    ensures
        r@ == release_path(name@, version@, owned_texts(components@).skip(start as int)),
{
    let mut path: String = "/".to_owned();
    path.append(name);
    path.append("/");
    path.append(version);
    path.append("/");
    path.append(join_from(components, start, "/").as_str());
    path
}

/// What to do when a release was found.
#[derive(Debug)]
pub enum HtmlStep {
    Redirect(Redirection),
    /// Load what is known of the crate.
    LoadDetails(MatchedRelease),
}

/// The file that a request leads to.
#[derive(Debug)]
pub struct FileRequest {
    /// The path of the file in the archive of the release.
    pub storage_path: String,
    /// The same, component by component.
    pub components: Vec<String>,
}

/// The path of a file, joined: a folder is shown as its index.
pub open spec fn storage_path_of(components: Seq<Seq<char>>) -> Seq<char> {
    let path = joined(components, "/"@);
    if path.len() > 0 && path.last() == '/' {
        path + "index.html"@
    } else {
        path
    }
}

/// The path of a file, component by component.
pub open spec fn storage_components(components: Seq<Seq<char>>) -> Seq<Seq<char>> {
    let path = joined(components, "/"@);
    if path.len() > 0 && path.last() == '/' {
        components.drop_last().push("index.html"@)
    } else {
        components
    }
}

/// What to do when the details of the crate are known.
#[derive(Debug)]
pub enum FileStep {
    Redirect(Redirection),
    /// Get a file from the storage.
    Fetch(FileRequest),
}

/// The newest release of a crate.
#[derive(Debug)]
pub struct LatestRelease {
    pub version: Version,
    pub build_succeeded: bool,
}

/// The target that comes first in a path, empty where none does.
pub open spec fn leading_target(components: Seq<Seq<char>>, targets: Seq<Seq<char>>) -> Seq<char> {
    if components.len() > 1 && targets.contains(components[0]) {
        components[0]
    } else {
        Seq::empty()
    }
}

/// The path without the target that comes first in it.
pub open spec fn path_in_target(components: Seq<Seq<char>>, targets: Seq<Seq<char>>) -> Seq<char> {
    if components.len() > 1 && targets.contains(components[0]) {
        joined(components.skip(1), "/"@)
    } else {
        joined(components, "/"@)
    }
}

impl HtmlRequest {
    /// What to do when a release was found: a name that was corrected is asked for again, then a
    /// version that URLs do not ask for; without documentation there is the page about the crate.
    pub open spec fn is_matched_step(
        self,
        release: MatchedRelease,
        keys: Seq<Seq<char>>,
        step: HtmlStep,
    ) -> bool {
        let components = owned_texts(self.components@);
        match release.corrected_name {
            Some(corrected) => step matches HtmlStep::Redirect(to) && to.is_to(
                release_path(corrected@, release.req_version@.text(), components),
            ) && to.query.kept(maybe_text(self.query)) && to.cache_policy@
                == CachePolicyText::NoCaching,
            None => if !is_canonical(release) {
                step matches HtmlStep::Redirect(to) && to.is_to(
                    release_path(
                        self.name@,
                        canonical_req_version(
                            release.req_version@,
                            release.release.version@,
                        ).text(),
                        components,
                    ),
                ) && to.query is Empty && to.cache_policy@ == CachePolicyText::ForeverInCdn(keys)
            } else if !release.release.rustdoc_status {
                step matches HtmlStep::Redirect(to) && to.is_to(
                    "/crate/"@ + self.name@ + "/"@ + self.version@.text(),
                ) && to.query is Empty && to.cache_policy@ == CachePolicyText::ForeverInCdn(keys)
            } else {
                step matches HtmlStep::LoadDetails(found) && found.name == release.name
                    && found.corrected_name is None && found.req_version@ == release.req_version@
                    && found.release == release.release
            },
        }
    }

    /// What to do when the details of the crate are known.
    pub open spec fn is_file_step(
        self,
        krate: CrateDetails,
        keys: Seq<Seq<char>>,
        step: FileStep,
    ) -> bool {
        let components = owned_texts(self.components@);
        if components.len() > 0 && Some(components[0]) == maybe_text(
            krate.metadata.default_target,
        ) {
            step matches FileStep::Redirect(to) && to.is_to(
                release_path(self.name@, krate.version@.text(), components.skip(1)),
            ) && to.query.kept(maybe_text(self.query)) && to.cache_policy@
                == CachePolicyText::ForeverInCdn(keys)
        } else {
            step matches FileStep::Fetch(file) && file.storage_path@ == storage_path_of(components)
                && owned_texts(file.components@) == storage_components(components)
        }
    }

    /// What to answer when a file is not there.
    pub open spec fn is_missing_answer(
        self,
        krate: CrateDetails,
        file: FileRequest,
        index_exists: bool,
        keys: Seq<Seq<char>>,
        answer: Result<Redirection, AxumNope>,
    ) -> bool {
        let components = owned_texts(file.components@);
        if index_exists {
            answer matches Ok(to) && to.is_to(
                release_path(
                    self.name@,
                    krate.version@.text(),
                    components.push("index.html"@),
                ),
            ) && to.query.kept(maybe_text(self.query)) && to.cache_policy@
                == CachePolicyText::ForeverInCdn(keys)
        } else if components.len() > 0 && components[0].contains('-') {
            answer matches Ok(to) && to.is_to(
                "/crate/"@ + self.name@ + "/"@ + self.version@.text() + "/target-redirect/"@
                    + joined(components, "/"@),
            ) && to.query is Empty && to.cache_policy@ == CachePolicyText::ForeverInCdn(keys)
        } else {
            answer matches Err(e) && e is ResourceNotFound
        }
    }

    /// Takes the path of a URL apart. A URL for a page begins with a name and a version.
    pub fn new(name: String, version: ReqVersion, uri: &Uri) -> (r: Result<HtmlRequest, AxumNope>)
        requires
            url_decoded(uri@.path()) matches Some(p) ==> pieces(p, '/').len() >= 3,
        ensures
            r is Ok <==> url_decoded(uri@.path()) is Some,
            r matches Ok(request) ==> request.name == name && request.version == version
                && owned_texts(request.components@) == requested_components(
                url_decoded(uri@.path()).unwrap(),
            ) && maybe_text(request.query) == uri@.query(),
            r matches Err(e) ==> (e matches AxumNope::BadRequest(m) && m@ == url_decode_message(
                uri@.path(),
            )),
    {
        let path: String = match url_decode(uri.path()) {
            Ok(p) => p,
            Err(e) => return Err(AxumNope::BadRequest(e.message)),
        };
        let parts: Vec<&str> = split(path.as_str(), '/');
        let ghost all = texts(parts@);
        let mut components: Vec<String> = Vec::new();
        let n: usize = parts.len();
        assert(all.len() == n);
        for i in 3..n
            invariant
                n == parts@.len(),
                n >= 3,
                all == texts(parts@),
                owned_texts(components@) == all.subrange(3, i as int),
        {
            let ghost before = components@;
            components.push(parts[i].to_owned());
            assert(owned_texts(components@) =~= owned_texts(before).push(all[i as int]));
            assert(all.subrange(3, i + 1) =~= all.subrange(3, i as int).push(all[i as int]));
        }
        assert(owned_texts(components@) =~= all.skip(3));
        let query: Option<String> = match uri.query() {
            Some(q) => Some(q.to_owned()),
            None => None,
        };
        Ok(HtmlRequest { name, version, components, query })
    }

    /// What to do when a release was found: go to the right name or the right version, or to
    /// the page about the crate where there is no documentation.
    pub fn matched(&self, release: MatchedRelease, keys: &SurrogateKeys) -> (r: HtmlStep)
        ensures
            self.is_matched_step(release, keys@, r),
    {
        proof {
            assert(owned_texts(self.components@).skip(0) =~= owned_texts(self.components@));
        }
        let release: MatchedRelease = match release.exactly_named() {
            Ok(found) => found,
            Err(misnamed) => {
                let version: String = misnamed.req_version.to_text();
                return HtmlStep::Redirect(
                    Redirection {
                        base: Base::Path(
                            page_of_release(
                                misnamed.corrected_name.as_str(),
                                version.as_str(),
                                &self.components,
                                0,
                            ),
                        ),
                        query: Query::keep(as_deref(&self.query)),
                        cache_policy: CachePolicy::NoCaching,
                    },
                );
            },
        };
        let release: MatchedRelease = match release.canonically_versioned() {
            Ok(found) => found,
            Err(version) => {
                let version: String = version.to_text();
                return HtmlStep::Redirect(
                    Redirection {
                        base: Base::Path(
                            page_of_release(
                                self.name.as_str(),
                                version.as_str(),
                                &self.components,
                                0,
                            ),
                        ),
                        query: Query::Empty,
                        cache_policy: CachePolicy::ForeverInCdn(keys.clone()),
                    },
                );
            },
        };
        if !release.rustdoc_status() {
            let mut path: String = "/crate/".to_owned();
            path.append(self.name.as_str());
            path.append("/");
            path.append(self.version.to_text().as_str());
            return HtmlStep::Redirect(
                Redirection {
                    base: Base::Path(path),
                    query: Query::Empty,
                    cache_policy: CachePolicy::ForeverInCdn(keys.clone()),
                },
            );
        }
        HtmlStep::LoadDetails(release)
    }

    /// What to do when the details of the crate are known: the default target has no place in
    /// the path of a page, everything else is looked for in the storage.
    pub fn loaded(&self, krate: &CrateDetails, keys: &SurrogateKeys) -> (r: FileStep)
        requires
            krate.has_docs(),
        ensures
            self.is_file_step(*krate, keys@, r),
    {
        let ghost components = owned_texts(self.components@);
        if self.components.len() > 0 {
            assert(components[0] == self.components@[0]@);
            if let Some(default_target) = &krate.metadata.default_target {
                if same_text(self.components[0].as_str(), default_target.as_str()) {
                    let version: String = krate.version.to_text();
                    return FileStep::Redirect(
                        Redirection {
                            base: Base::Path(
                                page_of_release(
                                    self.name.as_str(),
                                    version.as_str(),
                                    &self.components,
                                    1,
                                ),
                            ),
                            query: Query::keep(as_deref(&self.query)),
                            cache_policy: CachePolicy::ForeverInCdn(keys.clone()),
                        },
                    );
                }
            }
        }
        assert(components.skip(0) =~= components);
        let mut storage_path: String = join_from(&self.components, 0, "/");
        let mut parts: Vec<String> = copy_texts(&self.components);
        if ends_with_char(storage_path.as_str(), '/') {
            storage_path.append("index.html");
            let ghost before = parts@;
            assert(owned_texts(before) == components);
            let _ = parts.pop();
            parts.push("index.html".to_owned());
            proof {
                if components.len() == 0 {
                    assert(joined(components, "/"@).len() == 0);
                }
                assert(before.len() == components.len());
                assert(owned_texts(parts@) =~= components.drop_last().push("index.html"@));
            }
        }
        FileStep::Fetch(FileRequest { storage_path, components: parts })
    }

    /// What to answer when the file is not there: go to the index of the folder of its name,
    /// where that exists. A target that was not built leads to what there is for the default
    /// target. Everything else does not exist.
    pub fn missing(
        &self,
        krate: &CrateDetails,
        file: &FileRequest,
        index_exists: bool,
        keys: &SurrogateKeys,
    ) -> (r: Result<Redirection, AxumNope>)
        ensures
            self.is_missing_answer(*krate, *file, index_exists, keys@, r),
    {
        let ghost components = owned_texts(file.components@);
        if index_exists {
            let mut parts: Vec<String> = copy_texts(&file.components);
            let ghost before = parts@;
            parts.push("index.html".to_owned());
            proof {
                assert(owned_texts(parts@) =~= owned_texts(before).push("index.html"@));
                assert(owned_texts(parts@).skip(0) =~= owned_texts(parts@));
            }
            let version: String = krate.version.to_text();
            return Ok(
                Redirection {
                    base: Base::Path(
                        page_of_release(self.name.as_str(), version.as_str(), &parts, 0),
                    ),
                    query: Query::keep(as_deref(&self.query)),
                    cache_policy: CachePolicy::ForeverInCdn(keys.clone()),
                },
            );
        }
        if file.components.len() > 0 {
            assert(components[0] == file.components@[0]@);
            if contains_char(file.components[0].as_str(), '-') {
                assert(components.skip(0) =~= components);
                let mut path: String = "/crate/".to_owned();
                path.append(self.name.as_str());
                path.append("/");
                path.append(self.version.to_text().as_str());
                path.append("/target-redirect/");
                path.append(join_from(&file.components, 0, "/").as_str());
                return Ok(
                    Redirection {
                        base: Base::Path(path),
                        query: Query::Empty,
                        cache_policy: CachePolicy::ForeverInCdn(keys.clone()),
                    },
                );
            }
        }
        Err(AxumNope::ResourceNotFound)
    }

    /// The page around a file that was found, and the target that it is counted for.
    pub fn page(self, krate: CrateDetails, file: FileRequest, latest: LatestRelease) -> (r: (
        RustdocPage,
        String,
    ))
        requires
            krate.has_docs(),
        ensures
            r.1@ == leading_target(
                owned_texts(file.components@),
                owned_texts(krate.metadata.doc_targets.unwrap()@),
            ),
            is_page_for(r.0, self, krate, owned_texts(file.components@), latest),
    {
        let ghost components = owned_texts(file.components@);
        let is_latest_version: bool = latest.version == krate.version;
        let is_prerelease: bool = !krate.version.pre.as_str().is_empty();
        let is_latest_url: bool = self.version.is_latest();
        let (target, inner_path): (String, String) = split_target(&file.components, &krate.metadata);
        let mut current_target: String = String::new();
        let mut latest_path: String = "/crate/".to_owned();
        latest_path.append(self.name.as_str());
        latest_path.append("/latest");
        let ghost latest_root = latest_path@;
        if latest.build_succeeded {
            if target.as_str().is_empty() {
                if let Some(default_target) = &krate.metadata.default_target {
                    current_target = default_target.clone();
                }
            } else {
                current_target = target.clone();
            }
            latest_path.append("/target-redirect/");
            latest_path.append(current_target.as_str());
            latest_path.append("/");
            latest_path.append(inner_path.as_str());
        }
        let latest_version: String = latest.version.to_text();
        let mut permalink_path: String = "/".to_owned();
        permalink_path.append(self.name.as_str());
        permalink_path.append("/");
        permalink_path.append(latest_version.as_str());
        permalink_path.append("/");
        permalink_path.append(inner_path.as_str());
        let ghost permalink = permalink_path@;
        let ghost latest_page = latest_path@;
        if let Some(query) = &self.query {
            latest_path.push('?');
            latest_path.append(query.as_str());
            permalink_path.push('?');
            permalink_path.append(query.as_str());
        }
        proof {
            let suffix = query_suffix(maybe_text(self.query));
            assert(latest_path@ =~= latest_page + suffix);
            assert(permalink_path@ =~= permalink + suffix);
            assert(latest_page =~= latest_root + latest_target_path(
                latest.build_succeeded,
                current_target@,
                inner_path@,
            ));
        }
        let metadata: MetaData = clone_metadata(&krate.metadata);
        let page: RustdocPage = RustdocPage {
            latest_path,
            permalink_path,
            inner_path,
            is_latest_version,
            is_latest_url,
            is_prerelease,
            krate,
            metadata,
            current_target,
        };
        (page, target)
    }
}

/// How far a request for a page or a file has come, and what is to be done next for it.
#[derive(Debug)]
#[allow(inconsistent_fields)]
pub enum HtmlState {
    /// Look for the release that the request asks for.
    MatchRelease { request: HtmlRequest },
    /// Load what is known of the crate.
    LoadDetails { request: HtmlRequest, release: MatchedRelease },
    /// Get a file from the archive of the release.
    FetchFile { request: HtmlRequest, krate: CrateDetails, file: FileRequest },
    /// Find out whether the archive holds a file under another path.
    CheckIndex {
        request: HtmlRequest,
        krate: CrateDetails,
        file: FileRequest,
        index_path: String,
    },
    /// Look for the newest release of the crate.
    LoadLatest { request: HtmlRequest, krate: CrateDetails, file: FileRequest },
    /// Answer with a redirect.
    Redirect(Redirection),
    /// Answer with an error.
    Fail(AxumNope),
    /// Answer with the file that was found.
    ServeFile,
    /// Answer with a page around the file that was found, which counts for a target.
    ServePage(RustdocPage, String),
}

/// What came of what was to be done for a request.
#[derive(Debug)]
pub enum HtmlEvent {
    Release(Result<MatchedRelease, AxumNope>),
    Details(Result<CrateDetails, AxumNope>),
    FileFound,
    FileMissing,
    Index(Result<bool, AxumNope>),
    Latest(Result<LatestRelease, AxumNope>),
}

impl HtmlState {
    /// Documentation that is looked into is there.
    pub open spec fn valid(self) -> bool {
        match self {
            HtmlState::FetchFile { krate, .. } => krate.has_docs(),
            HtmlState::CheckIndex { krate, .. } => krate.has_docs(),
            HtmlState::LoadLatest { krate, .. } => krate.has_docs(),
            _ => true,
        }
    }

    /// Whether an event can come of what is to be done. Details are of a crate with
    /// documentation, since they are loaded for no other.
    pub open spec fn accepts(self, event: HtmlEvent) -> bool {
        match self {
            HtmlState::MatchRelease { .. } => event is Release,
            HtmlState::LoadDetails { .. } => event matches HtmlEvent::Details(details) && (
            details matches Ok(krate) ==> krate.has_docs()),
            HtmlState::FetchFile { .. } => event is FileFound || event is FileMissing,
            HtmlState::CheckIndex { .. } => event is Index,
            HtmlState::LoadLatest { .. } => event is Latest,
            _ => false,
        }
    }

    /// Whether `next` is what a request comes to by an event. What fails is answered as it is.
    pub open spec fn leads_to(
        self,
        event: HtmlEvent,
        keys: Seq<Seq<char>>,
        next: HtmlState,
    ) -> bool {
        match (self, event) {
            (HtmlState::MatchRelease { request }, HtmlEvent::Release(Ok(release))) => match next {
                HtmlState::Redirect(to) => request.is_matched_step(
                    release,
                    keys,
                    HtmlStep::Redirect(to),
                ),
                HtmlState::LoadDetails { request: same, release: found } => same == request
                    && request.is_matched_step(release, keys, HtmlStep::LoadDetails(found)),
                _ => false,
            },
            (HtmlState::LoadDetails { request, .. }, HtmlEvent::Details(Ok(krate))) => match next {
                HtmlState::Redirect(to) => request.is_file_step(
                    krate,
                    keys,
                    FileStep::Redirect(to),
                ),
                HtmlState::FetchFile { request: same, krate: of, file } => same == request && of
                    == krate && request.is_file_step(krate, keys, FileStep::Fetch(file)),
                _ => false,
            },
            (HtmlState::FetchFile { request, krate, file }, HtmlEvent::FileFound) => if ".html"@.is_suffix_of(
            file.storage_path@) {
                next == (HtmlState::LoadLatest { request, krate, file })
            } else {
                next is ServeFile
            },
            (HtmlState::FetchFile { request, krate, file }, HtmlEvent::FileMissing) =>
                next matches HtmlState::CheckIndex {
                    request: same,
                    krate: of,
                    file: missing,
                    index_path,
                } && same == request && of == krate && missing == file && index_path@
                    == file.storage_path@ + "/index.html"@,
            (
                HtmlState::CheckIndex { request, krate, file, .. },
                HtmlEvent::Index(Ok(exists)),
            ) => match next {
                HtmlState::Redirect(to) => request.is_missing_answer(
                    krate,
                    file,
                    exists,
                    keys,
                    Ok(to),
                ),
                HtmlState::Fail(e) => request.is_missing_answer(krate, file, exists, keys, Err(e)),
                _ => false,
            },
            (HtmlState::LoadLatest { request, krate, file }, HtmlEvent::Latest(Ok(latest))) =>
                next matches HtmlState::ServePage(page, target) && target@ == leading_target(
                    owned_texts(file.components@),
                    owned_texts(krate.metadata.doc_targets.unwrap()@),
                ) && is_page_for(page, request, krate, owned_texts(file.components@), latest),
            (_, HtmlEvent::Release(Err(e))) => next == HtmlState::Fail(e),
            (_, HtmlEvent::Details(Err(e))) => next == HtmlState::Fail(e),
            (_, HtmlEvent::Index(Err(e))) => next == HtmlState::Fail(e),
            (_, HtmlEvent::Latest(Err(e))) => next == HtmlState::Fail(e),
            _ => false,
        }
    }

    /// Begins with a request.
    pub fn start(name: String, version: ReqVersion, uri: &Uri) -> (r: HtmlState)
        requires
            url_decoded(uri@.path()) matches Some(p) ==> pieces(p, '/').len() >= 3,
        ensures
            r.valid(),
            match url_decoded(uri@.path()) {
                Some(p) => r matches HtmlState::MatchRelease { request } && request.name == name
                    && request.version == version && owned_texts(request.components@)
                    == requested_components(p) && maybe_text(request.query) == uri@.query(),
                None => r matches HtmlState::Fail(e) && (e matches AxumNope::BadRequest(m) && m@
                    == url_decode_message(uri@.path())),
            },
    {
        match HtmlRequest::new(name, version, uri) {
            Ok(request) => HtmlState::MatchRelease { request },
            Err(e) => HtmlState::Fail(e),
        }
    }

    /// Goes on with what came of what was to be done.
    pub fn proceed(self, event: HtmlEvent, keys: &SurrogateKeys) -> (r: HtmlState)
        requires
            self.valid(),
            self.accepts(event),
        ensures
            r.valid(),
            self.leads_to(event, keys@, r),
    {
        match (self, event) {
            (HtmlState::MatchRelease { request }, HtmlEvent::Release(Ok(release))) => {
                match request.matched(release, keys) {
                    HtmlStep::Redirect(to) => HtmlState::Redirect(to),
                    HtmlStep::LoadDetails(found) => HtmlState::LoadDetails {
                        request,
                        release: found,
                    },
                }
            },
            (HtmlState::LoadDetails { request, release: _ }, HtmlEvent::Details(Ok(krate))) => {
                match request.loaded(&krate, keys) {
                    FileStep::Redirect(to) => HtmlState::Redirect(to),
                    FileStep::Fetch(file) => HtmlState::FetchFile { request, krate, file },
                }
            },
            (HtmlState::FetchFile { request, krate, file }, HtmlEvent::FileFound) => {
                if ends_with(file.storage_path.as_str(), ".html") {
                    HtmlState::LoadLatest { request, krate, file }
                } else {
                    HtmlState::ServeFile
                }
            },
            (HtmlState::FetchFile { request, krate, file }, HtmlEvent::FileMissing) => {
                let index_path: String = index_path(file.storage_path.as_str());
                HtmlState::CheckIndex { request, krate, file, index_path }
            },
            (
                HtmlState::CheckIndex { request, krate, file, index_path: _ },
                HtmlEvent::Index(Ok(exists)),
            ) => {
                match request.missing(&krate, &file, exists, keys) {
                    Ok(to) => HtmlState::Redirect(to),
                    Err(e) => HtmlState::Fail(e),
                }
            },
            (HtmlState::LoadLatest { request, krate, file }, HtmlEvent::Latest(Ok(latest))) => {
                let (page, target): (RustdocPage, String) = request.page(krate, file, latest);
                HtmlState::ServePage(page, target)
            },
            (_, HtmlEvent::Release(Err(e))) => HtmlState::Fail(e),
            (_, HtmlEvent::Details(Err(e))) => HtmlState::Fail(e),
            (_, HtmlEvent::Index(Err(e))) => HtmlState::Fail(e),
            (_, HtmlEvent::Latest(Err(e))) => HtmlState::Fail(e),
            _ => vstd::pervasive::unreached(),
        }
    }

    /// How many things are still to be done for a request, at most.
    pub open spec fn steps_left(self) -> nat {
        match self {
            HtmlState::MatchRelease { .. } => 4,
            HtmlState::LoadDetails { .. } => 3,
            HtmlState::FetchFile { .. } => 2,
            HtmlState::CheckIndex { .. } => 1,
            HtmlState::LoadLatest { .. } => 1,
            _ => 0,
        }
    }
}

/// Every request is answered: each event brings it closer to its answer, and only an answer asks
/// for nothing more. A file or a page is served only after the file was found.
pub proof fn law_requests_are_answered(
    state: HtmlState,
    event: HtmlEvent,
    keys: Seq<Seq<char>>,
    next: HtmlState,
)
    requires
        state.accepts(event),
        state.leads_to(event, keys, next),
    ensures
        next.steps_left() < state.steps_left(),
        next is ServeFile || next is LoadLatest ==> state is FetchFile && event is FileFound,
        next is ServePage ==> state is LoadLatest,
{
}

/// The end of the path of the newest version: the same page for the same target, where the
/// newest version has documentation.
pub open spec fn latest_target_path(
    build_succeeded: bool,
    target: Seq<char>,
    inner_path: Seq<char>,
) -> Seq<char> {
    if build_succeeded {
        "/target-redirect/"@ + target + "/"@ + inner_path
    } else {
        Seq::empty()
    }
}

/// Splits a path into the target that comes first in it and the rest.
fn split_target(components: &Vec<String>, metadata: &MetaData) -> (r: (String, String))
    requires
        metadata.doc_targets is Some,
    ensures
        r.0@ == leading_target(
            owned_texts(components@),
            owned_texts(metadata.doc_targets.unwrap()@),
        ),
        r.1@ == path_in_target(
            owned_texts(components@),
            owned_texts(metadata.doc_targets.unwrap()@),
        ),
{
    let ghost all = owned_texts(components@);
    assert(all.skip(0) =~= all);
    if components.len() > 1 {
        assert(all[0] == components@[0]@);
        if let Some(targets) = &metadata.doc_targets {
            if is_one_of(targets, components[0].as_str()) {
                return (components[0].clone(), join_from(components, 1, "/"));
            }
        }
    }
    (String::new(), join_from(components, 0, "/"))
}

/// Whether the version that was asked for is the one that URLs ask for.
pub open spec fn is_canonical(release: MatchedRelease) -> bool {
    canonical_req_version(release.req_version@, release.release.version@) == release.req_version@
}

/// Whether `page` is the page for a file that was found.
pub open spec fn is_page_for(
    page: RustdocPage,
    request: HtmlRequest,
    krate: CrateDetails,
    components: Seq<Seq<char>>,
    latest: LatestRelease,
) -> bool {
    let targets = owned_texts(krate.metadata.doc_targets.unwrap()@);
    let target = leading_target(components, targets);
    let inner_path = path_in_target(components, targets);
    let current_target = if !latest.build_succeeded {
        Seq::empty()
    } else if target.len() == 0 {
        krate.metadata.default_target.unwrap()@
    } else {
        target
    };
    let query = query_suffix(maybe_text(request.query));
    &&& page.inner_path@ == inner_path
    &&& page.current_target@ == current_target
    &&& page.latest_path@ == "/crate/"@ + request.name@ + "/latest"@ + latest_target_path(
        latest.build_succeeded,
        current_target,
        inner_path,
    ) + query
    &&& page.permalink_path@ == "/"@ + request.name@ + "/"@ + latest.version@.text() + "/"@
        + inner_path + query
    &&& page.is_latest_version == (latest.version@ == krate.version@)
    &&& page.is_latest_url == (request.version@ == ReqVersionText::Latest)
    &&& page.is_prerelease == (krate.version@.pre.len() > 0)
    &&& page.krate == krate
    &&& maybe_text(page.metadata.default_target) == maybe_text(krate.metadata.default_target)
    &&& maybe_text(page.metadata.target_name) == maybe_text(krate.metadata.target_name)
    &&& page.metadata.doc_targets is Some && owned_texts(page.metadata.doc_targets.unwrap()@)
        == targets
}

/// The path under which a file is tried a second time: as the index of a folder.
pub fn index_path(storage_path: &str) -> (r: String)
    ensures
        r@ == storage_path@ + "/index.html"@,
{
    let mut path: String = storage_path.to_owned();
    path.append("/index.html");
    path
}

/// Whether a file is the start page of the documentation, which every successful build writes.
pub fn is_documentation_root(storage_path: &str, target_name: &str) -> (r: bool)
    ensures
        r == (storage_path@ == target_name@ + "/index.html"@),
{
    same_text(storage_path, index_path(target_name).as_str())
}

/// A file that is fetched is never a folder's path that was left open: it does not end in a
/// slash.
pub proof fn law_no_folder_is_fetched(components: Seq<Seq<char>>)
    ensures
        ({
            let path = storage_path_of(components);
            path.len() > 0 ==> path.last() != '/'
        }),
{
    reveal_strlit("index.html");
}

/// The path of a file is its components, joined. No component holds a slash, since they are what
/// stands between the slashes of a URL.
pub proof fn law_storage_path_is_joined(components: Seq<Seq<char>>)
    requires
        forall|i: int| 0 <= i < components.len() ==> !(#[trigger] components[i]).contains('/'),
    ensures
        storage_path_of(components) == joined(storage_components(components), "/"@),
{
    let path = joined(components, "/"@);
    if path.len() > 0 && path.last() == '/' {
        let front = components.drop_last();
        let last = components.last();
        let changed = front.push("index.html"@);
        assert(changed.drop_last() =~= front);
        assert(!components[components.len() - 1].contains('/'));
        if components.len() == 1 {
            assert(path == last);
            assert(last.contains(last[last.len() - 1]));
        }
        if last.len() > 0 {
            assert(path.last() == last[last.len() - 1]);
            assert(last.contains(last[last.len() - 1]));
        }
        assert(path =~= joined(front, "/"@) + "/"@);
        assert(joined(changed, "/"@) == joined(front, "/"@) + "/"@ + "index.html"@);
    }
}

/// Whether a part of a URL's path has no slash in it.
pub open spec fn is_component(s: Seq<char>) -> bool {
    !s.contains('/')
}

/// The path of a page, followed, asks for the same components, where there is one at least.
pub proof fn law_path_keeps_components(
    name: Seq<char>,
    version: Seq<char>,
    components: Seq<Seq<char>>,
)
    requires
        is_component(name),
        is_component(version),
        components.len() > 0,
        forall|i: int| 0 <= i < components.len() ==> is_component(#[trigger] components[i]),
    ensures
        pieces(release_path(name, version, components), '/').len() >= 3,
        pieces(release_path(name, version, components), '/').skip(3) == components,
        pieces(release_path(name, version, components), '/') == seq![
            Seq::<char>::empty(),
            name,
            version,
        ] + components,
        requested_components(release_path(name, version, components)) == components,
{
    reveal_strlit("/");
    assert("/"@ =~= seq!['/']);
    let none = Seq::<char>::empty();
    let rest = joined(components, seq!['/']);
    assert forall|i: int| 0 <= i < components.len() implies !(#[trigger] components[i]).contains(
        '/',
    ) by {
        assert(is_component(components[i]));
    }
    lemma_pieces_of_joined(components, '/');
    lemma_single_piece(none, '/');
    lemma_single_piece(name, '/');
    lemma_single_piece(version, '/');
    let tail = version.push('/') + rest;
    let middle = name.push('/') + tail;
    lemma_pieces_concat(version, rest, '/');
    lemma_pieces_concat(name, tail, '/');
    lemma_pieces_concat(none, middle, '/');
    let path = release_path(name, version, components);
    assert(path =~= none.push('/') + middle);
    assert(pieces(path, '/') =~= seq![none, name, version] + components);
    assert(pieces(path, '/').skip(3) =~= components);
}

/// A redirect to the start page of a release, followed, asks the storage for the index in the
/// folder that the documentation is filed under, below the folder of the target where one is
/// asked for. The path must not hold what looks like a percent-encoded character.
pub proof fn law_start_page_is_the_index(
    name: Seq<char>,
    version: ReqVersionText,
    target: Option<Seq<char>>,
    target_name: Seq<char>,
)
    requires
        is_component(name),
        is_component(version.text()),
        is_component(target_name),
        target matches Some(t) ==> is_component(t),
        !holds_escape(encode_utf8(start_page_path(name, version, target, target_name))),
    ensures
        ({
            let path = start_page_path(name, version, target, target_name);
            let folder = match target {
                Some(t) if t != "index.html"@ && t != target_name => seq![t, target_name],
                _ => seq![target_name],
            };
            &&& url_decoded(escaped_path(path)) == Some(path)
            &&& pieces(path, '/').skip(3) == folder.push(Seq::empty())
            &&& requested_components(path) == folder.push(Seq::empty())
            &&& storage_path_of(pieces(path, '/').skip(3)) == joined(folder, "/"@) + "/index.html"@
        }),
{
    reveal_strlit("/");
    reveal_strlit("/index.html");
    reveal_strlit("index.html");
    assert("/"@ =~= seq!['/']);
    assert("/index.html"@ =~= "/"@ + "index.html"@);
    let path = start_page_path(name, version, target, target_name);
    law_decoding_undoes_escaping(path);
    let none = Seq::<char>::empty();
    assert(is_component(none));
    let (folder, prefix) = match target {
        Some(t) if t != "index.html"@ && t != target_name => (seq![t, target_name], t + "/"@),
        _ => (seq![target_name], Seq::<char>::empty()),
    };
    let components = folder.push(none);
    assert(components.drop_last() =~= folder);
    assert(joined(folder, "/"@) =~= prefix + target_name) by {
        if folder.len() == 2 {
            let first = seq![folder[0]];
            assert(folder.drop_last() =~= first);
            assert(joined(first, "/"@) == folder[0]);
        }
    }
    assert(joined(components, "/"@) =~= joined(folder, "/"@) + "/"@ + none);
    assert(path =~= release_path(name, version.text(), components));
    law_path_keeps_components(name, version.text(), components);
    assert(storage_path_of(components) =~= joined(folder, "/"@) + "/index.html"@);
}

/// A page is of the newest version exactly where its version is written like that of the newest
/// release, so that no two versions are both shown as the newest. It is of a pre-release exactly
/// where its version is written with a dash before any plus sign.
pub proof fn law_page_knows_its_version(
    page: RustdocPage,
    request: HtmlRequest,
    krate: CrateDetails,
    components: Seq<Seq<char>>,
    latest: LatestRelease,
)
    requires
        is_page_for(page, request, krate, components, latest),
        krate.version@.valid(),
        latest.version@.valid(),
    ensures
        page.is_latest_version <==> krate.version@.text() == latest.version@.text(),
        krate.version.major != latest.version.major || krate.version.minor != latest.version.minor
            || krate.version.patch != latest.version.patch ==> !page.is_latest_version,
        page.is_prerelease <==> before_build(krate.version@.text()).contains('-'),
{
    law_version_text_is_unique(krate.version@, latest.version@);
    law_prerelease_is_seen_in_the_text(krate.version@);
}

/// A page divides its path into a target that documentation was built for, where the path begins
/// with one and goes on, and the rest, of which nothing is lost.
pub proof fn law_page_divides_its_path(
    page: RustdocPage,
    request: HtmlRequest,
    krate: CrateDetails,
    components: Seq<Seq<char>>,
    latest: LatestRelease,
)
    requires
        is_page_for(page, request, krate, components, latest),
    ensures
        ({
            let targets = owned_texts(krate.metadata.doc_targets.unwrap()@);
            let target = leading_target(components, targets);
            if components.len() > 1 && targets.contains(components[0]) {
                &&& target == components[0]
                &&& joined(components, "/"@) == target + "/"@ + page.inner_path@
            } else {
                &&& target.len() == 0
                &&& joined(components, "/"@) == page.inner_path@
            }
        }),
{
    if components.len() > 1 {
        lemma_joined_first(components, "/"@);
    }
}

/// The permanent link of a page leads to the same page of the newest release, without the target,
/// and with the query of the request.
pub proof fn law_permalink_leads_to_the_page(
    page: RustdocPage,
    request: HtmlRequest,
    krate: CrateDetails,
    components: Seq<Seq<char>>,
    latest: LatestRelease,
)
    requires
        is_page_for(page, request, krate, components, latest),
        is_component(request.name@),
        latest.version@.valid(),
        components.len() > 0,
        forall|i: int| 0 <= i < components.len() ==> is_component(#[trigger] components[i]),
    ensures
        ({
            let targets = owned_texts(krate.metadata.doc_targets.unwrap()@);
            let query = query_suffix(maybe_text(request.query));
            let link = page.permalink_path@;
            let path = link.take(link.len() - query.len());
            &&& link == path + query
            &&& pieces(path, '/')[1] == request.name@
            &&& pieces(path, '/')[2] == latest.version@.text()
            &&& requested_components(path) == if components.len() > 1 && targets.contains(
                components[0],
            ) {
                components.skip(1)
            } else {
                components
            }
        }),
{
    let targets = owned_texts(krate.metadata.doc_targets.unwrap()@);
    let query = query_suffix(maybe_text(request.query));
    let link = page.permalink_path@;
    let rest = if components.len() > 1 && targets.contains(components[0]) {
        components.skip(1)
    } else {
        components
    };
    assert forall|i: int| 0 <= i < rest.len() implies is_component(#[trigger] rest[i]) by {
        assert(rest[i] == components[i] || rest[i] == components[i + 1]);
    }
    law_version_text_has_no_slash(latest.version@);
    let path = release_path(request.name@, latest.version@.text(), rest);
    law_path_keeps_components(request.name@, latest.version@.text(), rest);
    assert(link =~= path + query);
    assert(link.take(link.len() - query.len()) =~= path);
}

/// The link to the newest version, where that was built, leads there to the file that the page is
/// made of, for the same target, and takes the query along.
pub proof fn law_latest_link_leads_to_the_file(
    page: RustdocPage,
    request: HtmlRequest,
    krate: CrateDetails,
    components: Seq<Seq<char>>,
    latest: LatestRelease,
)
    requires
        is_page_for(page, request, krate, components, latest),
        krate.has_docs(),
        latest.build_succeeded,
        components.len() > 0,
        components.last().len() > 0,
        components[0] != krate.metadata.default_target.unwrap()@,
        is_component(krate.metadata.default_target.unwrap()@),
        !owned_texts(krate.metadata.doc_targets.unwrap()@).contains(Seq::<char>::empty()),
        forall|i: int| 0 <= i < components.len() ==> is_component(#[trigger] components[i]),
    ensures
        ({
            let req_path = page.current_target@ + "/"@ + page.inner_path@;
            &&& page.latest_path@ == "/crate/"@ + request.name@ + "/latest/target-redirect/"@
                + req_path + query_suffix(maybe_text(request.query))
            &&& storage_location(req_path, krate.metadata.default_target.unwrap()@) == joined(
                components,
                "/"@,
            )
        }),
{
    reveal_strlit("/");
    reveal_strlit("/latest");
    reveal_strlit("/target-redirect/");
    reveal_strlit("/latest/target-redirect/");
    assert("/"@ =~= seq!['/']);
    assert("/latest/target-redirect/"@ =~= "/latest"@ + "/target-redirect/"@);
    let targets = owned_texts(krate.metadata.doc_targets.unwrap()@);
    let default_target = krate.metadata.default_target.unwrap()@;
    let req_path = page.current_target@ + "/"@ + page.inner_path@;
    assert(page.latest_path@ =~= "/crate/"@ + request.name@ + "/latest/target-redirect/"@ + req_path
        + query_suffix(maybe_text(request.query)));
    assert forall|i: int| 0 <= i < components.len() implies !(#[trigger] components[i]).contains(
        '/',
    ) by {
        assert(is_component(components[i]));
    }
    lemma_pieces_of_joined(components, '/');
    if components.len() > 1 && targets.contains(components[0]) {
        lemma_joined_first(components, "/"@);
        if components[0].len() == 0 {
            assert(components[0] =~= Seq::<char>::empty());
        }
        assert(req_path =~= joined(components, "/"@));
        assert(location_components(req_path, default_target) =~= components);
    } else {
        assert(page.current_target@ == default_target);
        lemma_single_piece(default_target, '/');
        lemma_pieces_concat(default_target, page.inner_path@, '/');
        assert(req_path =~= default_target.push('/') + page.inner_path@);
        let all = pieces(req_path, '/');
        assert(all =~= seq![default_target] + components);
        assert(all.skip(1) =~= components);
        assert(location_components(req_path, default_target) =~= components);
    }
}

/// A page of a crate whose newest version was built links to other platforms by looking for the
/// page there. Without such a version the links are direct, but for a crate that is named like
/// the look-up itself.
pub proof fn law_platform_links_follow_the_newest_build(
    page: RustdocPage,
    request: HtmlRequest,
    krate: CrateDetails,
    components: Seq<Seq<char>>,
    latest: LatestRelease,
)
    requires
        is_page_for(page, request, krate, components, latest),
        request.query is None,
        is_component(request.name@),
        request.name@ != "target-redirect"@,
    ensures
        page.links_directly() <==> !latest.build_succeeded,
{
    let needle = "/target-redirect/"@;
    let text = page.latest_path@;
    reveal_strlit("/target-redirect/");
    reveal_strlit("target-redirect");
    reveal_strlit("/latest");
    reveal_strlit("/crate/");
    lemma_first_match(text, needle);
    let name = request.name@;
    let head = "/crate/"@ + name + "/latest"@;
    let tail = latest_target_path(
        latest.build_succeeded,
        page.current_target@,
        page.inner_path@,
    );
    assert(text =~= head + tail);
    if latest.build_succeeded {
        let k = head.len() as int;
        assert(needle =~= text.skip(k).take(needle.len() as int));
        assert(needle.is_prefix_of(text.skip(k)));
    } else {
        assert(text =~= head);
        if let Some(i) = first_match(text, needle) {
            let found = text.skip(i);
            assert(found.take(17) == needle);
            assert forall|j: int| 0 <= j < 17 implies text[i + j] == #[trigger] needle[j] by {
                assert(found.take(17)[j] == text[i + j]);
            }
            assert(text[i] == needle[0] && text[i + 16] == needle[16] && text[i + 1] == needle[1]);
            assert(i + 17 <= text.len());
            if 7 <= i < 7 + name.len() {
                assert(text[i] == name[i - 7]);
                assert(name.contains(name[i - 7]));
            }
            if 7 <= i + 16 < 7 + name.len() {
                assert(text[i + 16] == name[i + 9]);
                assert(name.contains(name[i + 9]));
            }
            if i < 7 {
                assert(text[i] == "/crate/"@[i]);
            }
            if i == 6 {
                if name.len() == 15 {
                    assert(name =~= "target-redirect"@) by {
                        assert forall|j: int| 0 <= j < 15 implies name[j]
                            == "target-redirect"@[j] by {
                            assert(text[7 + j] == needle[1 + j]);
                            assert(text[7 + j] == name[j]);
                        }
                    }
                } else {
                    assert(text[22] == "/latest"@[22 - 7 - name.len()]);
                }
            }
        }
    }
}

/// A redirect keeps the page that was asked for: the components are those of the request, the name
/// and the version are those of the crate that was found, and a crate without documentation leads
/// to the page about the version that was asked for.
pub proof fn law_redirects_keep_the_page(
    request: HtmlRequest,
    release: MatchedRelease,
    keys: Seq<Seq<char>>,
    to: Redirection,
)
    requires
        request.is_matched_step(release, keys, HtmlStep::Redirect(to)),
        is_component(request.name@),
        is_component(release.exact_name()),
        is_component(request.version@.text()),
        is_component(release.req_version@.text()),
        release.release.version@.valid(),
        request.components@.len() > 0,
        forall|i: int|
            0 <= i < request.components@.len() ==> is_component(
                (#[trigger] request.components@[i])@,
            ),
    ensures
        to.base matches Base::Path(p) && ({
            let parts = pieces(p@, '/');
            if release.corrected_name is Some {
                &&& parts[1] == release.exact_name()
                &&& parts[2] == release.req_version@.text()
                &&& requested_components(p@) == owned_texts(request.components@)
                &&& to.query.kept(maybe_text(request.query))
                &&& to.cache_policy@ is NoCaching
            } else if release.req_version@ is Semver {
                &&& parts[1] == request.name@
                &&& parts[2] == release.release.version@.text() || (release.req_version@.text()
                    == "*"@ && parts[2] == "latest"@)
                &&& requested_components(p@) == owned_texts(request.components@)
                &&& to.query is Empty
                &&& to.cache_policy@ is ForeverInCdn && to.cache_policy@.keys() == keys
            } else {
                &&& !release.release.rustdoc_status
                &&& parts == seq![
                    Seq::<char>::empty(),
                    "crate"@,
                    request.name@,
                    request.version@.text(),
                ]
                &&& to.query is Empty
                &&& to.cache_policy@ is ForeverInCdn && to.cache_policy@.keys() == keys
            }
        }),
{
    reveal_strlit("/");
    reveal_strlit("crate");
    reveal_strlit("/crate/");
    reveal_strlit("latest");
    let components = owned_texts(request.components@);
    assert forall|i: int| 0 <= i < components.len() implies is_component(#[trigger] components[i]) by {
        assert(components[i] == request.components@[i]@);
    }
    law_version_text_has_no_slash(release.release.version@);
    assert(is_component("latest"@));
    assert(is_component("crate"@));
    let canonical = canonical_req_version(release.req_version@, release.release.version@).text();
    assert(is_component(canonical));
    law_path_keeps_components(release.exact_name(), release.req_version@.text(), components);
    law_path_keeps_components(request.name@, canonical, components);
    let version = seq![request.version@.text()];
    assert forall|i: int| 0 <= i < version.len() implies is_component(#[trigger] version[i]) by {}
    law_path_keeps_components("crate"@, request.name@, version);
    assert(joined(version, "/"@) == request.version@.text());
    let page = "/crate/"@ + request.name@ + "/"@ + request.version@.text();
    assert(page =~= release_path("crate"@, request.name@, version));
    assert(pieces(page, '/') =~= seq![
        Seq::<char>::empty(),
        "crate"@,
        request.name@,
        request.version@.text(),
    ]);
}

/// A path that begins with the default target leads to the same page without it, of the version
/// that was found. Every other path is looked for in the storage.
pub proof fn law_default_target_is_left_out(
    request: HtmlRequest,
    krate: CrateDetails,
    keys: Seq<Seq<char>>,
    step: FileStep,
)
    requires
        request.is_file_step(krate, keys, step),
        krate.has_docs(),
        krate.version@.valid(),
        is_component(request.name@),
        forall|i: int|
            0 <= i < request.components@.len() ==> is_component(
                (#[trigger] request.components@[i])@,
            ),
    ensures
        ({
            let components = owned_texts(request.components@);
            let begins = components.len() > 0 && components[0]
                == krate.metadata.default_target.unwrap()@;
            &&& step is Redirect <==> begins
            &&& step matches FileStep::Redirect(to) ==> to.base matches Base::Path(p) && (
            components.len() > 1 ==> pieces(p@, '/')[1] == request.name@ && pieces(p@, '/')[2]
                == krate.version@.text() && seq![components[0]] + requested_components(p@)
                == components) && to.query.kept(maybe_text(request.query))
                && to.cache_policy@ is ForeverInCdn && to.cache_policy@.keys() == keys
            &&& step matches FileStep::Fetch(file) ==> file.storage_path@ == joined(
                owned_texts(file.components@),
                "/"@,
            ) && (joined(components, "/"@) == file.storage_path@ || joined(components, "/"@)
                + "index.html"@ == file.storage_path@) && (file.storage_path@.len() > 0
                ==> file.storage_path@.last() != '/') && (!is_folder(joined(components, "/"@))
                ==> file.storage_path@ == joined(components, "/"@) && owned_texts(
                file.components@,
            ) == components)
        }),
{
    let components = owned_texts(request.components@);
    assert forall|i: int| 0 <= i < components.len() implies is_component(#[trigger] components[i]) by {
        assert(components[i] == request.components@[i]@);
    }
    law_version_text_has_no_slash(krate.version@);
    if step is Redirect {
        let rest = components.skip(1);
        assert forall|i: int| 0 <= i < rest.len() implies is_component(#[trigger] rest[i]) by {
            assert(rest[i] == components[i + 1]);
        }
        if components.len() > 1 {
            law_path_keeps_components(request.name@, krate.version@.text(), rest);
            assert(seq![components[0]] + rest =~= components);
        }
    } else {
        assert forall|i: int| 0 <= i < components.len() implies !(
        #[trigger] components[i]).contains('/') by {
            assert(is_component(components[i]));
        }
        law_storage_path_is_joined(components);
        law_no_folder_is_fetched(components);
    }
}

/// Where a file is missing and the index of the folder of its name is there, the redirect leads to
/// that index, in the version that was found. A name with a dash in it is that of a target, and
/// leads to the look-up of the page. Everything else is not found.
pub proof fn law_missing_files_lead_on(
    request: HtmlRequest,
    krate: CrateDetails,
    file: FileRequest,
    index_exists: bool,
    keys: Seq<Seq<char>>,
    answer: Result<Redirection, AxumNope>,
)
    requires
        request.is_missing_answer(krate, file, index_exists, keys, answer),
        krate.version@.valid(),
        is_component(request.name@),
        is_component(request.version@.text()),
        file.components@.len() > 0,
        file.storage_path@ == joined(owned_texts(file.components@), "/"@),
        forall|i: int|
            0 <= i < file.components@.len() ==> is_component((#[trigger] file.components@[i])@),
    ensures
        answer is Err <==> !index_exists && !file.components@[0]@.contains('-'),
        answer matches Err(e) ==> e.status() == 404,
        answer matches Ok(to) ==> to.cache_policy@ is ForeverInCdn && to.cache_policy@.keys()
            == keys,
        index_exists ==> (answer matches Ok(to) && (to.base matches Base::Path(p) && pieces(
            p@,
            '/',
        )[1] == request.name@ && pieces(p@, '/')[2] == krate.version@.text() && storage_path_of(
            requested_components(p@),
        ) == file.storage_path@ + "/index.html"@) && to.query.kept(maybe_text(request.query))),
        !index_exists && answer is Ok ==> (answer matches Ok(to) && (to.base matches Base::Path(p)
            && pieces(p@, '/') == seq![
            Seq::<char>::empty(),
            "crate"@,
            request.name@,
            request.version@.text(),
            "target-redirect"@,
        ] + owned_texts(file.components@)) && to.query.value() is None),
{
    reveal_strlit("/");
    reveal_strlit("crate");
    reveal_strlit("/crate/");
    reveal_strlit("target-redirect");
    reveal_strlit("/target-redirect/");
    reveal_strlit("index.html");
    reveal_strlit("/index.html");
    assert("/index.html"@ =~= "/"@ + "index.html"@);
    assert("/target-redirect/"@ =~= "/"@ + "target-redirect"@ + "/"@);
    let components = owned_texts(file.components@);
    assert(components[0] == file.components@[0]@);
    assert forall|i: int| 0 <= i < components.len() implies is_component(#[trigger] components[i]) by {
        assert(components[i] == file.components@[i]@);
    }
    law_version_text_has_no_slash(krate.version@);
    assert(is_component("index.html"@));
    assert(is_component("crate"@));
    assert(is_component("target-redirect"@));
    let with_index = components.push("index.html"@);
    assert forall|i: int| 0 <= i < with_index.len() implies is_component(#[trigger] with_index[i]) by {
        if i < components.len() {
            assert(with_index[i] == components[i]);
        }
    }
    law_path_keeps_components(request.name@, krate.version@.text(), with_index);
    assert(with_index.drop_last() =~= components);
    assert(joined(with_index, "/"@) =~= file.storage_path@ + "/index.html"@);
    assert(joined(with_index, "/"@).last() == 'l');
    let head = seq![request.version@.text(), "target-redirect"@];
    let all = head + components;
    assert forall|i: int| 0 <= i < all.len() implies is_component(#[trigger] all[i]) by {
        if i >= 2 {
            assert(all[i] == components[i - 2]);
        }
    }
    law_path_keeps_components("crate"@, request.name@, all);
    lemma_joined_first(all, "/"@);
    let tail = all.skip(1);
    lemma_joined_first(tail, "/"@);
    assert(tail.skip(1) =~= components);
    let page = "/crate/"@ + request.name@ + "/"@ + request.version@.text() + "/target-redirect/"@
        + joined(components, "/"@);
    assert(page =~= release_path("crate"@, request.name@, all));
    assert(pieces(page, '/') =~= seq![
        Seq::<char>::empty(),
        "crate"@,
        request.name@,
        request.version@.text(),
        "target-redirect"@,
    ] + components);
}

/// A file whose extension is that of HTML is served as a page, and no other file is.
pub proof fn law_pages_are_html(state: HtmlState, keys: Seq<Seq<char>>, next: HtmlState)
    requires
        state is FetchFile,
        state.leads_to(HtmlEvent::FileFound, keys, next),
    ensures
        ({
            let path = state->FetchFile_file.storage_path@;
            next is LoadLatest <==> file_extension(path) == Some("html"@)
        }),
        next is LoadLatest || next is ServeFile,
{
    reveal_strlit("html");
    reveal_strlit(".html");
    reveal_strlit(".");
    let path = state->FetchFile_file.storage_path@;
    let n = path.len() as int;
    law_file_extension_ends_the_path(path);
    assert(".html"@ =~= "."@ + "html"@);
    if ".html"@.is_suffix_of(path) {
        let end = path.subrange(n - 5, n);
        assert(end == ".html"@);
        assert forall|j: int| n - 5 < j < n implies path[j] != '.' by {
            assert(path[j] == end[j - n + 5]);
        }
        assert(path[n - 5] == end[0]);
        lemma_last_index_is(path, '.', n - 5);
        assert forall|j: int| 0 <= j < 4 implies path[n - 4 + j] == "html"@[j] by {
            assert(path[n - 4 + j] == end[j + 1]);
            assert(".html"@[j + 1] == "html"@[j]);
        }
        assert(path.skip(n - 4) =~= "html"@);
        assert(!"html"@.contains('/'));
    }
}

/// A page is asked for as the newest exactly where its URL says so, is about the crate that was
/// found, and knows what is known of it. Without a newest version that was built, the link to the
/// newest leads to the page about the crate.
pub proof fn law_page_is_about_its_crate(
    page: RustdocPage,
    request: HtmlRequest,
    krate: CrateDetails,
    components: Seq<Seq<char>>,
    latest: LatestRelease,
)
    requires
        is_page_for(page, request, krate, components, latest),
        request.version@ matches ReqVersionText::Exact(v) ==> v.valid(),
        request.version@ matches ReqVersionText::Semver(r) ==> r != "latest"@,
    ensures
        page.is_latest_url <==> request.version@.text() == "latest"@,
        page.krate == krate,
        maybe_text(page.metadata.default_target) == maybe_text(krate.metadata.default_target),
        maybe_text(page.metadata.target_name) == maybe_text(krate.metadata.target_name),
        page.metadata.doc_targets is Some && owned_texts(page.metadata.doc_targets.unwrap()@)
            == owned_texts(krate.metadata.doc_targets.unwrap()@),
        !latest.build_succeeded ==> page.current_target@.len() == 0 && page.latest_path@
            == "/crate/"@ + request.name@ + "/latest"@ + query_suffix(maybe_text(request.query)),
{
    reveal_strlit("latest");
    if let ReqVersionText::Exact(v) = request.version@ {
        lemma_version_begins_with_a_digit(v);
    }
    if !latest.build_succeeded {
        let head = "/crate/"@ + request.name@ + "/latest"@;
        assert(head + Seq::<char>::empty() =~= head);
    }
}

/// A version is the one that URLs ask for unless it is a requirement.
pub proof fn law_only_requirements_are_not_canonical(release: MatchedRelease)
    ensures
        is_canonical(release) <==> !(release.req_version@ is Semver),
{
}

/// Where a file is missing, the index that is looked for is the one that the folder of its name
/// would be shown as.
pub proof fn law_index_of_the_folder_is_looked_for(
    state: HtmlState,
    keys: Seq<Seq<char>>,
    next: HtmlState,
)
    requires
        state is FetchFile,
        state.leads_to(HtmlEvent::FileMissing, keys, next),
        state->FetchFile_file.components@.len() > 0,
        state->FetchFile_file.storage_path@ == joined(
            owned_texts(state->FetchFile_file.components@),
            "/"@,
        ),
    ensures
        next matches HtmlState::CheckIndex { request, krate, file, index_path } && file
            == state->FetchFile_file && request == state->FetchFile_request && krate
            == state->FetchFile_krate && index_path@ == storage_path_of(
            owned_texts(file.components@).push(Seq::empty()),
        ) && index_path@ == storage_path_of(owned_texts(file.components@).push("index.html"@)),
{
    reveal_strlit("/");
    reveal_strlit("index.html");
    reveal_strlit("/index.html");
    assert("/index.html"@ =~= "/"@ + "index.html"@);
    let file = state->FetchFile_file;
    let components = owned_texts(file.components@);
    let folder = components.push(Seq::empty());
    let index = components.push("index.html"@);
    assert(folder.drop_last() =~= components);
    assert(index.drop_last() =~= components);
    assert(joined(folder, "/"@) =~= file.storage_path@ + "/"@);
    assert(joined(index, "/"@) =~= file.storage_path@ + "/index.html"@);
    assert(storage_path_of(folder) =~= file.storage_path@ + "/index.html"@);
}

/// What fails on the way is answered as it is, and a request that cannot be read is a bad one.
pub proof fn law_failures_of_pages_are_answered(
    state: HtmlState,
    e: AxumNope,
    keys: Seq<Seq<char>>,
    next: HtmlState,
)
    requires
        state.leads_to(HtmlEvent::Release(Err(e)), keys, next) || state.leads_to(
            HtmlEvent::Details(Err(e)),
            keys,
            next,
        ) || state.leads_to(HtmlEvent::Index(Err(e)), keys, next) || state.leads_to(
            HtmlEvent::Latest(Err(e)),
            keys,
            next,
        ),
    ensures
        next matches HtmlState::Fail(answer) && answer == e,
{
}

} // verus!
