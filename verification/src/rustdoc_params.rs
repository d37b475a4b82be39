//! The parameters of requests for documentation pages, and the URLs that are made from them.
use crate::error::AxumNope;
use crate::escaped_uri::{path_fits, query_pairs, EscapedURI, EscapedUriText};
use crate::percent::{url_decode, url_decode_message, url_decoded, UrlDecodeError};
use crate::rustdoc_path::{
    file_extension, find_static_route_suffix, generate_rustdoc_path_for_url, get_file_extension,
    index_html, is_dynamic, is_folder, law_index_is_the_folder_of_the_crate,
    law_static_suffix_is_shared, path_is_folder, rustdoc_path, static_route_suffix,
};
use crate::rustdoc_page::{
    is_component, law_path_keeps_components, release_path, requested_components, storage_path_of,
};
use crate::text::{
    as_deref, clone_text, ends_with_char, find, first_index, is_white_space, lemma_first_index,
    joined, lemma_first_index_is, lemma_joined_first, lemma_pieces, lemma_pieces_concat,
    law_trimming_takes_white_space_only, lemma_pieces_of_joined, lemma_single_piece,
    lemma_trimmed_chars, lemma_trimmed, maybe_str, maybe_text, owned_texts, pieces, same_maybe_str, same_text, split, strip_suffix,
    stripped_suffix, texts, trim, trim_start_matches, trimmed, without_leading,
};
use crate::uri::{parsed_uri, Uri, UriError, UriText};
use crate::version::{requested, ReqVersion, ReqVersionText, VersionError};
use vstd::prelude::*;
use vstd::string::{StrSliceExecFns, StringExecFns};

verus! {

/// What kind of page the inner path of a request leads to.
#[derive(Clone, Copy, Debug, PartialEq, Eq, Structural)]
pub enum PageKind {
    /// A page that rustdoc wrote.
    Rustdoc,
    /// A file in the source browser.
    Source,
}

/// What the parameters of a request hold.
#[verifier::ext_equal]
pub struct RustdocParamsText {
    pub original_uri: Option<UriText>,
    pub name: Seq<char>,
    pub version: ReqVersionText,
    pub doc_target: Option<Seq<char>>,
    pub inner_path: Option<Seq<char>>,
    pub page_kind: Option<PageKind>,
    pub static_route_suffix: Option<Seq<char>>,
}

/// The text of an optional value, empty where there is none.
pub open spec fn text_or_empty(o: Option<Seq<char>>) -> Seq<char> {
    match o {
        Some(s) => s,
        None => Seq::empty(),
    }
}

/// The doc target and the inner path that a request means: a target that is not known belongs to
/// the path, and without a target the first component of the path is one, where it is known.
pub open spec fn fixed_target_and_path(
    doc_target: Option<Seq<char>>,
    inner_path: Option<Seq<char>>,
    trailing_slash: bool,
    doc_targets: Seq<Seq<char>>,
) -> (Option<Seq<char>>, Seq<char>) {
    let path = trimmed(without_leading(text_or_empty(inner_path), '/'));
    let given = trimmed(text_or_empty(doc_target));
    if given.len() > 0 {
        if doc_targets.contains(given) {
            (Some(given), path)
        } else if path.len() > 0 {
            (None, given + "/"@ + path)
        } else if trailing_slash {
            (None, given + "/"@)
        } else {
            (None, given)
        }
    } else {
        match first_index(path, '/') {
            Some(pos) => if doc_targets.contains(path.take(pos)) {
                (Some(path.take(pos)), path.skip(pos + 1))
            } else {
                (None, path)
            },
            None => if doc_targets.contains(path) {
                (Some(path), Seq::empty())
            } else {
                (None, path)
            },
        }
    }
}

impl RustdocParamsText {
    /// The parameters of a request for the newest version of a crate.
    pub open spec fn new(name: Seq<char>) -> Self {
        RustdocParamsText {
            original_uri: None,
            name: trimmed(name),
            version: ReqVersionText::Latest,
            doc_target: None,
            inner_path: None,
            page_kind: Some(PageKind::Rustdoc),
            static_route_suffix: None,
        }
    }

    /// The parameters of a request for a URI that a route took its parameters from. The route and
    /// the path of the URI are decoded.
    pub open spec fn of_request(
        params: UrlParams,
        original_uri: UriText,
        route: Seq<char>,
        path: Seq<char>,
    ) -> Self {
        RustdocParamsText {
            original_uri: Some(original_uri),
            version: params.version@,
            doc_target: maybe_trimmed(maybe_text(params.target)),
            inner_path: maybe_trimmed(maybe_text(params.path)),
            static_route_suffix: static_route_suffix(route, path),
            ..RustdocParamsText::new(params.name@)
        }
    }

    /// The same parameters for another crate.
    pub open spec fn named(self, name: Seq<char>) -> Self {
        RustdocParamsText { name: trimmed(name), ..self }
    }

    /// The same parameters for another doc target, or for none.
    pub open spec fn for_target(self, doc_target: Option<Seq<char>>) -> Self {
        RustdocParamsText { doc_target: maybe_trimmed(doc_target), ..self }
    }

    /// The same parameters with another inner path, or without one.
    pub open spec fn for_path(self, inner_path: Option<Seq<char>>) -> Self {
        RustdocParamsText { inner_path: maybe_trimmed(inner_path), ..self }
    }

    /// The parameters as they are to be understood with what is known of a release.
    pub open spec fn parsed_with(self, metadata: MetaData) -> ParsedRustdocParamsText {
        self.parsed(
            maybe_text(metadata.default_target),
            maybe_text(metadata.target_name),
            listed_targets(metadata.doc_targets),
        )
    }

    /// Whether two requests ask for the same. Their URIs are compared as URIs.
    pub open spec fn same_as(self, other: Self) -> bool {
        &&& match (self.original_uri, other.original_uri) {
            (Some(a), Some(b)) => a.same_as(b),
            (None, None) => true,
            _ => false,
        }
        &&& self.page_kind == other.page_kind
        &&& self.name == other.name
        &&& self.version == other.version
        &&& self.doc_target == other.doc_target
        &&& self.inner_path == other.inner_path
        &&& self.static_route_suffix == other.static_route_suffix
    }

    /// The path of the URI that was requested, empty where there is none.
    pub open spec fn original_path(self) -> Seq<char> {
        match self.original_uri {
            Some(u) => u.path(),
            None => Seq::empty(),
        }
    }

    /// Whether the URI that was requested ends in a slash.
    pub open spec fn has_trailing_slash(self) -> bool {
        self.original_path().len() > 0 && self.original_path().last() == '/'
    }

    /// The parameters with the target and the path that they mean.
    pub open spec fn with_fixed_target_and_path(self, doc_targets: Seq<Seq<char>>) -> Self {
        let (target, path) = fixed_target_and_path(
            self.doc_target,
            self.inner_path,
            self.has_trailing_slash(),
            doc_targets,
        );
        RustdocParamsText { doc_target: target, inner_path: Some(path), ..self }
    }

    /// The inner path with the static suffix of the route behind it.
    pub open spec fn merged_inner_path(self) -> Seq<char> {
        let path = text_or_empty(self.inner_path);
        match (self.page_kind, self.static_route_suffix) {
            (Some(PageKind::Rustdoc), Some(suffix)) if suffix.len() > 0 => if path.len() > 0 {
                path.push('/') + suffix
            } else {
                suffix
            },
            _ => path,
        }
    }

    /// The parameters, with what is known of the release, as they are to be understood.
    pub open spec fn parsed(
        self,
        default_target: Option<Seq<char>>,
        target_name: Option<Seq<char>>,
        doc_targets: Seq<Seq<char>>,
    ) -> ParsedRustdocParamsText {
        let inner = self.with_fixed_target_and_path(doc_targets);
        ParsedRustdocParamsText {
            inner,
            doc_targets,
            default_target,
            target_name,
            merged_inner_path: inner.merged_inner_path(),
        }
    }

    /// The path of the page, as far as it is known without metadata.
    pub open spec fn path_for_rustdoc_url(self) -> Seq<char> {
        rustdoc_path(
            None,
            None,
            self.doc_target,
            if self.page_kind == Some(PageKind::Rustdoc) {
                self.inner_path
            } else {
                None
            },
        )
    }

    /// The path of the source browser. The inner path of another kind of page is not one there.
    pub open spec fn source_path(self) -> Seq<char> {
        crate_path(
            self.name,
            self.version,
            "/source/"@,
            if self.page_kind == Some(PageKind::Source) {
                text_or_empty(self.inner_path)
            } else {
                Seq::empty()
            },
        )
    }
}

/// The path of a documentation page.
pub open spec fn page_path(name: Seq<char>, version: ReqVersionText, path: Seq<char>) -> Seq<char> {
    "/"@ + name + "/"@ + version.text() + "/"@ + path
}

/// The path of a page about a crate: `section`, and behind it `rest`.
pub open spec fn crate_path(
    name: Seq<char>,
    version: ReqVersionText,
    section: Seq<char>,
    rest: Seq<char>,
) -> Seq<char> {
    "/crate/"@ + name + "/"@ + version.text() + section + rest
}

/// What parsed parameters hold.
#[verifier::ext_equal]
pub struct ParsedRustdocParamsText {
    pub inner: RustdocParamsText,
    pub doc_targets: Seq<Seq<char>>,
    pub default_target: Option<Seq<char>>,
    pub target_name: Option<Seq<char>>,
    pub merged_inner_path: Seq<char>,
}

/// The parameters of a request for a page of a crate.
#[derive(Debug)]
pub struct RustdocParams {
    original_uri: Option<Uri>,
    name: String,
    version: ReqVersion,
    doc_target: Option<String>,
    inner_path: Option<String>,
    page_kind: Option<PageKind>,
    static_route_suffix: Option<String>,
}

/// What an optional URI holds.
pub open spec fn maybe_uri(o: Option<Uri>) -> Option<UriText> {
    match o {
        Some(u) => Some(u@),
        None => None,
    }
}

impl View for RustdocParams {
    type V = RustdocParamsText;

    closed spec fn view(&self) -> RustdocParamsText {
        RustdocParamsText {
            original_uri: maybe_uri(self.original_uri),
            name: self.name@,
            version: self.version@,
            doc_target: maybe_text(self.doc_target),
            inner_path: maybe_text(self.inner_path),
            page_kind: self.page_kind,
            static_route_suffix: maybe_text(self.static_route_suffix),
        }
    }
}

impl Clone for RustdocParams {
    fn clone(&self) -> (r: Self)
        ensures
            r@ == self@,
    {
        RustdocParams {
            original_uri: match &self.original_uri {
                Some(u) => Some(u.clone()),
                None => None,
            },
            name: self.name.clone(),
            version: self.version.clone(),
            doc_target: clone_text(&self.doc_target),
            inner_path: clone_text(&self.inner_path),
            page_kind: self.page_kind,
            static_route_suffix: clone_text(&self.static_route_suffix),
        }
    }
}

impl PartialEq for RustdocParams {
    fn eq(&self, other: &RustdocParams) -> (r: bool) {
        let same_uri: bool = match (&self.original_uri, &other.original_uri) {
            (Some(a), Some(b)) => *a == *b,
            (None, None) => true,
            _ => false,
        };
        let same_kind: bool = match (self.page_kind, other.page_kind) {
            (Some(a), Some(b)) => a == b,
            (None, None) => true,
            _ => false,
        };
        same_uri && same_kind && same_text(self.name.as_str(), other.name.as_str()) && self.version
            == other.version && same_maybe_str(
            as_deref(&self.doc_target),
            as_deref(&other.doc_target),
        ) && same_maybe_str(as_deref(&self.inner_path), as_deref(&other.inner_path))
            && same_maybe_str(
            as_deref(&self.static_route_suffix),
            as_deref(&other.static_route_suffix),
        )
    }
}

impl vstd::std_specs::cmp::PartialEqSpecImpl for RustdocParams {
    open spec fn obeys_eq_spec() -> bool {
        true
    }

    open spec fn eq_spec(&self, other: &RustdocParams) -> bool {
        self@.same_as(other@)
    }
}

/// An owned copy of an optional string, trimmed.
fn trimmed_copy(o: Option<&str>) -> (r: Option<String>)
    ensures
        maybe_text(r) == (match maybe_str(o) {
            Some(s) => Some(trimmed(s)),
            None => None,
        }),
{
    match o {
        Some(s) => Some(trim(s).to_owned()),
        None => None,
    }
}

/// Whether `s` is one of the targets.
pub fn is_one_of(targets: &Vec<String>, s: &str) -> (r: bool)
    ensures
        r == owned_texts(targets@).contains(s@),
{
    let n: usize = targets.len();
    for i in 0..n
        invariant
            n == targets@.len(),
            forall|j: int| 0 <= j < i ==> targets@[j]@ != s@,
    {
        if same_text(targets[i].as_str(), s) {
            assert(owned_texts(targets@)[i as int] == s@);
            return true;
        }
    }
    assert forall|j: int| 0 <= j < owned_texts(targets@).len() implies owned_texts(targets@)[j]
        != s@ by {
        assert(owned_texts(targets@)[j] == targets@[j]@);
    }
    false
}

impl RustdocParams {
    /// The parameters of a request for the newest version of a crate.
    pub fn new(name: &str) -> (r: RustdocParams)
        ensures
            r@ == RustdocParamsText::new(name@),
    {
        RustdocParams {
            original_uri: None,
            name: trim(name).to_owned(),
            version: ReqVersion::Latest,
            doc_target: None,
            inner_path: None,
            page_kind: Some(PageKind::Rustdoc),
            static_route_suffix: None,
        }
    }

    /// Gives a doc target that is not known to the path, and takes one that is known from it.
    pub fn with_fixed_target_and_path(self, doc_targets: &Vec<String>) -> (r: RustdocParams)
        ensures
            r@ == self@.with_fixed_target_and_path(owned_texts(doc_targets@)),
    {
        let trailing_slash: bool = self.has_trailing_slash();
        let (target, path) = fix_target_and_path(
            as_deref(&self.doc_target),
            as_deref(&self.inner_path),
            trailing_slash,
            doc_targets,
        );
        let r: RustdocParams = RustdocParams {
            doc_target: target,
            inner_path: Some(path),
            ..self
        };
        assert(r@ =~= self@.with_fixed_target_and_path(owned_texts(doc_targets@)));
        r
    }

    /// The path of the URI that was requested, empty where there is none.
    pub fn original_path(&self) -> (r: &str)
        ensures
            r@ == self@.original_path(),
    {
        match &self.original_uri {
            Some(u) => u.path(),
            None => {
                proof {
                    reveal_strlit("");
                    assert(""@ =~= Seq::<char>::empty());
                }
                ""
            },
        }
    }

    fn has_trailing_slash(&self) -> (r: bool)
        ensures
            r == self@.has_trailing_slash(),
    {
        ends_with_char(self.original_path(), '/')
    }
}

/// The doc target and the inner path that a request means.
fn fix_target_and_path(
    doc_target: Option<&str>,
    inner_path: Option<&str>,
    trailing_slash: bool,
    doc_targets: &Vec<String>,
) -> (r: (Option<String>, String))
    ensures
        (maybe_text(r.0), r.1@) == fixed_target_and_path(
            maybe_str(doc_target),
            maybe_str(inner_path),
            trailing_slash,
            owned_texts(doc_targets@),
        ),
{
    proof {
        reveal_strlit("");
        assert(""@ =~= Seq::<char>::empty());
    }
    let raw_path: &str = match inner_path {
        Some(p) => p,
        None => "",
    };
    let path: &str = trim(trim_start_matches(raw_path, '/'));
    let raw_target: &str = match doc_target {
        Some(t) => t,
        None => "",
    };
    let given: &str = trim(raw_target);
    if !given.is_empty() {
        if is_one_of(doc_targets, given) {
            (Some(given.to_owned()), path.to_owned())
        } else {
            let mut moved: String = given.to_owned();
            if !path.is_empty() {
                moved.append("/");
                moved.append(path);
            } else if trailing_slash {
                moved.append("/");
            }
            (None, moved)
        }
    } else {
        match find(path, '/') {
            Some(pos) => {
                let n: usize = path.unicode_len();
                let potential_target: &str = path.substring_char(0, pos);
                assert(potential_target@ =~= path@.take(pos as int));
                assert(path@.subrange(pos + 1, n as int) =~= path@.skip(pos + 1));
                if is_one_of(doc_targets, potential_target) {
                    (
                        Some(potential_target.to_owned()),
                        path.substring_char(pos + 1, n).to_owned(),
                    )
                } else {
                    (None, path.to_owned())
                }
            },
            None => {
                if is_one_of(doc_targets, path) {
                    (Some(path.to_owned()), String::new())
                } else {
                    (None, path.to_owned())
                }
            },
        }
    }
}

/// What is known of the documentation of a release.
#[derive(Clone, Debug)]
pub struct MetaData {
    /// The target whose documentation stands at the root.
    pub default_target: Option<String>,
    /// The name of the crate's library, which its documentation is filed under.
    pub target_name: Option<String>,
    /// The targets that documentation was built for.
    pub doc_targets: Option<Vec<String>>,
}

/// Copies what is known of the documentation of a release.
pub fn clone_metadata(metadata: &MetaData) -> (r: MetaData)
    ensures
        r.default_target == metadata.default_target,
        r.target_name == metadata.target_name,
        r.doc_targets is Some <==> metadata.doc_targets is Some,
        listed_targets(r.doc_targets) == listed_targets(metadata.doc_targets),
{
    MetaData {
        default_target: clone_text(&metadata.default_target),
        target_name: clone_text(&metadata.target_name),
        doc_targets: match &metadata.doc_targets {
            Some(v) => Some(copy_texts(v)),
            None => None,
        },
    }
}

/// The targets in a list that may be missing.
pub open spec fn listed_targets(o: Option<Vec<String>>) -> Seq<Seq<char>> {
    match o {
        Some(v) => owned_texts(v@),
        None => Seq::empty(),
    }
}

/// The parameters that a route takes from a URL.
#[derive(Debug)]
pub struct UrlParams {
    pub name: String,
    pub version: ReqVersion,
    pub target: Option<String>,
    pub path: Option<String>,
}

/// What trimming an optional text leaves.
pub open spec fn maybe_trimmed(o: Option<Seq<char>>) -> Option<Seq<char>> {
    match o {
        Some(s) => Some(trimmed(s)),
        None => None,
    }
}

impl RustdocParams {
    /// The parameters of a request: what the route took from the URL, the URL itself, and the
    /// static suffix that the URL shares with the route.
    pub fn from_request(
        params: UrlParams,
        original_uri: Uri,
        matched_path: &str,
    ) -> (r: Result<RustdocParams, UrlDecodeError>)
        ensures
            r is Ok <==> url_decoded(original_uri@.path()) is Some && url_decoded(
                matched_path@,
            ) is Some,
            r matches Ok(p) ==> p@ == RustdocParamsText::of_request(
                params,
                original_uri@,
                url_decoded(matched_path@).unwrap(),
                url_decoded(original_uri@.path()).unwrap(),
            ),
            r matches Err(e) ==> e.message@ == url_decode_message(
                if url_decoded(original_uri@.path()) is None {
                    original_uri@.path()
                } else {
                    matched_path@
                },
            ),
    {
        let uri_path: String = match url_decode(original_uri.path()) {
            Ok(p) => p,
            Err(e) => return Err(e),
        };
        let matched_route: String = match url_decode(matched_path) {
            Ok(p) => p,
            Err(e) => return Err(e),
        };
        let suffix: Option<String> = find_static_route_suffix(
            matched_route.as_str(),
            uri_path.as_str(),
        );
        Ok(
            RustdocParams::new(params.name.as_str()).with_version(
                params.version,
            ).with_maybe_doc_target(as_deref(&params.target)).with_maybe_inner_path(
                as_deref(&params.path),
            ).with_original_uri(original_uri).with_page_kind(
                PageKind::Rustdoc,
            ).with_maybe_static_route_suffix(suffix),
        )
    }

    /// The same parameters for another crate.
    pub fn with_name(self, name: &str) -> (r: RustdocParams)
        ensures
            r@ == self@.named(name@),
    {
        RustdocParams { name: trim(name).to_owned(), ..self }
    }

    /// The same parameters for another version.
    pub fn with_version(self, version: ReqVersion) -> (r: RustdocParams)
        ensures
            r@ == (RustdocParamsText { version: version@, ..self@ }),
    {
        RustdocParams { version, ..self }
    }

    /// The same parameters for the version that is read from a text.
    pub fn try_with_version(self, version: &str) -> (r: Result<RustdocParams, VersionError>)
        ensures
            r is Ok <==> exists|v: ReqVersionText| requested(version@, v),
            r matches Ok(p) ==> requested(version@, p@.version) && p@ == (RustdocParamsText {
                version: p@.version,
                ..self@
            }),
    {
        match ReqVersion::parse(version) {
            Ok(v) => {
                assert(requested(version@, v@));
                Ok(self.with_version(v))
            },
            Err(e) => {
                proof {
                    if exists|v: ReqVersionText| requested(version@, v) {
                        let v = choose|v: ReqVersionText| requested(version@, v);
                        assert(requested(version@, v));
                    }
                }
                Err(e)
            },
        }
    }

    /// The same parameters with the static suffix of a route.
    pub fn with_static_route_suffix(self, static_route_suffix: &str) -> (r: RustdocParams)
        ensures
            r@ == (RustdocParamsText {
                static_route_suffix: Some(static_route_suffix@),
                ..self@
            }),
    {
        self.with_maybe_static_route_suffix(Some(static_route_suffix.to_owned()))
    }

    /// The same parameters with the static suffix of a route, or without one.
    pub fn with_maybe_static_route_suffix(self, static_route_suffix: Option<String>) -> (r:
        RustdocParams)
        ensures
            r@ == (RustdocParamsText {
                static_route_suffix: maybe_text(static_route_suffix),
                ..self@
            }),
    {
        RustdocParams { static_route_suffix, ..self }
    }

    /// The same parameters for another doc target.
    pub fn with_doc_target(self, doc_target: &str) -> (r: RustdocParams)
        ensures
            r@ == self@.for_target(Some(doc_target@)),
    {
        self.with_maybe_doc_target(Some(doc_target))
    }

    /// The same parameters for another doc target, or for none.
    pub fn with_maybe_doc_target(self, doc_target: Option<&str>) -> (r: RustdocParams)
        ensures
            r@ == self@.for_target(maybe_str(doc_target)),
    {
        RustdocParams { doc_target: trimmed_copy(doc_target), ..self }
    }

    /// The same parameters with another inner path.
    pub fn with_inner_path(self, inner_path: &str) -> (r: RustdocParams)
        ensures
            r@ == self@.for_path(Some(inner_path@)),
    {
        self.with_maybe_inner_path(Some(inner_path))
    }

    /// The same parameters with another inner path, or without one.
    pub fn with_maybe_inner_path(self, inner_path: Option<&str>) -> (r: RustdocParams)
        ensures
            r@ == self@.for_path(maybe_str(inner_path)),
    {
        RustdocParams { inner_path: trimmed_copy(inner_path), ..self }
    }

    /// The same parameters for the URI that was requested.
    pub fn with_original_uri(self, original_uri: Uri) -> (r: RustdocParams)
        ensures
            r@ == (RustdocParamsText { original_uri: Some(original_uri@), ..self@ }),
    {
        RustdocParams { original_uri: Some(original_uri), ..self }
    }

    /// The same parameters for the URI that is read from a text.
    pub fn try_with_original_uri(self, original_uri: &str) -> (r: Result<RustdocParams, UriError>)
        ensures
            r is Ok <==> parsed_uri(original_uri@) is Some,
            r matches Ok(p) ==> p@ == (RustdocParamsText {
                original_uri: parsed_uri(original_uri@),
                ..self@
            }),
            r matches Err(e) ==> e == UriError::Invalid,
    {
        match Uri::parse(original_uri) {
            Ok(u) => Ok(self.with_original_uri(u)),
            Err(e) => Err(e),
        }
    }

    /// The same parameters for a kind of page.
    pub fn with_page_kind(self, page_kind: PageKind) -> (r: RustdocParams)
        ensures
            r@ == (RustdocParamsText { page_kind: Some(page_kind), ..self@ }),
    {
        RustdocParams { page_kind: Some(page_kind), ..self }
    }

    /// The same parameters for no kind of page.
    pub fn remove_page_kind(self) -> (r: RustdocParams)
        ensures
            r@ == (RustdocParamsText { page_kind: None, ..self@ }),
    {
        RustdocParams { page_kind: None, ..self }
    }

    /// Understands the parameters in the light of what is known of the release.
    pub fn parse_with_metadata(self, metadata: &MetaData) -> (r: ParsedRustdocParams)
        ensures
            r@ == self@.parsed_with(*metadata),
    {
        let targets: Vec<String> = match &metadata.doc_targets {
            Some(v) => copy_texts(v),
            None => Vec::new(),
        };
        assert(owned_texts(targets@) =~= listed_targets(metadata.doc_targets));
        self.parse(
            clone_text(&metadata.default_target),
            clone_text(&metadata.target_name),
            targets,
        )
    }

    /// Understands the parameters in the light of what the database holds on the release, where
    /// it holds the release.
    pub fn load_and_parse(self, release: Option<MetaData>) -> (r: Result<
        ParsedRustdocParams,
        AxumNope,
    >)
        ensures
            r is Ok <==> release is Some,
            r matches Ok(p) ==> p@ == self@.parsed_with(release.unwrap()),
            r matches Err(e) ==> e is VersionNotFound,
    {
        match release {
            Some(metadata) => Ok(self.parse_with_metadata(&metadata)),
            None => Err(AxumNope::VersionNotFound),
        }
    }

    /// Understands the parameters, where the default target, the name that the documentation is
    /// filed under and the targets that it was built for are known.
    pub fn parse(
        self,
        default_target: Option<String>,
        target_name: Option<String>,
        doc_targets: Vec<String>,
    ) -> (r: ParsedRustdocParams)
        ensures
            r@ == self@.parsed(
                maybe_text(default_target),
                maybe_text(target_name),
                owned_texts(doc_targets@),
            ),
    {
        let inner: RustdocParams = self.with_fixed_target_and_path(&doc_targets);
        let mut merged: String = inner.inner_path().to_owned();
        if matches!(inner.page_kind, Some(PageKind::Rustdoc)) {
            if let Some(suffix) = &inner.static_route_suffix {
                if !suffix.as_str().is_empty() {
                    if !merged.as_str().is_empty() {
                        merged.push('/');
                    }
                    let ghost front = merged@;
                    merged.append(suffix.as_str());
                    assert(front.len() == 0 ==> merged@ =~= suffix@);
                }
            }
        }
        assert(merged@ =~= inner@.merged_inner_path());
        ParsedRustdocParams {
            inner,
            doc_targets,
            default_target,
            target_name,
            merged_inner_path: merged,
        }
    }

    /// The name of the crate.
    pub fn name(&self) -> (r: &str)
        ensures
            r@ == self@.name,
    {
        self.name.as_str()
    }

    /// The version that is asked for.
    pub fn version(&self) -> (r: &ReqVersion)
        ensures
            r@ == self@.version,
    {
        &self.version
    }

    /// The inner path, empty where there is none.
    pub fn inner_path(&self) -> (r: &str)
        ensures
            r@ == text_or_empty(self@.inner_path),
    {
        match &self.inner_path {
            Some(p) => p.as_str(),
            None => {
                proof {
                    reveal_strlit("");
                    assert(""@ =~= Seq::<char>::empty());
                }
                ""
            },
        }
    }

    /// The doc target.
    pub fn doc_target(&self) -> (r: Option<&str>)
        ensures
            maybe_str(r) == self@.doc_target,
    {
        as_deref(&self.doc_target)
    }

    /// The extension of the file that was requested.
    pub fn file_extension(&self) -> (r: Option<&str>)
        ensures
            maybe_str(r) == (match self@.original_uri {
                Some(u) => file_extension(u.path()),
                None => None,
            }),
    {
        match &self.original_uri {
            Some(u) => get_file_extension(u.path()),
            None => None,
        }
    }

    /// The kind of page that is asked for.
    pub fn page_kind(&self) -> (r: Option<&PageKind>)
        ensures
            r == (match self@.page_kind {
                Some(k) => Some(&k),
                None => None,
            }),
    {
        self.page_kind.as_ref()
    }

    fn path_for_rustdoc_url(&self) -> (r: String)
        ensures
            r@ == self@.path_for_rustdoc_url(),
    {
        if matches!(self.page_kind, Some(PageKind::Rustdoc)) {
            generate_rustdoc_path_for_url(
                None,
                None,
                as_deref(&self.doc_target),
                as_deref(&self.inner_path),
            )
        } else {
            generate_rustdoc_path_for_url(None, None, as_deref(&self.doc_target), None)
        }
    }

    /// The URL of the documentation page.
    pub fn rustdoc_url(&self) -> (r: EscapedURI)
        requires
            path_fits(page_path(self@.name, self@.version, self@.path_for_rustdoc_url())),
        ensures
            r@ == EscapedUriText::of_path(
                page_path(self@.name, self@.version, self@.path_for_rustdoc_url()),
            ),
    {
        generate_rustdoc_url(
            self.name.as_str(),
            &self.version,
            self.path_for_rustdoc_url().as_str(),
        )
    }

    fn crate_url(&self, section: &str, rest: &str) -> (r: EscapedURI)
        requires
            path_fits(crate_path(self@.name, self@.version, section@, rest@)),
        ensures
            r@ == EscapedUriText::of_path(
                crate_path(self@.name, self@.version, section@, rest@),
            ),
    {
        generate_crate_url(self.name.as_str(), &self.version, section, rest)
    }

    /// The URL of the page about the crate.
    pub fn crate_details_url(&self) -> (r: EscapedURI)
        requires
            path_fits(crate_path(self@.name, self@.version, ""@, ""@)),
        ensures
            r@ == EscapedUriText::of_path(crate_path(self@.name, self@.version, ""@, ""@)),
    {
        self.crate_url("", "")
    }

    /// The URL of the menu of platforms.
    pub fn platforms_partial_url(&self) -> (r: EscapedURI)
        requires
            path_fits(
                crate_path(
                    self@.name,
                    self@.version,
                    "/menus/platforms/"@,
                    self@.path_for_rustdoc_url(),
                ),
            ),
        ensures
            r@ == EscapedUriText::of_path(
                crate_path(
                    self@.name,
                    self@.version,
                    "/menus/platforms/"@,
                    self@.path_for_rustdoc_url(),
                ),
            ),
    {
        self.crate_url("/menus/platforms/", self.path_for_rustdoc_url().as_str())
    }

    /// The URL of the menu of releases.
    pub fn releases_partial_url(&self) -> (r: EscapedURI)
        requires
            path_fits(
                crate_path(
                    self@.name,
                    self@.version,
                    "/menus/releases/"@,
                    self@.path_for_rustdoc_url(),
                ),
            ),
        ensures
            r@ == EscapedUriText::of_path(
                crate_path(
                    self@.name,
                    self@.version,
                    "/menus/releases/"@,
                    self@.path_for_rustdoc_url(),
                ),
            ),
    {
        self.crate_url("/menus/releases/", self.path_for_rustdoc_url().as_str())
    }

    /// The URL of the list of builds.
    pub fn builds_url(&self) -> (r: EscapedURI)
        requires
            path_fits(crate_path(self@.name, self@.version, "/builds"@, ""@)),
        ensures
            r@ == EscapedUriText::of_path(crate_path(self@.name, self@.version, "/builds"@, ""@)),
    {
        self.crate_url("/builds", "")
    }

    /// The URL of the list of features.
    pub fn features_url(&self) -> (r: EscapedURI)
        requires
            path_fits(crate_path(self@.name, self@.version, "/features"@, ""@)),
        ensures
            r@ == EscapedUriText::of_path(crate_path(self@.name, self@.version, "/features"@, ""@)),
    {
        self.crate_url("/features", "")
    }

    /// The URL of the source browser.
    pub fn source_url(&self) -> (r: EscapedURI)
        requires
            path_fits(self@.source_path()),
        ensures
            r@ == EscapedUriText::of_path(self@.source_path()),
    {
        proof {
            reveal_strlit("");
            assert(""@ =~= Seq::<char>::empty());
        }
        let inner_path: &str = if matches!(self.page_kind, Some(PageKind::Source)) {
            self.inner_path()
        } else {
            ""
        };
        self.crate_url("/source/", inner_path)
    }

    /// The URL that leads to the page, or to the next best one, for a target.
    pub fn target_redirect_url(&self) -> (r: EscapedURI)
        requires
            path_fits(
                crate_path(
                    self@.name,
                    self@.version,
                    "/target-redirect/"@,
                    self@.path_for_rustdoc_url(),
                ),
            ),
        ensures
            r@ == EscapedUriText::of_path(
                crate_path(
                    self@.name,
                    self@.version,
                    "/target-redirect/"@,
                    self@.path_for_rustdoc_url(),
                ),
            ),
    {
        self.crate_url("/target-redirect/", self.path_for_rustdoc_url().as_str())
    }
}

/// Copies a list of strings.
pub fn copy_texts(v: &Vec<String>) -> (r: Vec<String>)
    ensures
        owned_texts(r@) == owned_texts(v@),
{
    let mut out: Vec<String> = Vec::new();
    let n: usize = v.len();
    for i in 0..n
        invariant
            n == v@.len(),
            out@.len() == i,
            forall|j: int| 0 <= j < i ==> (#[trigger] out@[j])@ == v@[j]@,
    {
        out.push(v[i].clone());
    }
    assert(owned_texts(out@) =~= owned_texts(v@));
    out
}

fn generate_rustdoc_url(name: &str, version: &ReqVersion, path: &str) -> (r: EscapedURI)
    requires
        path_fits(page_path(name@, version@, path@)),
    ensures
        r@ == EscapedUriText::of_path(page_path(name@, version@, path@)),
{
    let mut out: String = "/".to_owned();
    out.append(name);
    out.append("/");
    out.append(version.to_text().as_str());
    out.append("/");
    out.append(path);
    EscapedURI::from_path(out.as_str())
}

fn generate_crate_url(name: &str, version: &ReqVersion, section: &str, rest: &str) -> (r:
    EscapedURI)
    requires
        path_fits(crate_path(name@, version@, section@, rest@)),
    ensures
        r@ == EscapedUriText::of_path(crate_path(name@, version@, section@, rest@)),
{
    let mut out: String = "/crate/".to_owned();
    out.append(name);
    out.append("/");
    out.append(version.to_text().as_str());
    out.append(section);
    out.append(rest);
    EscapedURI::from_path(out.as_str())
}

/// Parameters that were understood in the light of what is known of the release.
#[derive(Debug)]
pub struct ParsedRustdocParams {
    inner: RustdocParams,
    doc_targets: Vec<String>,
    default_target: Option<String>,
    target_name: Option<String>,
    merged_inner_path: String,
}

impl View for ParsedRustdocParams {
    type V = ParsedRustdocParamsText;

    closed spec fn view(&self) -> ParsedRustdocParamsText {
        ParsedRustdocParamsText {
            inner: self.inner@,
            doc_targets: owned_texts(self.doc_targets@),
            default_target: maybe_text(self.default_target),
            target_name: maybe_text(self.target_name),
            merged_inner_path: self.merged_inner_path@,
        }
    }
}

impl ParsedRustdocParamsText {
    /// The doc target, if any, is one that documentation was built for, and the merged path is
    /// made from the inner path.
    pub open spec fn valid(self) -> bool {
        &&& self.inner.doc_target matches Some(t) ==> self.doc_targets.contains(t)
        &&& self.inner.inner_path is Some
        &&& self.merged_inner_path == self.inner.merged_inner_path()
    }

    /// Whether two requests ask for the same, of releases of which the same is known.
    pub open spec fn same_as(self, other: Self) -> bool {
        &&& self.inner.same_as(other.inner)
        &&& self.doc_targets == other.doc_targets
        &&& self.default_target == other.default_target
        &&& self.target_name == other.target_name
        &&& self.merged_inner_path == other.merged_inner_path
    }

    /// The doc target, or the default target where none was asked for.
    pub open spec fn target_or_default(self) -> Option<Seq<char>> {
        match self.inner.doc_target {
            Some(t) => Some(t),
            None => self.default_target,
        }
    }

    /// Whether the doc target that was asked for is the default one.
    pub open spec fn asks_for_default_target(self) -> bool {
        self.default_target is Some && self.inner.doc_target == self.default_target
    }

    /// What is known of the release, with other parameters.
    pub open spec fn updated(self, inner: RustdocParamsText) -> Self {
        inner.parsed(self.default_target, self.target_name, self.doc_targets)
    }

    /// The path of the page in a URL.
    pub open spec fn path_for_rustdoc_url(self) -> Seq<char> {
        rustdoc_path(
            self.target_name,
            self.default_target,
            self.inner.doc_target,
            if self.inner.page_kind == Some(PageKind::Rustdoc) {
                Some(self.merged_inner_path)
            } else {
                None
            },
        )
    }

    /// The path, inside the archive of the release, of the file that holds the page.
    pub open spec fn storage_path(self) -> Seq<char> {
        let path = self.path_for_rustdoc_url();
        if is_folder(path) {
            path + index_html()
        } else {
            path
        }
    }

    /// The path of the documentation page in a URL.
    pub open spec fn page_path(self) -> Seq<char> {
        page_path(self.inner.name, self.inner.version, self.path_for_rustdoc_url())
    }

    /// What to search for when the page does not exist: the name of the module or the item, or
    /// of the file in the source view.
    pub open spec fn fallback_search(self) -> Option<Seq<char>> {
        let components = pieces(without_leading(self.merged_inner_path, '/'), '/');
        let last = components.last();
        if last.len() == 0 || last == index_html() {
            if components.len() >= 2 {
                Some(components[components.len() - 2])
            } else {
                None
            }
        } else if components[0] != "src"@ {
            if pieces(last, '.').len() >= 2 {
                Some(pieces(last, '.')[1])
            } else {
                None
            }
        } else {
            stripped_suffix(last, ".rs.html"@)
        }
    }

    /// The same parameters for the start page of the crate.
    pub open spec fn start_page(self) -> Self {
        self.updated(RustdocParamsText { inner_path: Some(trimmed(""@)), ..self.inner })
    }

    /// Where to go when the page does not exist: the start page, with a search.
    pub open spec fn fallback(self) -> EscapedUriText {
        let start = EscapedUriText::of_path(self.start_page().page_path());
        match self.fallback_search() {
            Some(item) => start.with_pairs(seq![("search"@, item)]),
            None => start,
        }
    }

    /// Whether `fallback` is a URL that is short enough.
    pub open spec fn fallback_fits(self) -> bool {
        let start = self.start_page().page_path();
        &&& path_fits(start)
        &&& self.fallback_search() matches Some(item) ==> EscapedUriText::of_path(start).can_carry(
            seq![("search"@, item)],
        )
    }
}

impl Clone for ParsedRustdocParams {
    fn clone(&self) -> (r: Self)
        ensures
            r@ == self@,
    {
        proof {
            use_type_invariant(self);
        }
        ParsedRustdocParams {
            inner: self.inner.clone(),
            doc_targets: copy_texts(&self.doc_targets),
            default_target: clone_text(&self.default_target),
            target_name: clone_text(&self.target_name),
            merged_inner_path: self.merged_inner_path.clone(),
        }
    }
}

/// Whether two lists hold the same texts.
fn same_texts(a: &Vec<String>, b: &Vec<String>) -> (r: bool)
    ensures
        r == (owned_texts(a@) == owned_texts(b@)),
{
    let n: usize = a.len();
    assert(owned_texts(a@).len() == n && owned_texts(b@).len() == b@.len());
    if n != b.len() {
        return false;
    }
    for i in 0..n
        invariant
            n == a@.len(),
            n == b@.len(),
            forall|j: int| 0 <= j < i ==> (#[trigger] a@[j])@ == b@[j]@,
    {
        if !same_text(a[i].as_str(), b[i].as_str()) {
            assert(owned_texts(a@)[i as int] != owned_texts(b@)[i as int]);
            return false;
        }
    }
    assert(owned_texts(a@) =~= owned_texts(b@));
    true
}

impl PartialEq for ParsedRustdocParams {
    fn eq(&self, other: &ParsedRustdocParams) -> (r: bool) {
        self.inner == other.inner && same_texts(&self.doc_targets, &other.doc_targets)
            && same_maybe_str(as_deref(&self.default_target), as_deref(&other.default_target))
            && same_maybe_str(as_deref(&self.target_name), as_deref(&other.target_name))
            && same_text(self.merged_inner_path.as_str(), other.merged_inner_path.as_str())
    }
}

impl vstd::std_specs::cmp::PartialEqSpecImpl for ParsedRustdocParams {
    open spec fn obeys_eq_spec() -> bool {
        true
    }

    open spec fn eq_spec(&self, other: &ParsedRustdocParams) -> bool {
        self@.same_as(other@)
    }
}

/// Why a doc target cannot be asked for: there is no documentation for it.
#[derive(Debug)]
pub struct UnknownDocTarget {
    pub doc_target: String,
}

impl UnknownDocTarget {
    /// What is reported.
    pub fn message(&self) -> (r: String)
        ensures
            r@ == "unknown doc target: "@ + self.doc_target@,
    {
        let mut out: String = "unknown doc target: ".to_owned();
        out.append(self.doc_target.as_str());
        out
    }
}

impl ParsedRustdocParams {
    #[verifier::type_invariant]
    pub open spec fn well_formed(self) -> bool {
        self@.valid()
    }

    /// The parameters that were understood.
    pub closed spec fn inner_params(self) -> RustdocParams {
        self.inner
    }

    /// The parameters that were understood are what the view says.
    pub proof fn lemma_inner_params(self)
        ensures
            self.inner_params()@ == self@.inner,
    {
    }

    /// The name of the crate.
    pub fn name(&self) -> (r: &str)
        ensures
            r@ == self@.inner.name,
    {
        self.inner.name()
    }

    /// The version that is asked for.
    pub fn version(&self) -> (r: &ReqVersion)
        ensures
            r@ == self@.inner.version,
    {
        self.inner.version()
    }

    /// Whether `after` is what the parameters become when `f` changes them.
    pub open spec fn is_updated<F: FnOnce(RustdocParams) -> RustdocParams>(
        self,
        f: F,
        after: ParsedRustdocParams,
    ) -> bool {
        exists|inner: RustdocParams|
            call_ensures(f, (self.inner_params(),), inner) && after@ == #[trigger] self@.updated(
                inner@,
            )
    }

    /// Changes the parameters, and understands the new ones.
    pub fn update<F: FnOnce(RustdocParams) -> RustdocParams>(self, f: F) -> (r: Self)
        requires
            call_requires(f, (self.inner_params(),)),
        ensures
            self.is_updated(f, r),
            exists|given: RustdocParams, inner: RustdocParams|
                given@ == self@.inner && #[trigger] call_ensures(f, (given,), inner) && r@
                    == self@.updated(inner@),
    {
        let new_inner: RustdocParams = f(self.inner);
        let r: ParsedRustdocParams = new_inner.parse(
            self.default_target,
            self.target_name,
            self.doc_targets,
        );
        assert(r@ == self@.updated(new_inner@));
        r
    }

    /// The same parameters for another version.
    pub fn with_version(self, version: ReqVersion) -> (r: Self)
        ensures
            r@ == self@.updated(RustdocParamsText { version: version@, ..self@.inner }),
    {
        self.inner.with_version(version).parse(self.default_target, self.target_name, self.doc_targets)
    }

    /// The same parameters for another doc target, where there is documentation for it.
    pub fn with_doc_target(self, doc_target: &str) -> (r: Result<Self, UnknownDocTarget>)
        ensures
            r is Ok <==> self@.doc_targets.contains(doc_target@),
            r matches Ok(p) ==> p@ == self@.updated(
                RustdocParamsText { doc_target: Some(trimmed(doc_target@)), ..self@.inner },
            ),
            r matches Err(e) ==> e.doc_target@ == doc_target@,
    {
        if !is_one_of(&self.doc_targets, doc_target) {
            return Err(UnknownDocTarget { doc_target: doc_target.to_owned() });
        }
        Ok(self.inner.with_doc_target(doc_target).parse(self.default_target, self.target_name, self.doc_targets))
    }

    /// The same parameters with another inner path.
    pub fn with_inner_path(self, inner_path: &str) -> (r: Self)
        ensures
            r@ == self@.updated(
                RustdocParamsText { inner_path: Some(trimmed(inner_path@)), ..self@.inner },
            ),
    {
        self.inner.with_inner_path(inner_path).parse(self.default_target, self.target_name, self.doc_targets)
    }

    /// The same parameters for a kind of page.
    pub fn with_page_kind(self, page_kind: PageKind) -> (r: Self)
        ensures
            r@ == self@.updated(RustdocParamsText { page_kind: Some(page_kind), ..self@.inner }),
    {
        self.inner.with_page_kind(page_kind).parse(self.default_target, self.target_name, self.doc_targets)
    }

    /// The same parameters for no kind of page.
    pub fn remove_page_kind(self) -> (r: Self)
        ensures
            r@ == self@.updated(RustdocParamsText { page_kind: None, ..self@.inner }),
    {
        self.inner.remove_page_kind().parse(self.default_target, self.target_name, self.doc_targets)
    }

    /// The path, inside the archive that holds the documentation of the release, where the page
    /// may be found.
    pub fn storage_path(&self) -> (r: String)
        ensures
            r@ == self@.storage_path(),
    {
        let mut storage_path: String = self.path_for_rustdoc_url();
        if path_is_folder(storage_path.as_str()) {
            storage_path.append("index.html");
        }
        storage_path
    }

    /// The doc target.
    pub fn doc_target(&self) -> (r: Option<&str>)
        ensures
            maybe_str(r) == self@.inner.doc_target,
            r matches Some(t) ==> self@.doc_targets.contains(t@),
    {
        proof {
            use_type_invariant(self);
        }
        self.inner.doc_target()
    }

    /// The doc target, or the default target where none was asked for.
    pub fn doc_target_or_default(&self) -> (r: Option<&str>)
        ensures
            maybe_str(r) == self@.target_or_default(),
    {
        match self.inner.doc_target() {
            Some(t) => Some(t),
            None => as_deref(&self.default_target),
        }
    }

    /// Whether a folder was requested.
    pub fn path_is_folder(&self) -> (r: bool)
        ensures
            r == is_folder(self@.inner.original_path()),
    {
        path_is_folder(self.inner.original_path())
    }

    /// The extension of the file that was requested.
    pub fn file_extension(&self) -> (r: Option<&str>)
        ensures
            maybe_str(r) == (match self@.inner.original_uri {
                Some(u) => file_extension(u.path()),
                None => None,
            }),
    {
        self.inner.file_extension()
    }

    /// The inner path, with the static suffix of the route.
    pub fn inner_path(&self) -> (r: &str)
        ensures
            r@ == self@.merged_inner_path,
    {
        self.merged_inner_path.as_str()
    }

    /// Whether the doc target that was asked for is the default one.
    pub fn target_is_default(&self) -> (r: bool)
        ensures
            r == self@.asks_for_default_target(),
    {
        match as_deref(&self.default_target) {
            Some(t) => same_maybe_str(self.inner.doc_target(), Some(t)),
            None => false,
        }
    }

    /// The kind of page that is asked for.
    pub fn page_kind(&self) -> (r: Option<&PageKind>)
        ensures
            r == (match self@.inner.page_kind {
                Some(k) => Some(&k),
                None => None,
            }),
    {
        self.inner.page_kind()
    }

    /// The URL of the documentation page.
    pub fn rustdoc_url(&self) -> (r: EscapedURI)
        requires
            path_fits(self@.page_path()),
        ensures
            r@ == EscapedUriText::of_path(self@.page_path()),
    {
        generate_rustdoc_url(self.name(), self.version(), self.path_for_rustdoc_url().as_str())
    }

    /// The URL of the source browser.
    pub fn source_url(&self) -> (r: EscapedURI)
        requires
            path_fits(self@.inner.source_path()),
        ensures
            r@ == EscapedUriText::of_path(self@.inner.source_path()),
    {
        self.inner.source_url()
    }

    /// The URL of the list of builds.
    pub fn builds_url(&self) -> (r: EscapedURI)
        requires
            path_fits(crate_path(self@.inner.name, self@.inner.version, "/builds"@, ""@)),
        ensures
            r@ == EscapedUriText::of_path(
                crate_path(self@.inner.name, self@.inner.version, "/builds"@, ""@),
            ),
    {
        self.inner.builds_url()
    }

    /// The URL of the menu of platforms.
    pub fn platforms_partial_url(&self) -> (r: EscapedURI)
        requires
            path_fits(
                crate_path(
                    self@.inner.name,
                    self@.inner.version,
                    "/menus/platforms/"@,
                    self@.inner.path_for_rustdoc_url(),
                ),
            ),
        ensures
            r@ == EscapedUriText::of_path(
                crate_path(
                    self@.inner.name,
                    self@.inner.version,
                    "/menus/platforms/"@,
                    self@.inner.path_for_rustdoc_url(),
                ),
            ),
    {
        self.inner.platforms_partial_url()
    }

    /// The URL of the menu of releases.
    pub fn releases_partial_url(&self) -> (r: EscapedURI)
        requires
            path_fits(
                crate_path(
                    self@.inner.name,
                    self@.inner.version,
                    "/menus/releases/"@,
                    self@.inner.path_for_rustdoc_url(),
                ),
            ),
        ensures
            r@ == EscapedUriText::of_path(
                crate_path(
                    self@.inner.name,
                    self@.inner.version,
                    "/menus/releases/"@,
                    self@.inner.path_for_rustdoc_url(),
                ),
            ),
    {
        self.inner.releases_partial_url()
    }

    /// The URL of the list of features.
    pub fn features_url(&self) -> (r: EscapedURI)
        requires
            path_fits(crate_path(self@.inner.name, self@.inner.version, "/features"@, ""@)),
        ensures
            r@ == EscapedUriText::of_path(
                crate_path(self@.inner.name, self@.inner.version, "/features"@, ""@),
            ),
    {
        self.inner.features_url()
    }

    fn path_for_rustdoc_url(&self) -> (r: String)
        ensures
            r@ == self@.path_for_rustdoc_url(),
    {
        let inner_path: Option<&str> = if matches!(self.inner.page_kind, Some(PageKind::Rustdoc)) {
            Some(self.inner_path())
        } else {
            None
        };
        generate_rustdoc_path_for_url(
            as_deref(&self.target_name),
            as_deref(&self.default_target),
            self.inner.doc_target(),
            inner_path,
        )
    }

    /// The URL that leads to the page, or to the next best one, for a target.
    pub fn target_redirect_url(&self) -> (r: EscapedURI)
        requires
            path_fits(
                crate_path(
                    self@.inner.name,
                    self@.inner.version,
                    "/target-redirect/"@,
                    self@.path_for_rustdoc_url(),
                ),
            ),
        ensures
            r@ == EscapedUriText::of_path(
                crate_path(
                    self@.inner.name,
                    self@.inner.version,
                    "/target-redirect/"@,
                    self@.path_for_rustdoc_url(),
                ),
            ),
    {
        self.inner.crate_url("/target-redirect/", self.path_for_rustdoc_url().as_str())
    }

    /// The URL of the page about the crate.
    pub fn crate_details_url(&self) -> (r: EscapedURI)
        requires
            path_fits(crate_path(self@.inner.name, self@.inner.version, ""@, ""@)),
        ensures
            r@ == EscapedUriText::of_path(
                crate_path(self@.inner.name, self@.inner.version, ""@, ""@),
            ),
    {
        self.inner.crate_details_url()
    }

    /// What to search for when the page is known not to exist.
    pub fn generate_fallback_search(&self) -> (r: Option<String>)
        ensures
            maybe_text(r) == self@.fallback_search(),
    {
        let components: Vec<&str> = split(trim_start_matches(self.inner_path(), '/'), '/');
        let n: usize = components.len();
        let last: &str = components[n - 1];
        let first: &str = components[0];
        let ghost all = texts(components@);
        assert(all.last() == last@ && all[0] == first@);
        if last.is_empty() || same_text(last, "index.html") {
            if n >= 2 {
                assert(all[n - 2] == components@[n - 2]@);
                Some(components[n - 2].to_owned())
            } else {
                None
            }
        } else if !same_text(first, "src") {
            let parts: Vec<&str> = split(last, '.');
            assert(texts(parts@).len() == parts@.len());
            if parts.len() >= 2 {
                assert(texts(parts@)[1] == parts@[1]@);
                Some(parts[1].to_owned())
            } else {
                None
            }
        } else {
            match strip_suffix(last, ".rs.html") {
                Some(stem) => Some(stem.to_owned()),
                None => None,
            }
        }
    }

    /// Where to go when the page is known not to exist: the start page of the crate, with a
    /// search for what was asked for.
    pub fn generate_fallback_url(&self) -> (r: EscapedURI)
        requires
            self@.fallback_fits(),
        ensures
            r@ == self@.fallback(),
    {
        let rustdoc_url: EscapedURI = self.clone().with_inner_path("").rustdoc_url();
        match self.generate_fallback_search() {
            Some(search_item) => {
                assert(query_pairs(None).push(("search"@, search_item@)) =~= seq![
                    ("search"@, search_item@),
                ]);
                assert(query_pairs(None) + seq![("search"@, search_item@)] =~= seq![
                    ("search"@, search_item@),
                ]);
                rustdoc_url.append_query_pair("search", search_item.as_str())
            },
            None => rustdoc_url,
        }
    }

    /// The targets that documentation was built for.
    pub fn doc_targets(&self) -> (r: &Vec<String>)
        ensures
            owned_texts(r@) == self@.doc_targets,
    {
        &self.doc_targets
    }
}

/// Whether `t` can be the name of a target: it is not empty, has no white space around it and
/// no slash in it.
pub open spec fn is_target_name(t: Seq<char>) -> bool {
    t.len() > 0 && trimmed(t) == t && !t.contains('/')
}

/// What comes before the first slash of a path, or the whole path where it has none.
pub open spec fn first_component(path: Seq<char>) -> Seq<char> {
    match first_index(path, '/') {
        Some(i) => path.take(i),
        None => path,
    }
}

/// Whether a path begins with a slash.
pub open spec fn starts_with_slash(path: Seq<char>) -> bool {
    path.len() > 0 && path[0] == '/'
}

/// Whether an inner path begins with neither a slash nor white space.
pub open spec fn has_plain_start(path: Seq<char>) -> bool {
    path.len() > 0 ==> path[0] != '/' && !is_white_space(path[0])
}

/// The doc target that is found is one that documentation was built for, and parsing gives
/// parameters that are valid.
pub proof fn law_doc_target_is_known(
    params: RustdocParamsText,
    default_target: Option<Seq<char>>,
    target_name: Option<Seq<char>>,
    doc_targets: Seq<Seq<char>>,
)
    ensures
        params.with_fixed_target_and_path(doc_targets).doc_target matches Some(t)
            ==> doc_targets.contains(t),
        params.parsed(default_target, target_name, doc_targets).valid(),
{
}

/// The inner path does not begin with a slash, as long as no slash is left at the start when
/// white space is removed, an unknown target does not begin with one, and two slashes do not
/// follow a target at the start of the path.
pub proof fn law_inner_path_is_not_rooted(
    params: RustdocParamsText,
    doc_targets: Seq<Seq<char>>,
)
    requires
        ({
            let path = trimmed(without_leading(text_or_empty(params.inner_path), '/'));
            let given = trimmed(text_or_empty(params.doc_target));
            let target = first_component(path);
            if given.len() > 0 && !doc_targets.contains(given) {
                given[0] != '/'
            } else if given.len() == 0 && doc_targets.contains(target) && target.len()
                < path.len() {
                !starts_with_slash(path.skip(target.len() as int + 1))
            } else {
                !starts_with_slash(path)
            }
        }),
    ensures
        ({
            let path = text_or_empty(
                params.with_fixed_target_and_path(doc_targets).inner_path,
            );
            !starts_with_slash(path)
        }),
{
    let path = trimmed(without_leading(text_or_empty(params.inner_path), '/'));
    lemma_first_index(path, '/');
}

/// Parameters that were understood once stay as they are when they are understood again, where
/// the path that was left begins plainly and, without a target, does not begin with one.
pub proof fn law_fixing_is_idempotent(params: RustdocParamsText, doc_targets: Seq<Seq<char>>)
    requires
        forall|i: int| 0 <= i < doc_targets.len() ==> is_target_name(#[trigger] doc_targets[i]),
        ({
            let fixed = params.with_fixed_target_and_path(doc_targets);
            &&& has_plain_start(text_or_empty(fixed.inner_path))
            &&& fixed.doc_target is None ==> !doc_targets.contains(
                first_component(text_or_empty(fixed.inner_path)),
            )
        }),
    ensures
        params.with_fixed_target_and_path(doc_targets).with_fixed_target_and_path(doc_targets)
            == params.with_fixed_target_and_path(doc_targets),
{
    let raw = without_leading(text_or_empty(params.inner_path), '/');
    let path = trimmed(raw);
    let given = trimmed(text_or_empty(params.doc_target));
    let fixed = params.with_fixed_target_and_path(doc_targets);
    let p = text_or_empty(fixed.inner_path);
    reveal_strlit("/");
    lemma_trimmed(raw);
    lemma_trimmed(text_or_empty(params.doc_target));
    lemma_first_index(path, '/');
    lemma_first_index(p, '/');
    assert(p.len() > 0 ==> !is_white_space(p.last())) by {
        if given.len() > 0 {
            if !doc_targets.contains(given) {
                if path.len() > 0 {
                    assert(p.last() == path.last());
                } else if params.has_trailing_slash() {
                    assert(p.last() == '/');
                }
            }
        } else {
            match first_index(path, '/') {
                Some(pos) => {
                    if doc_targets.contains(path.take(pos)) && p.len() > 0 {
                        assert(p.last() == path.last());
                    }
                },
                None => {},
            }
        }
    }
    assert(trimmed(without_leading(p, '/')) == p);
    match fixed.doc_target {
        Some(t) => {
            let i = choose|i: int| 0 <= i < doc_targets.len() && doc_targets[i] == t;
            assert(is_target_name(doc_targets[i]));
        },
        None => {
            assert(trimmed(Seq::<char>::empty()) =~= Seq::<char>::empty());
        },
    }
    assert(fixed.with_fixed_target_and_path(doc_targets) =~= fixed);
}

/// Asking for another version, or for another kind of page, leaves the doc target and the inner
/// path of parsed parameters as they are, on the same terms.
pub proof fn law_update_keeps_target_and_path(
    params: ParsedRustdocParamsText,
    version: ReqVersionText,
    page_kind: Option<PageKind>,
)
    requires
        params.valid(),
        forall|i: int|
            0 <= i < params.doc_targets.len() ==> is_target_name(#[trigger] params.doc_targets[i]),
        params.inner.with_fixed_target_and_path(params.doc_targets) == params.inner,
    ensures
        ({
            let updated = params.updated(
                RustdocParamsText { version, page_kind, ..params.inner },
            );
            &&& updated.inner == (RustdocParamsText { version, page_kind, ..params.inner })
            &&& updated.inner.page_kind == params.inner.page_kind ==> updated.merged_inner_path
                == params.merged_inner_path
        }),
{
    let inner = RustdocParamsText { version, page_kind, ..params.inner };
    assert(inner.original_path() == params.inner.original_path());
    assert(inner.with_fixed_target_and_path(params.doc_targets).doc_target
        == params.inner.doc_target);
    assert(inner.with_fixed_target_and_path(params.doc_targets) =~= inner);
}

/// Whether `t` is the name of a platform: it has a dash, and neither a slash nor white space.
pub open spec fn is_platform_name(t: Seq<char>) -> bool {
    &&& t.contains('-')
    &&& !t.contains('/')
    &&& forall|i: int| 0 <= i < t.len() ==> !is_white_space(#[trigger] t[i])
}

/// Updating parsed parameters with what they are changes nothing: a target is not taken from the
/// path a second time, and the static suffix of the route is not added again. The inner path that
/// parsing left has to begin plainly.
pub proof fn law_update_with_the_same_changes_nothing(
    params: RustdocParamsText,
    default_target: Option<Seq<char>>,
    target_name: Option<Seq<char>>,
    doc_targets: Seq<Seq<char>>,
)
    requires
        params.doc_target matches Some(t) ==> !t.contains('/'),
        forall|i: int| 0 <= i < doc_targets.len() ==> is_platform_name(#[trigger] doc_targets[i]),
        has_plain_start(
            text_or_empty(params.with_fixed_target_and_path(doc_targets).inner_path),
        ),
    ensures
        ({
            let parsed = params.parsed(default_target, target_name, doc_targets);
            &&& parsed.updated(parsed.inner) == parsed
            &&& parsed.updated(parsed.inner).same_as(parsed)
        }),
{
    let parsed = params.parsed(default_target, target_name, doc_targets);
    let fixed = parsed.inner;
    assert forall|i: int| 0 <= i < doc_targets.len() implies is_target_name(
        #[trigger] doc_targets[i],
    ) by {
        let t = doc_targets[i];
        assert(is_platform_name(t));
        assert(t.len() > 0);
        assert(!is_white_space(t[0]) && !is_white_space(t[t.len() - 1]));
    }
    if fixed.doc_target is None {
        let raw = text_or_empty(params.doc_target);
        let given = trimmed(raw);
        let path = trimmed(without_leading(text_or_empty(params.inner_path), '/'));
        let inner_path = text_or_empty(fixed.inner_path);
        reveal_strlit("/");
        assert("/"@ =~= seq!['/']);
        lemma_trimmed_chars(raw, '/');
        lemma_first_index(inner_path, '/');
        lemma_first_index(path, '/');
        lemma_first_index(given, '/');
        if given.len() > 0 {
            assert(inner_path.take(given.len() as int) =~= given);
            if inner_path.len() > given.len() {
                assert(inner_path[given.len() as int] == '/');
                assert forall|j: int| 0 <= j < given.len() implies inner_path[j] != '/' by {
                    assert(inner_path[j] == given[j]);
                    assert(given.contains(given[j]));
                }
                lemma_first_index_is(inner_path, '/', given.len() as int);
            } else {
                assert(inner_path =~= given);
            }
            assert(first_component(inner_path) == given);
        }
    }
    law_fixing_is_idempotent(params, doc_targets);
    assert(parsed.updated(parsed.inner) =~= parsed);
}

/// Updating parsed parameters with a function that leaves them as they are changes nothing, on the
/// same terms.
pub proof fn law_update_with_identity<F: FnOnce(RustdocParams) -> RustdocParams>(
    before: ParsedRustdocParams,
    after: ParsedRustdocParams,
    params: RustdocParamsText,
    f: F,
)
    requires
        before@ == params.parsed(before@.default_target, before@.target_name, before@.doc_targets),
        params.doc_target matches Some(t) ==> !t.contains('/'),
        forall|i: int|
            0 <= i < before@.doc_targets.len() ==> is_platform_name(
                #[trigger] before@.doc_targets[i],
            ),
        has_plain_start(text_or_empty(before@.inner.inner_path)),
        forall|given: RustdocParams, made: RustdocParams|
            call_ensures(f, (given,), made) ==> made@ == given@,
        before.is_updated(f, after),
    ensures
        after@ == before@,
        after@.same_as(before@),
{
    before.lemma_inner_params();
    law_update_with_the_same_changes_nothing(
        params,
        before@.default_target,
        before@.target_name,
        before@.doc_targets,
    );
}

/// The path in storage is never that of a folder.
pub proof fn law_storage_path_is_a_file(params: ParsedRustdocParamsText)
    ensures
        !is_folder(params.storage_path()),
{
    reveal_strlit("index.html");
}

/// Documentation of the default target stands where that of no particular target stands.
pub proof fn law_default_target_has_no_folder(
    target_name: Option<Seq<char>>,
    default_target: Seq<char>,
    inner_path: Option<Seq<char>>,
)
    ensures
        rustdoc_path(target_name, Some(default_target), Some(default_target), inner_path)
            == rustdoc_path(target_name, Some(default_target), None, inner_path),
{
}

/// The path of every page begins at the root.
pub proof fn law_page_paths_are_rooted(
    name: Seq<char>,
    version: ReqVersionText,
    section: Seq<char>,
    rest: Seq<char>,
)
    ensures
        page_path(name, version, rest)[0] == '/',
        crate_path(name, version, section, rest)[0] == '/',
{
    reveal_strlit("/");
    reveal_strlit("/crate/");
}

/// A target and a path, one behind the other.
pub open spec fn target_and_path(target: Option<Seq<char>>, path: Seq<char>) -> Seq<char> {
    match target {
        Some(t) => t + "/"@ + path,
        None => path,
    }
}

/// Understanding a request loses nothing of its target and its path, and adds nothing, but for one
/// slash at the end: one behind the other, they are what was given. What comes first in that is
/// the target exactly where documentation was built for it.
pub proof fn law_target_and_path_are_what_was_given(
    params: RustdocParamsText,
    doc_targets: Seq<Seq<char>>,
)
    ensures
        ({
            let given_target = trimmed(text_or_empty(params.doc_target));
            let given_path = trimmed(without_leading(text_or_empty(params.inner_path), '/'));
            let given = if given_target.len() > 0 {
                given_target + "/"@ + given_path
            } else {
                given_path
            };
            let first = if given_target.len() > 0 {
                given_target
            } else {
                first_component(given_path)
            };
            let fixed = params.with_fixed_target_and_path(doc_targets);
            let understood = target_and_path(fixed.doc_target, text_or_empty(fixed.inner_path));
            &&& understood == given || understood + "/"@ == given || understood == given + "/"@
            &&& fixed.doc_target == if doc_targets.contains(first) {
                Some(first)
            } else {
                None
            }
            &&& fixed.name == params.name
            &&& fixed.version == params.version
            &&& fixed.page_kind == params.page_kind
            &&& fixed.original_uri == params.original_uri
            &&& fixed.static_route_suffix == params.static_route_suffix
        }),
{
    reveal_strlit("/");
    assert("/"@ =~= seq!['/']);
    let given_target = trimmed(text_or_empty(params.doc_target));
    let path = trimmed(without_leading(text_or_empty(params.inner_path), '/'));
    lemma_first_index(path, '/');
    if given_target.len() > 0 {
        if path.len() == 0 {
            assert(path =~= Seq::<char>::empty());
            assert(given_target + "/"@ + path =~= given_target + "/"@);
        }
    } else {
        match first_index(path, '/') {
            Some(pos) => {
                assert(path.take(pos) + "/"@ + path.skip(pos + 1) =~= path);
            },
            None => {
                assert(path + "/"@ + Seq::<char>::empty() =~= path + "/"@);
            },
        }
    }
}

/// A target that is not known, and nothing else, is a folder exactly where the URL ends in a slash.
pub proof fn law_unknown_target_is_a_folder_by_its_slash(
    params: RustdocParamsText,
    doc_targets: Seq<Seq<char>>,
)
    requires
        ({
            let given = trimmed(text_or_empty(params.doc_target));
            given.len() > 0 && given.last() != '/' && !doc_targets.contains(given)
        }),
        trimmed(without_leading(text_or_empty(params.inner_path), '/')).len() == 0,
    ensures
        ({
            let path = text_or_empty(params.with_fixed_target_and_path(doc_targets).inner_path);
            &&& is_folder(path) <==> params.original_path().len() > 0
                && params.original_path().last() == '/'
            &&& trimmed(text_or_empty(params.doc_target)).is_prefix_of(path)
        }),
{
    reveal_strlit("/");
    let given = trimmed(text_or_empty(params.doc_target));
    let path = text_or_empty(params.with_fixed_target_and_path(doc_targets).inner_path);
    assert(path.take(given.len() as int) =~= given);
}

/// The static suffix of a route ends the path of a page that rustdoc wrote, behind the inner path,
/// of which nothing is lost. It has no part in the path of any other page.
pub proof fn law_static_suffix_ends_the_path(params: RustdocParamsText)
    ensures
        ({
            let path = text_or_empty(params.inner_path);
            let suffix = text_or_empty(params.static_route_suffix);
            let merged = params.merged_inner_path();
            &&& path.is_prefix_of(merged)
            &&& params.page_kind != Some(PageKind::Rustdoc) || suffix.len() == 0 ==> merged == path
            &&& params.page_kind == Some(PageKind::Rustdoc) ==> suffix.is_suffix_of(merged)
            &&& params.page_kind == Some(PageKind::Rustdoc) && suffix.len() > 0 && path.len() > 0
                ==> merged == path + "/"@ + suffix
            &&& params.page_kind == Some(PageKind::Rustdoc) && path.len() == 0 ==> merged == suffix
        }),
{
    reveal_strlit("/");
    assert("/"@ =~= seq!['/']);
    let path = text_or_empty(params.inner_path);
    let suffix = text_or_empty(params.static_route_suffix);
    let merged = params.merged_inner_path();
    assert(merged.take(path.len() as int) =~= path);
    if params.page_kind == Some(PageKind::Rustdoc) {
        assert(merged.skip(merged.len() - suffix.len()) =~= suffix);
        if path.len() == 0 {
            assert(merged =~= suffix);
        }
        if suffix.len() > 0 && path.len() > 0 {
            assert(merged =~= path + "/"@ + suffix);
        }
    }
}

/// The URL of a page is made of the name, the version and the path of the page, and of nothing
/// else.
pub proof fn law_page_urls_name_the_release(
    name: Seq<char>,
    version: ReqVersionText,
    path: Seq<char>,
)
    requires
        is_component(name),
        is_component(version.text()),
    ensures
        pieces(page_path(name, version, path), '/') == seq![
            Seq::<char>::empty(),
            name,
            version.text(),
        ] + pieces(path, '/'),
        requested_components(page_path(name, version, path)) == pieces(path, '/'),
{
    reveal_strlit("/");
    assert("/"@ =~= seq!['/']);
    let parts = pieces(path, '/');
    lemma_pieces(path, '/');
    assert forall|i: int| 0 <= i < parts.len() implies is_component(#[trigger] parts[i]) by {}
    law_path_keeps_components(name, version.text(), parts);
    assert(page_path(name, version, path) =~= release_path(name, version.text(), parts));
}

/// The URL of a page about a crate names the crate and the version, and behind them the section
/// and what is looked for in it.
pub proof fn law_crate_urls_name_the_release(
    name: Seq<char>,
    version: ReqVersionText,
    section: Seq<char>,
    rest: Seq<char>,
)
    requires
        is_component(name),
        is_component(version.text()),
        section.len() > 0,
        section[0] == '/',
    ensures
        pieces(crate_path(name, version, section, rest), '/') == seq![
            Seq::<char>::empty(),
            "crate"@,
            name,
            version.text(),
        ] + pieces(section.skip(1) + rest, '/'),
{
    reveal_strlit("/");
    reveal_strlit("crate");
    reveal_strlit("/crate/");
    assert("/"@ =~= seq!['/']);
    let tail = section.skip(1) + rest;
    let parts = pieces(tail, '/');
    lemma_pieces(tail, '/');
    let all = seq![version.text()] + parts;
    assert(is_component("crate"@));
    assert forall|i: int| 0 <= i < all.len() implies is_component(#[trigger] all[i]) by {
        if i > 0 {
            assert(all[i] == parts[i - 1]);
        }
    }
    law_path_keeps_components("crate"@, name, all);
    lemma_joined_first(all, "/"@);
    assert(all.skip(1) =~= parts);
    assert(section =~= "/"@ + section.skip(1));
    let path = crate_path(name, version, section, rest);
    assert(path =~= release_path("crate"@, name, all));
    assert(pieces(path, '/') =~= seq![Seq::<char>::empty(), "crate"@, name, version.text()] + parts);
}

/// The URL of a page leads to the file that its storage path names, where it has a path.
pub proof fn law_url_leads_to_the_stored_file(params: ParsedRustdocParamsText)
    requires
        is_component(params.inner.name),
        is_component(params.inner.version.text()),
        params.path_for_rustdoc_url().len() > 0,
    ensures
        storage_path_of(requested_components(params.page_path())) == params.storage_path(),
        params.storage_path() == params.path_for_rustdoc_url() || (is_folder(
            params.path_for_rustdoc_url(),
        ) && params.storage_path() == params.path_for_rustdoc_url() + "index.html"@),
{
    reveal_strlit("/");
    assert("/"@ =~= seq!['/']);
    let path = params.path_for_rustdoc_url();
    law_page_urls_name_the_release(params.inner.name, params.inner.version, path);
    lemma_pieces(path, '/');
}

/// In place of a page that does not exist, the index of a module, at any depth, is searched for by
/// the name of the module, whether it is asked for as a folder or as a file.
pub proof fn law_fallback_searches_modules_by_their_name(
    params: ParsedRustdocParamsText,
    before: Seq<Seq<char>>,
    module: Seq<char>,
    last: Seq<char>,
)
    requires
        last.len() == 0 || last == "index.html"@,
        is_component(module),
        forall|i: int| 0 <= i < before.len() ==> is_component(#[trigger] before[i]),
        before.push(module)[0].len() > 0,
        params.merged_inner_path == joined(before.push(module).push(last), "/"@),
    ensures
        params.fallback_search() == Some(module),
{
    reveal_strlit("/");
    reveal_strlit("index.html");
    assert("/"@ =~= seq!['/']);
    let all = before.push(module).push(last);
    assert forall|i: int| 0 <= i < all.len() implies !(#[trigger] all[i]).contains('/') by {
        if i < before.len() {
            assert(all[i] == before[i]);
            assert(is_component(before[i]));
        }
    }
    lemma_fallback_components(params, all);
    assert(all.last() == last);
    assert(all[all.len() - 2] == module);
}

/// In place of a page that does not exist, an item, at any depth, is searched for by its name.
pub proof fn law_fallback_searches_items_by_their_name(
    params: ParsedRustdocParamsText,
    before: Seq<Seq<char>>,
    kind: Seq<char>,
    name: Seq<char>,
    rest: Seq<char>,
)
    requires
        is_component(kind),
        is_component(name),
        is_component(rest),
        kind.len() > 0,
        !kind.contains('.'),
        !name.contains('.'),
        forall|i: int| 0 <= i < before.len() ==> is_component(#[trigger] before[i]),
        before.len() > 0 ==> before[0].len() > 0 && before[0] != "src"@,
        params.merged_inner_path == joined(
            before.push(kind + "."@ + name + "."@ + rest),
            "/"@,
        ),
    ensures
        params.fallback_search() == Some(name),
{
    reveal_strlit("/");
    reveal_strlit(".");
    reveal_strlit("src");
    reveal_strlit("index.html");
    assert("/"@ =~= seq!['/']);
    let last = kind + "."@ + name + "."@ + rest;
    let all = before.push(last);
    assert(!last.contains('/')) by {
        if last.contains('/') {
            let k = choose|k: int| 0 <= k < last.len() && last[k] == '/';
            let n = kind.len() as int;
            let m = n + 1 + name.len();
            if k < n {
                assert(kind[k] == '/');
            } else if n < k < m {
                assert(name[k - n - 1] == '/');
            } else if k > m {
                assert(rest[k - m - 1] == '/');
            }
        }
    }
    assert forall|i: int| 0 <= i < all.len() implies !(#[trigger] all[i]).contains('/') by {
        if i < before.len() {
            assert(all[i] == before[i]);
            assert(is_component(before[i]));
        }
    }
    lemma_fallback_components(params, all);
    assert(all.last() == last);
    let behind = name.push('.') + rest;
    lemma_single_piece(kind, '.');
    lemma_single_piece(name, '.');
    lemma_pieces_concat(name, rest, '.');
    lemma_pieces_concat(kind, behind, '.');
    lemma_pieces(rest, '.');
    assert(last =~= kind.push('.') + behind);
    let p = pieces(last, '.');
    assert(p == seq![kind] + (seq![name] + pieces(rest, '.')));
    assert(p[1] == name);
    let k = kind.len() as int;
    let m = k + 1 + name.len();
    assert(last[k] == '.' && last[m] == '.');
    if last == "index.html"@ {
        assert("index.html"@[k] == '.');
        assert("index.html"@[m] == '.');
    }
    if before.len() == 0 && last == "src"@ {
        assert("src"@[k] == '.');
    }
}

/// In place of a page that does not exist, the source of a file is searched for by the module that
/// the file holds.
pub proof fn law_fallback_searches_sources_by_their_module(
    params: ParsedRustdocParamsText,
    between: Seq<Seq<char>>,
    module: Seq<char>,
)
    requires
        is_component(module),
        forall|i: int| 0 <= i < between.len() ==> is_component(#[trigger] between[i]),
        params.merged_inner_path == joined(
            (seq!["src"@] + between).push(module + ".rs.html"@),
            "/"@,
        ),
    ensures
        params.fallback_search() == Some(module),
{
    reveal_strlit("/");
    reveal_strlit("src");
    reveal_strlit(".rs.html");
    reveal_strlit("index.html");
    assert("/"@ =~= seq!['/']);
    let last = module + ".rs.html"@;
    let all = (seq!["src"@] + between).push(last);
    assert(!last.contains('/')) by {
        if last.contains('/') {
            let k = choose|k: int| 0 <= k < last.len() && last[k] == '/';
            if k < module.len() {
                assert(module[k] == '/');
            } else {
                assert(".rs.html"@[k - module.len()] == '/');
            }
        }
    }
    assert forall|i: int| 0 <= i < all.len() implies !(#[trigger] all[i]).contains('/') by {
        if 0 < i <= between.len() {
            assert(all[i] == between[i - 1]);
            assert(is_component(between[i - 1]));
        }
    }
    lemma_fallback_components(params, all);
    assert(all.last() == last);
    assert(last.skip(last.len() - 8) =~= ".rs.html"@);
    assert(last.take(last.len() - 8) =~= module);
    if last == "index.html"@ {
        assert(last[last.len() - 6] == ".rs.html"@[2]);
        assert("index.html"@[4] == 'x');
    }
}

proof fn lemma_fallback_components(params: ParsedRustdocParamsText, all: Seq<Seq<char>>)
    requires
        all.len() > 0,
        all[0].len() > 0,
        forall|i: int| 0 <= i < all.len() ==> !(#[trigger] all[i]).contains('/'),
        params.merged_inner_path == joined(all, seq!['/']),
    ensures
        pieces(without_leading(params.merged_inner_path, '/'), '/') == all,
{
    let path = params.merged_inner_path;
    lemma_pieces_of_joined(all, '/');
    assert(path[0] == all[0][0]) by {
        if all.len() > 1 {
            lemma_joined_first(all, seq!['/']);
        }
    }
    assert(all[0].contains(all[0][0]));
    assert(without_leading(path, '/') == path);
}

/// Where a page does not exist, its fallback is the start page of the crate for the same target:
/// the folder of the crate, with a search for what was asked for and nothing else.
pub proof fn law_fallback_is_the_start_page(params: ParsedRustdocParamsText, target_name: Seq<char>)
    requires
        params.valid(),
        params.target_name == Some(target_name),
        params.inner.page_kind == Some(PageKind::Rustdoc),
        params.inner.static_route_suffix is None,
        forall|i: int|
            0 <= i < params.doc_targets.len() ==> is_target_name(#[trigger] params.doc_targets[i]),
    ensures
        ({
            let start = page_path(
                params.inner.name,
                params.inner.version,
                rustdoc_path(
                    params.target_name,
                    params.default_target,
                    params.inner.doc_target,
                    None,
                ),
            );
            &&& params.start_page().page_path() == start
            &&& (target_name + "/"@).is_suffix_of(start)
            &&& params.fallback_search() is None ==> params.fallback() == EscapedUriText::of_path(
                start,
            )
            &&& params.fallback_search() matches Some(item) ==> params.fallback()
                == EscapedUriText::of_path(start).with_pairs(seq![("search"@, item)])
        }),
{
    reveal_strlit("");
    let none = Seq::<char>::empty();
    assert(""@ =~= none);
    assert(trimmed(none) =~= none);
    let inner = RustdocParamsText { inner_path: Some(none), ..params.inner };
    let fixed = inner.with_fixed_target_and_path(params.doc_targets);
    assert(without_leading(none, '/') =~= none);
    lemma_first_index(none, '/');
    match params.inner.doc_target {
        Some(t) => {
            let i = choose|i: int| 0 <= i < params.doc_targets.len() && params.doc_targets[i] == t;
            assert(is_target_name(params.doc_targets[i]));
            assert(fixed.doc_target == Some(t));
        },
        None => {
            if params.doc_targets.contains(none) {
                let i = choose|i: int|
                    0 <= i < params.doc_targets.len() && params.doc_targets[i] == none;
                assert(is_target_name(params.doc_targets[i]));
            }
            assert(fixed.doc_target is None);
        },
    }
    assert(fixed.inner_path == Some(none));
    let start = params.start_page();
    assert(start.merged_inner_path == none);
    law_index_is_the_folder_of_the_crate(
        target_name,
        params.default_target,
        params.inner.doc_target,
    );
    let path = rustdoc_path(
        params.target_name,
        params.default_target,
        params.inner.doc_target,
        None,
    );
    assert(start.path_for_rustdoc_url() == path);
    let end = target_name + "/"@;
    let url = page_path(params.inner.name, params.inner.version, path);
    assert(path.skip(path.len() - end.len()) == end);
    assert(url.skip(url.len() - end.len()) =~= end);
}

/// The source browser shows the inner path of a source file, and never that of another page.
pub proof fn law_source_browser_shows_source_files(params: RustdocParamsText)
    ensures
        params.page_kind == Some(PageKind::Source) ==> text_or_empty(
            params.inner_path,
        ).is_suffix_of(params.source_path()),
        params.page_kind != Some(PageKind::Source) ==> params.source_path() == (RustdocParamsText {
            inner_path: None,
            ..params
        }).source_path() && "/source/"@.is_suffix_of(params.source_path()),
{
    reveal_strlit("/source/");
    let path = params.source_path();
    let inner = text_or_empty(params.inner_path);
    if params.page_kind == Some(PageKind::Source) {
        assert(path.skip(path.len() - inner.len()) =~= inner);
    } else {
        assert(path.skip(path.len() - 8) =~= "/source/"@);
    }
}

/// The target that is shown is the one that was asked for, else the default one. Asking for the
/// default target by its name is asking for what is shown without a name.
pub proof fn law_default_target_stands_in(params: ParsedRustdocParamsText)
    ensures
        params.inner.doc_target is Some ==> params.target_or_default() == params.inner.doc_target,
        params.inner.doc_target is None ==> params.target_or_default() == params.default_target,
        params.asks_for_default_target() <==> params.inner.doc_target is Some
            && params.inner.doc_target == params.default_target,
        params.asks_for_default_target() ==> (ParsedRustdocParamsText {
            inner: RustdocParamsText { doc_target: None, ..params.inner },
            ..params
        }).target_or_default() == params.target_or_default(),
{
}

/// Parameters are set one by one: what is set is what was given, without white space around it, and
/// all others stay.
pub proof fn law_parameters_are_set_one_by_one(params: RustdocParamsText, value: Seq<char>)
    ensures
        params.named(value).name == params.named(trimmed(value)).name,
        params.named(value).name.len() <= value.len(),
        params.named(value).for_target(params.doc_target) == params.for_target(
            params.doc_target,
        ).named(value),
        params.for_target(Some(value)).doc_target == Some(params.named(value).name),
        params.for_path(Some(value)).inner_path == Some(params.named(value).name),
        params.for_target(None).doc_target is None,
        params.for_path(None).inner_path is None,
        params.for_target(Some(value)).inner_path == params.inner_path,
        params.for_path(Some(value)).doc_target == params.doc_target,
        params.for_path(Some(value)).name == params.name,
        params.for_path(Some(value)).version == params.version,
        params.for_path(Some(value)).page_kind == params.page_kind,
        params.for_path(Some(value)).original_uri == params.original_uri,
        params.for_target(Some(value)).original_uri == params.original_uri,
        params.for_target(Some(value)).version == params.version,
        params.named(value).version == params.version,
        !is_white_space(value[0]) && !is_white_space(value[value.len() - 1]) && value.len() > 0
            ==> params.named(value).name == value,
        params.named(value).name.len() > 0 ==> !is_white_space(params.named(value).name[0])
            && !is_white_space(params.named(value).name.last()),
{
    law_trimming_takes_white_space_only(value);
}

/// What is known of a release is used for what it is: its default target, the name that its
/// documentation is filed under, and its targets. Without a list of targets there are none.
pub proof fn law_metadata_is_used_for_what_it_is(params: RustdocParamsText, metadata: MetaData)
    ensures
        ({
            let parsed = params.parsed_with(metadata);
            &&& parsed.default_target == maybe_text(metadata.default_target)
            &&& parsed.target_name == maybe_text(metadata.target_name)
            &&& metadata.doc_targets matches Some(targets) ==> parsed.doc_targets == owned_texts(
                targets@,
            )
            &&& metadata.doc_targets is None ==> parsed.doc_targets.len() == 0
                && parsed.inner.doc_target is None
            &&& parsed.inner.name == params.name
            &&& parsed.inner.version == params.version
        }),
{
}

/// A request that only names a crate asks for the newest version of its documentation, without a
/// target or a page.
pub proof fn law_a_name_asks_for_the_newest_documentation(name: Seq<char>)
    ensures
        ({
            let params = RustdocParamsText::new(name);
            &&& params == params.named(name)
            &&& params.version.text() == "latest"@
            &&& params.page_kind == Some(PageKind::Rustdoc)
            &&& params.doc_target is None && params.inner_path is None
            &&& params.static_route_suffix is None && params.original_uri is None
            &&& params.original_path().len() == 0 && params.merged_inner_path().len() == 0
        }),
{
}

/// In place of a page that does not exist, a file that is named by one word is nothing to search
/// for, and neither is the index at the root.
pub proof fn law_fallback_searches_nothing_for_a_word(
    params: ParsedRustdocParamsText,
    before: Seq<Seq<char>>,
    word: Seq<char>,
)
    requires
        is_component(word),
        !word.contains('.'),
        forall|i: int| 0 <= i < before.len() ==> is_component(#[trigger] before[i]),
        word.len() > 0,
        before.len() > 0 ==> before[0].len() > 0,
        params.merged_inner_path == joined(before.push(word), "/"@),
    ensures
        params.fallback_search() is None,
{
    reveal_strlit("/");
    reveal_strlit("index.html");
    reveal_strlit(".rs.html");
    assert("/"@ =~= seq!['/']);
    let all = before.push(word);
    assert forall|i: int| 0 <= i < all.len() implies !(#[trigger] all[i]).contains('/') by {
        if i < before.len() {
            assert(all[i] == before[i]);
            assert(is_component(before[i]));
        }
    }
    lemma_fallback_components(params, all);
    assert(all.last() == word);
    lemma_single_piece(word, '.');
    if word == "index.html"@ {
        assert("index.html"@[5] == '.');
        assert(word.contains(word[5]));
    }
    if ".rs.html"@.is_suffix_of(word) {
        let k = word.len() - 8;
        assert(word.skip(k)[0] == ".rs.html"@[0]);
        assert(word.contains(word[k]));
    }
}

/// The parameters of a request are those that the route took from its URI, each for what it is, and
/// the static end of the route, which no parameter holds: it ends the path of the URI, and stands
/// behind the last parameter of the route.
pub proof fn law_requests_are_taken_as_they_are(
    params: UrlParams,
    original_uri: UriText,
    route: Seq<char>,
    path: Seq<char>,
)
    ensures
        ({
            let taken = RustdocParamsText::of_request(params, original_uri, route, path);
            let given = RustdocParamsText::new(params.name@).for_target(
                maybe_text(params.target),
            ).for_path(maybe_text(params.path));
            &&& taken.name == given.name
            &&& taken.doc_target == given.doc_target
            &&& taken.inner_path == given.inner_path
            &&& taken.version == params.version@
            &&& taken.original_path() == original_uri.path()
            &&& taken.page_kind == Some(PageKind::Rustdoc)
            &&& taken.static_route_suffix matches Some(suffix) ==> {
                let s = pieces(suffix, '/');
                let r = pieces(route, '/');
                &&& s.is_suffix_of(r)
                &&& s.is_suffix_of(pieces(path, '/'))
                &&& s.len() == r.len() || s.len() == pieces(path, '/').len() || is_dynamic(
                    r[r.len() - s.len() - 1],
                )
            }
        }),
{
    law_static_suffix_is_shared(route, path);
}

} // verus!
