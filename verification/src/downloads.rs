//! Requests for files that are downloaded: documentation in JSON, archives, badges and assets.
use crate::cache::{CachePolicy, CachePolicyText};
use crate::decimal::{decimal, digits_value, lemma_decimal_digits, to_decimal};
use crate::error::{AxumNope, Failure};
use crate::header::SurrogateKeys;
use crate::redirection::{Base, Query, Redirection};
use crate::release::{CrateDetails, MatchedRelease};
use crate::rustdoc_params::is_one_of;
use crate::text::{
    chars_of, joined, lemma_joined_first, lemma_pieces_of_joined, lemma_split_is_unique,
    maybe_str, maybe_text, owned_texts, pieces, same_text, strip_suffix, stripped_suffix,
};
use crate::url_text::{normalized_url, parse_url};
use crate::version::{
    law_version_text_has_no_slash, law_version_text_is_unique, ReqVersion, ReqVersionText,
    VersionText,
};
use vstd::prelude::*;
use vstd::string::StringExecFns;

verus! {

/// How a file is compressed.
#[derive(Clone, Copy, Debug, PartialEq, Eq, Structural)]
pub enum CompressionAlgorithm {
    Zstd,
    Bzip2,
    Gzip,
}

impl CompressionAlgorithm {
    /// The extension of files that are compressed like this.
    pub open spec fn extension(self) -> Seq<char> {
        match self {
            CompressionAlgorithm::Zstd => "zst"@,
            CompressionAlgorithm::Bzip2 => "bz2"@,
            CompressionAlgorithm::Gzip => "gz"@,
        }
    }

    /// The extension of files that are compressed like this.
    pub fn file_extension(&self) -> (r: &'static str)
        ensures
            r@ == self.extension(),
    {
        match self {
            CompressionAlgorithm::Zstd => "zst",
            CompressionAlgorithm::Bzip2 => "bz2",
            CompressionAlgorithm::Gzip => "gz",
        }
    }
}

impl Default for CompressionAlgorithm {
    fn default() -> (r: CompressionAlgorithm)
        ensures
            r == CompressionAlgorithm::Zstd,
    {
        CompressionAlgorithm::Zstd
    }
}

/// How a file with an extension is compressed.
pub fn compression_from_file_extension(ext: &str) -> (r: Option<CompressionAlgorithm>)
    ensures
        r matches Some(algorithm) ==> algorithm.extension() == ext@,
        r is None ==> forall|algorithm: CompressionAlgorithm| #[trigger] algorithm.extension() != ext@,
{
    if same_text(ext, "zst") {
        Some(CompressionAlgorithm::Zstd)
    } else if same_text(ext, "bz2") {
        Some(CompressionAlgorithm::Bzip2)
    } else if same_text(ext, "gz") {
        Some(CompressionAlgorithm::Gzip)
    } else {
        None
    }
}

/// The compression that the extension of a request asks for, if any.
pub fn wanted_compression(file_extension: Option<&str>) -> (r: Result<
    Option<CompressionAlgorithm>,
    AxumNope,
>)
    ensures
        file_extension is None ==> (r matches Ok(c) && c is None),
        file_extension matches Some(ext) ==> match r {
            Ok(c) => c matches Some(algorithm) && algorithm.extension() == ext@,
            Err(e) => (e matches AxumNope::BadRequest(m) && m@
                == "unknown compression file extension"@) && forall|algorithm: CompressionAlgorithm| #[trigger]
                algorithm.extension() != ext@,
        },
{
    match file_extension {
        Some(ext) => match compression_from_file_extension(ext) {
            Some(algorithm) => Ok(Some(algorithm)),
            None => Err(AxumNope::BadRequest("unknown compression file extension".to_owned())),
        },
        None => Ok(None),
    }
}

/// The version of the format of documentation in JSON.
#[derive(Clone, Copy, Debug, PartialEq, Eq, Structural)]
pub enum RustdocJsonFormatVersion {
    /// A version by its number.
    Version(u16),
    /// The newest one that there is.
    Latest,
}

/// Whether `s` is a number in decimal.
pub open spec fn is_number(s: Seq<char>) -> bool {
    s.len() > 0 && forall|i: int| 0 <= i < s.len() ==> '0' <= #[trigger] s[i] <= '9'
}

/// The number that decimal digits stand for.
pub open spec fn number_value(s: Seq<char>) -> nat
    decreases s.len(),
{
    if s.len() == 0 {
        0
    } else {
        number_value(s.drop_last()) * 10 + (s.last() as u32 - '0' as u32) as nat
    }
}

/// `s` without one plus sign before it.
pub open spec fn without_plus(s: Seq<char>) -> Seq<char> {
    if s.len() > 0 && s[0] == '+' {
        s.skip(1)
    } else {
        s
    }
}

/// The number of at most sixteen bits that a text stands for.
pub open spec fn small_number(s: Seq<char>) -> Option<nat> {
    let digits = without_plus(s);
    if is_number(digits) && number_value(digits) <= 0xffff {
        Some(number_value(digits))
    } else {
        None
    }
}

/// Digits before others only make a number larger.
proof fn lemma_number_prefix(s: Seq<char>, n: int)
    requires
        0 <= n <= s.len(),
    ensures
        number_value(s.take(n)) <= number_value(s),
    decreases s.len() - n,
{
    if n < s.len() {
        lemma_number_prefix(s, n + 1);
        assert(s.take(n + 1).drop_last() =~= s.take(n));
    } else {
        assert(s.take(n) =~= s);
    }
}

/// Reads a number of at most sixteen bits, with or without a plus sign before it.
fn read_small_number(s: &str) -> (r: Option<u16>)
    ensures
        r is Some <==> small_number(s@) is Some,
        r matches Some(n) ==> small_number(s@) == Some(n as nat),
{
    let x: Vec<char> = chars_of(s);
    let n: usize = x.len();
    let start: usize = if n > 0 && x[0] == '+' {
        1
    } else {
        0
    };
    let ghost digits = without_plus(s@);
    assert(digits =~= s@.skip(start as int));
    if start == n {
        return None;
    }
    let mut value: u32 = 0;
    assert(digits.take(0) =~= Seq::<char>::empty());
    for i in start..n
        invariant
            n == x@.len(),
            x@ == s@,
            start <= n,
            digits == s@.skip(start as int),
            digits == without_plus(s@),
            value == number_value(digits.take(i - start)),
            value <= 0xffff,
            forall|j: int| 0 <= j < i - start ==> '0' <= #[trigger] digits[j] <= '9',
    {
        let c: char = x[i];
        assert(digits[i - start] == c);
        if c < '0' || c > '9' {
            return None;
        }
        assert(digits.take(i + 1 - start).drop_last() =~= digits.take(i - start));
        assert(digits.take(i + 1 - start).last() == c);
        value = value * 10 + (c as u32 - '0' as u32);
        if value > 0xffff {
            proof {
                lemma_number_prefix(digits, i + 1 - start);
            }
            return None;
        }
    }
    assert(digits.take(n - start) =~= digits);
    Some(value as u16)
}

impl RustdocJsonFormatVersion {
    /// The version of the format as it is written.
    pub open spec fn text(self) -> Seq<char> {
        match self {
            RustdocJsonFormatVersion::Version(n) => decimal(n as nat),
            RustdocJsonFormatVersion::Latest => "latest"@,
        }
    }

    /// The version of the format that a text stands for.
    pub open spec fn read(s: Seq<char>) -> Option<Self> {
        if s == "latest"@ {
            Some(RustdocJsonFormatVersion::Latest)
        } else {
            match small_number(s) {
                Some(n) => Some(RustdocJsonFormatVersion::Version(n as u16)),
                None => None,
            }
        }
    }

    /// Reads the version of a format.
    pub fn parse(s: &str) -> (r: Option<Self>)
        ensures
            r == RustdocJsonFormatVersion::read(s@),
    {
        if same_text(s, "latest") {
            Some(RustdocJsonFormatVersion::Latest)
        } else {
            match read_small_number(s) {
                Some(n) => Some(RustdocJsonFormatVersion::Version(n)),
                None => None,
            }
        }
    }

    /// The version of the format as it is written.
    pub fn to_text(&self) -> (r: String)
        ensures
            r@ == self.text(),
    {
        match self {
            RustdocJsonFormatVersion::Version(n) => to_decimal(*n as u64),
            RustdocJsonFormatVersion::Latest => "latest".to_owned(),
        }
    }
}

/// A number that is written in decimal is read as that number.
proof fn lemma_number_read_back(n: nat)
    ensures
        is_number(decimal(n)),
        number_value(decimal(n)) == n,
    decreases n,
{
    let d = decimal(n);
    if n >= 10 {
        lemma_number_read_back(n / 10);
        assert(d.drop_last() =~= decimal(n / 10));
        assert forall|i: int| 0 <= i < d.len() implies '0' <= #[trigger] d[i] <= '9' by {
            if i < d.len() - 1 {
                assert(d[i] == decimal(n / 10)[i]);
            }
        }
    } else {
        assert(d.drop_last() =~= Seq::<char>::empty());
        assert(number_value(Seq::<char>::empty()) == 0);
    }
}

/// The version of a format that was written is read as the same version.
pub proof fn law_format_version_reads_back(version: RustdocJsonFormatVersion)
    ensures
        RustdocJsonFormatVersion::read(version.text()) == Some(version),
{
    if let RustdocJsonFormatVersion::Version(n) = version {
        reveal_strlit("latest");
        let d = decimal(n as nat);
        lemma_number_read_back(n as nat);
        assert(d[0] <= '9');
        assert("latest"@[0] == 'l');
        assert(without_plus(d) == d);
    }
}

/// The path, in the storage, of a release's documentation in JSON.
pub open spec fn json_path(
    name: Seq<char>,
    version: Seq<char>,
    target: Seq<char>,
    format_version: RustdocJsonFormatVersion,
    compression: Option<CompressionAlgorithm>,
) -> Seq<char> {
    "rustdoc-json/"@ + name + "/"@ + version + "/"@ + target + "/"@ + name + "_"@ + version + "_"@
        + target + "_"@ + format_version.text() + ".json"@ + (match compression {
        Some(algorithm) => "."@ + algorithm.extension(),
        None => Seq::empty(),
    })
}

/// The path, in the storage, of a release's documentation in JSON.
pub fn rustdoc_json_path(
    name: &str,
    version: &str,
    target: &str,
    format_version: RustdocJsonFormatVersion,
    compression: Option<CompressionAlgorithm>,
) -> (r: String)
    ensures
        r@ == json_path(name@, version@, target@, format_version, compression),
{
    let mut path: String = "rustdoc-json/".to_owned();
    path.append(name);
    path.append("/");
    path.append(version);
    path.append("/");
    path.append(target);
    path.append("/");
    path.append(name);
    path.append("_");
    path.append(version);
    path.append("_");
    path.append(target);
    path.append("_");
    path.append(format_version.to_text().as_str());
    path.append(".json");
    let ghost front = path@;
    if let Some(algorithm) = compression {
        path.append(".");
        path.append(algorithm.file_extension());
    }
    assert(path@ =~= front + (match compression {
        Some(algorithm) => "."@ + algorithm.extension(),
        None => Seq::empty(),
    }));
    path
}

/// The path, in the storage, of the archive with a release's documentation.
pub open spec fn archive_path(name: Seq<char>, version: Seq<char>) -> Seq<char> {
    "rustdoc/"@ + name + "/"@ + version + ".zip"@
}

/// The path, in the storage, of the archive with a release's documentation.
pub fn rustdoc_archive_path(name: &str, version: &str) -> (r: String)
    ensures
        r@ == archive_path(name@, version@),
{
    let mut path: String = "rustdoc/".to_owned();
    path.append(name);
    path.append("/");
    path.append(version);
    path.append(".zip");
    path
}

/// The release to look at for documentation in JSON. Without documentation there is none in JSON
/// either.
pub fn match_json_download(release: MatchedRelease) -> (r: Result<MatchedRelease, AxumNope>)
    ensures
        r is Ok <==> release.corrected_name is None && release.release.rustdoc_status,
        r matches Ok(found) ==> found == release,
        release.corrected_name is Some ==> (r matches Err(e) && e is CrateNotFound),
        release.corrected_name is None && !release.release.rustdoc_status ==> (r matches Err(e)
            && e is ResourceNotFound),
{
    match release.assume_exact_name() {
        Ok(found) => {
            if found.rustdoc_status() {
                Ok(found)
            } else {
                Err(AxumNope::ResourceNotFound)
            }
        },
        Err(e) => Err(e),
    }
}

/// The files to look for, in the storage, for documentation in JSON.
#[derive(Debug)]
pub struct JsonFiles {
    pub path: String,
    /// An older file, without the extension for its compression, to take where `path` is not
    /// there.
    pub fallback: Option<String>,
}

/// The version of the format in a request, without the extension that it may have.
pub open spec fn requested_format(
    format_version: Option<Seq<char>>,
    compression: Option<CompressionAlgorithm>,
) -> Option<RustdocJsonFormatVersion> {
    match (format_version, compression) {
        (None, _) => Some(RustdocJsonFormatVersion::Latest),
        (Some(v), None) => RustdocJsonFormatVersion::read(v),
        (Some(v), Some(algorithm)) => RustdocJsonFormatVersion::read(
            stripped_suffix(v, "."@ + algorithm.extension()).unwrap(),
        ),
    }
}

/// The target in a request, or the default target.
pub open spec fn requested_target(target: Option<Seq<char>>, default_target: Seq<char>) -> Seq<
    char,
> {
    match target {
        Some(t) => t,
        None => default_target,
    }
}

/// Whether `r` says which files to look for.
pub open spec fn is_json_location(
    r: Result<JsonFiles, AxumNope>,
    krate: CrateDetails,
    target: Option<Seq<char>>,
    format_version: Option<Seq<char>>,
    compression: Option<CompressionAlgorithm>,
) -> bool {
    let targets = owned_texts(krate.metadata.doc_targets.unwrap()@);
    let wanted = requested_target(target, krate.metadata.default_target.unwrap()@);
    let algorithm = match compression {
        Some(algorithm) => algorithm,
        None => CompressionAlgorithm::Zstd,
    };
    if target is Some && !targets.contains(wanted) {
        r matches Err(e) && e is TargetNotFound
    } else {
        match requested_format(format_version, compression) {
            None => r matches Err(e) && (e matches AxumNope::InternalError(m) && m@
                == "can't parse format version"@),
            Some(format) => r matches Ok(files) && files.path@ == json_path(
                krate.name@,
                krate.version@.text(),
                wanted,
                format,
                Some(algorithm),
            ) && maybe_text(files.fallback) == (if algorithm == CompressionAlgorithm::Zstd {
                Some(json_path(krate.name@, krate.version@.text(), wanted, format, None))
            } else {
                None
            }),
        }
    }
}

/// The files to look for. Documentation in JSON is for one target, which there has to be
/// documentation for; the extension of the request, which says how the file is compressed, is at
/// the end of the version of the format, where there is one.
pub fn locate_json(
    krate: &CrateDetails,
    target: Option<String>,
    format_version: Option<String>,
    compression: Option<CompressionAlgorithm>,
) -> (r: Result<JsonFiles, AxumNope>)
    requires
        krate.has_docs(),
        format_version matches Some(v) ==> (compression matches Some(algorithm) ==> (
        "."@ + algorithm.extension()).is_suffix_of(v@)),
    ensures
        is_json_location(r, *krate, maybe_text(target), maybe_text(format_version), compression),
{
    let target: String = match target {
        Some(wanted) => {
            let known: bool = match &krate.metadata.doc_targets {
                Some(targets) => is_one_of(targets, wanted.as_str()),
                None => false,
            };
            if !known {
                return Err(AxumNope::TargetNotFound);
            }
            wanted
        },
        None => match &krate.metadata.default_target {
            Some(default_target) => default_target.clone(),
            None => vstd::pervasive::unreached(),
        },
    };
    let format: Option<RustdocJsonFormatVersion> = match &format_version {
        Some(v) => match compression {
            Some(algorithm) => {
                let mut suffix: String = ".".to_owned();
                suffix.append(algorithm.file_extension());
                match strip_suffix(v.as_str(), suffix.as_str()) {
                    Some(stripped) => RustdocJsonFormatVersion::parse(stripped),
                    None => vstd::pervasive::unreached(),
                }
            },
            None => RustdocJsonFormatVersion::parse(v.as_str()),
        },
        None => Some(RustdocJsonFormatVersion::Latest),
    };
    let format: RustdocJsonFormatVersion = match format {
        Some(format) => format,
        None => {
            return Err(AxumNope::InternalError("can't parse format version".to_owned()));
        },
    };
    let algorithm: CompressionAlgorithm = match compression {
        Some(algorithm) => algorithm,
        None => CompressionAlgorithm::Zstd,
    };
    let version: String = krate.version.to_text();
    let path: String = rustdoc_json_path(
        krate.name.as_str(),
        version.as_str(),
        target.as_str(),
        format,
        Some(algorithm),
    );
    let fallback: Option<String> = if algorithm == CompressionAlgorithm::Zstd {
        Some(
            rustdoc_json_path(krate.name.as_str(), version.as_str(), target.as_str(), format, None),
        )
    } else {
        None
    };
    Ok(JsonFiles { path, fallback })
}

/// The redirect to a file in the storage that is public.
pub fn redirect_to_storage(root: &str, storage_path: &str, keys: &SurrogateKeys) -> (r: Redirection)
    ensures
        is_storage_redirect(r, root@, storage_path@, keys@),
{
    let mut url: String = root.to_owned();
    url.append("/");
    url.append(storage_path);
    Redirection {
        base: Base::Url(url),
        query: Query::Empty,
        cache_policy: CachePolicy::ForeverInCdn(keys.clone()),
    }
}

/// Whether `r` is the redirect to a file in the storage.
pub open spec fn is_storage_redirect(
    r: Redirection,
    root: Seq<char>,
    storage_path: Seq<char>,
    keys: Seq<Seq<char>>,
) -> bool {
    &&& r.base matches Base::Url(u) && u@ == root + "/"@ + storage_path
    &&& r.query is Empty
    &&& r.cache_policy@ == CachePolicyText::ForeverInCdn(keys)
}

/// A request for documentation in JSON.
#[derive(Debug)]
pub struct JsonRequest {
    pub name: String,
    pub version: ReqVersion,
    pub target: Option<String>,
    pub format_version: Option<String>,
}

impl JsonRequest {
    /// Whether the extension of a request, which says how the file is compressed, is at the end
    /// of the version of the format, where there is one.
    pub open spec fn has_extension(self, compression: Option<CompressionAlgorithm>) -> bool {
        self.format_version matches Some(v) ==> (compression matches Some(algorithm) ==> (
        "."@ + algorithm.extension()).is_suffix_of(v@))
    }
}

/// How far a request for documentation in JSON has come, and what is to be done next for it.
#[derive(Debug)]
#[allow(inconsistent_fields)]
pub enum JsonState {
    /// Look for the release that the request asks for.
    MatchRelease { request: JsonRequest, compression: Option<CompressionAlgorithm> },
    /// Load what is known of the crate.
    LoadDetails {
        request: JsonRequest,
        compression: Option<CompressionAlgorithm>,
        release: MatchedRelease,
    },
    /// Find out whether the storage holds a file.
    CheckFile { files: JsonFiles },
    /// Find out whether the storage holds an older file.
    CheckFallback { path: String },
    /// Answer with a redirect.
    Redirect(Redirection),
    /// Answer with an error.
    Fail(AxumNope),
}

/// What came of what was to be done for a request.
#[derive(Debug)]
pub enum JsonEvent {
    Release(Result<MatchedRelease, AxumNope>),
    Details(Result<CrateDetails, AxumNope>),
    Exists(Result<bool, AxumNope>),
}

impl JsonState {
    /// The extension of a request is where it belongs.
    pub open spec fn valid(self) -> bool {
        match self {
            JsonState::MatchRelease { request, compression } => request.has_extension(compression),
            JsonState::LoadDetails { request, compression, .. } => request.has_extension(
                compression,
            ),
            _ => true,
        }
    }

    /// Whether an event can come of what is to be done. Details are of a crate with
    /// documentation, since they are loaded for no other.
    pub open spec fn accepts(self, event: JsonEvent) -> bool {
        match self {
            JsonState::MatchRelease { .. } => event is Release,
            JsonState::LoadDetails { .. } => event matches JsonEvent::Details(details) && (
            details matches Ok(krate) ==> krate.has_docs()),
            JsonState::CheckFile { .. } => event is Exists,
            JsonState::CheckFallback { .. } => event is Exists,
            _ => false,
        }
    }

    /// Whether `next` is what a request comes to by an event. Files are public below `root`.
    pub open spec fn leads_to(
        self,
        event: JsonEvent,
        root: Seq<char>,
        keys: Seq<Seq<char>>,
        next: JsonState,
    ) -> bool {
        match (self, event) {
            (JsonState::MatchRelease { request, compression }, JsonEvent::Release(Ok(release))) =>
                if release.corrected_name is Some {
                    next matches JsonState::Fail(e) && e is CrateNotFound
                } else if !release.release.rustdoc_status {
                    next matches JsonState::Fail(e) && e is ResourceNotFound
                } else {
                    next == (JsonState::LoadDetails { request, compression, release })
                },
            (
                JsonState::LoadDetails { request, compression, .. },
                JsonEvent::Details(Ok(krate)),
            ) => {
                let located = match next {
                    JsonState::CheckFile { files } => Some(Ok(files)),
                    JsonState::Fail(e) => Some(Err(e)),
                    _ => None,
                };
                located is Some && is_json_location(
                    located.unwrap(),
                    krate,
                    maybe_text(request.target),
                    maybe_text(request.format_version),
                    compression,
                )
            },
            (JsonState::CheckFile { files }, JsonEvent::Exists(Ok(exists))) => if exists {
                next matches JsonState::Redirect(to) && is_storage_redirect(
                    to,
                    root,
                    files.path@,
                    keys,
                )
            } else {
                match files.fallback {
                    Some(path) => next == (JsonState::CheckFallback { path }),
                    None => next matches JsonState::Fail(e) && e is ResourceNotFound,
                }
            },
            (JsonState::CheckFallback { path }, JsonEvent::Exists(Ok(exists))) => if exists {
                next matches JsonState::Redirect(to) && is_storage_redirect(to, root, path@, keys)
            } else {
                next matches JsonState::Fail(e) && e is ResourceNotFound
            },
            (_, JsonEvent::Release(Err(e))) => next == JsonState::Fail(e),
            (_, JsonEvent::Details(Err(e))) => next == JsonState::Fail(e),
            (_, JsonEvent::Exists(Err(e))) => next == JsonState::Fail(e),
            _ => false,
        }
    }

    /// Whether `r` is what a request begins with, whose URL may have an extension.
    pub open spec fn starts(
        request: JsonRequest,
        file_extension: Option<Seq<char>>,
        r: JsonState,
    ) -> bool {
        match r {
            JsonState::MatchRelease { request: same, compression } => same == request && match (
                file_extension,
                compression,
            ) {
                (Some(ext), Some(algorithm)) => algorithm.extension() == ext,
                (None, None) => true,
                _ => false,
            },
            JsonState::Fail(e) => file_extension is Some && (e matches AxumNope::BadRequest(m) && m@
                == "unknown compression file extension"@) && forall|
                algorithm: CompressionAlgorithm,
            | #[trigger]
                algorithm.extension() != file_extension.unwrap(),
            _ => false,
        }
    }

    /// Begins with a request. `file_extension` is that of its URL.
    pub fn start(request: JsonRequest, file_extension: Option<&str>) -> (r: JsonState)
        requires
            forall|algorithm: CompressionAlgorithm|
                file_extension is Some && #[trigger] algorithm.extension()
                    == file_extension.unwrap()@ ==> request.has_extension(Some(algorithm)),
        ensures
            r.valid(),
            JsonState::starts(request, maybe_str(file_extension), r),
    {
        match wanted_compression(file_extension) {
            Ok(compression) => JsonState::MatchRelease { request, compression },
            Err(e) => JsonState::Fail(e),
        }
    }

    /// Goes on with what came of what was to be done.
    pub fn proceed(self, event: JsonEvent, root: &str, keys: &SurrogateKeys) -> (r: JsonState)
        requires
            self.valid(),
            self.accepts(event),
        ensures
            r.valid(),
            self.leads_to(event, root@, keys@, r),
    {
        match (self, event) {
            (JsonState::MatchRelease { request, compression }, JsonEvent::Release(Ok(release))) => {
                match match_json_download(release) {
                    Ok(release) => JsonState::LoadDetails { request, compression, release },
                    Err(e) => JsonState::Fail(e),
                }
            },
            (
                JsonState::LoadDetails { request, compression, .. },
                JsonEvent::Details(Ok(krate)),
            ) => match locate_json(&krate, request.target, request.format_version, compression) {
                Ok(files) => JsonState::CheckFile { files },
                Err(e) => JsonState::Fail(e),
            },
            (JsonState::CheckFile { files }, JsonEvent::Exists(Ok(exists))) => {
                if exists {
                    JsonState::Redirect(redirect_to_storage(root, files.path.as_str(), keys))
                } else {
                    match files.fallback {
                        Some(path) => JsonState::CheckFallback { path },
                        None => JsonState::Fail(AxumNope::ResourceNotFound),
                    }
                }
            },
            (JsonState::CheckFallback { path }, JsonEvent::Exists(Ok(exists))) => {
                if exists {
                    JsonState::Redirect(redirect_to_storage(root, path.as_str(), keys))
                } else {
                    JsonState::Fail(AxumNope::ResourceNotFound)
                }
            },
            (_, JsonEvent::Release(Err(e))) => JsonState::Fail(e),
            (_, JsonEvent::Details(Err(e))) => JsonState::Fail(e),
            (_, JsonEvent::Exists(Err(e))) => JsonState::Fail(e),
            _ => vstd::pervasive::unreached(),
        }
    }

    /// How many things are still to be done for a request, at most.
    pub open spec fn steps_left(self) -> nat {
        match self {
            JsonState::MatchRelease { .. } => 4,
            JsonState::LoadDetails { .. } => 3,
            JsonState::CheckFile { .. } => 2,
            JsonState::CheckFallback { .. } => 1,
            _ => 0,
        }
    }
}

/// Every request for documentation in JSON is answered, with a redirect only to a file that was
/// found.
pub proof fn law_json_requests_are_answered(
    state: JsonState,
    event: JsonEvent,
    root: Seq<char>,
    keys: Seq<Seq<char>>,
    next: JsonState,
)
    requires
        state.accepts(event),
        state.leads_to(event, root, keys, next),
    ensures
        next.steps_left() < state.steps_left(),
        next is Redirect ==> event == JsonEvent::Exists(Ok(true)),
{
}

/// The path, in the storage, of the archive to download.
pub fn locate_archive(name: &str, release: MatchedRelease) -> (r: Result<String, AxumNope>)
    ensures
        r is Ok <==> release.corrected_name is None,
        r matches Ok(path) ==> path@ == archive_path(name@, release.release.version@.text()),
        r matches Err(e) ==> e is CrateNotFound,
{
    match release.assume_exact_name() {
        Ok(found) => {
            let version: String = found.into_version().to_text();
            Ok(rustdoc_archive_path(name, version.as_str()))
        },
        Err(e) => Err(e),
    }
}

/// What to answer when it cannot be found out whether an archive is public: an archive that is
/// not there does not exist.
pub fn archive_access_failed(err: Failure) -> (r: AxumNope)
    ensures
        err is PathNotFound ==> r is ResourceNotFound,
        !(err is PathNotFound) ==> (r matches AxumNope::InternalError(m) && m@
            == "reading public access for archive"@),
{
    match err {
        Failure::PathNotFound => AxumNope::ResourceNotFound,
        _ => AxumNope::InternalError("reading public access for archive".to_owned()),
    }
}

/// How far a request for an archive has come, and what is to be done next for it.
#[derive(Debug)]
#[allow(inconsistent_fields)]
pub enum ArchiveState {
    /// Look for the release that the request asks for.
    MatchRelease { name: String, version: ReqVersion },
    /// Find out whether an archive is public.
    ReadAccess { path: String },
    /// Make an archive public.
    SetPublic { path: String },
    /// Answer with a redirect.
    Redirect(Redirection),
    /// Answer with an error.
    Fail(AxumNope),
}

/// What came of what was to be done for a request.
#[derive(Debug)]
pub enum ArchiveEvent {
    Release(Result<MatchedRelease, AxumNope>),
    IsPublic(Result<bool, Failure>),
    MadePublic(Result<(), AxumNope>),
}

impl ArchiveState {
    /// Whether an event can come of what is to be done.
    pub open spec fn accepts(self, event: ArchiveEvent) -> bool {
        match self {
            ArchiveState::MatchRelease { .. } => event is Release,
            ArchiveState::ReadAccess { .. } => event is IsPublic,
            ArchiveState::SetPublic { .. } => event is MadePublic,
            _ => false,
        }
    }

    /// Whether `next` is what a request comes to by an event. Files are public below `root`.
    pub open spec fn leads_to(
        self,
        event: ArchiveEvent,
        root: Seq<char>,
        keys: Seq<Seq<char>>,
        next: ArchiveState,
    ) -> bool {
        match (self, event) {
            (ArchiveState::MatchRelease { name, .. }, ArchiveEvent::Release(Ok(release))) =>
                match release.corrected_name {
                    None => next matches ArchiveState::ReadAccess { path } && path@
                        == archive_path(name@, release.release.version@.text()),
                    Some(_) => next matches ArchiveState::Fail(e) && e is CrateNotFound,
                },
            (ArchiveState::ReadAccess { path }, ArchiveEvent::IsPublic(Ok(is_public))) =>
                if is_public {
                    next matches ArchiveState::Redirect(to) && is_storage_redirect(
                        to,
                        root,
                        path@,
                        keys,
                    )
                } else {
                    next == (ArchiveState::SetPublic { path })
                },
            (_, ArchiveEvent::IsPublic(Err(err))) => next matches ArchiveState::Fail(e) && (
            if err is PathNotFound {
                e is ResourceNotFound
            } else {
                e matches AxumNope::InternalError(m) && m@ == "reading public access for archive"@
            }),
            (ArchiveState::SetPublic { path }, ArchiveEvent::MadePublic(Ok(_))) =>
                next matches ArchiveState::Redirect(to) && is_storage_redirect(
                    to,
                    root,
                    path@,
                    keys,
                ),
            (_, ArchiveEvent::Release(Err(e))) => next == ArchiveState::Fail(e),
            (_, ArchiveEvent::MadePublic(Err(e))) => next == ArchiveState::Fail(e),
            _ => false,
        }
    }

    /// Goes on with what came of what was to be done.
    pub fn proceed(self, event: ArchiveEvent, root: &str, keys: &SurrogateKeys) -> (r: ArchiveState)
        requires
            self.accepts(event),
        ensures
            self.leads_to(event, root@, keys@, r),
    {
        match (self, event) {
            (ArchiveState::MatchRelease { name, .. }, ArchiveEvent::Release(Ok(release))) => {
                match locate_archive(name.as_str(), release) {
                    Ok(path) => ArchiveState::ReadAccess { path },
                    Err(e) => ArchiveState::Fail(e),
                }
            },
            (ArchiveState::ReadAccess { path }, ArchiveEvent::IsPublic(Ok(is_public))) => {
                if is_public {
                    ArchiveState::Redirect(redirect_to_storage(root, path.as_str(), keys))
                } else {
                    ArchiveState::SetPublic { path }
                }
            },
            (_, ArchiveEvent::IsPublic(Err(err))) => ArchiveState::Fail(archive_access_failed(err)),
            (ArchiveState::SetPublic { path }, ArchiveEvent::MadePublic(Ok(_))) => {
                ArchiveState::Redirect(redirect_to_storage(root, path.as_str(), keys))
            },
            (_, ArchiveEvent::Release(Err(e))) => ArchiveState::Fail(e),
            (_, ArchiveEvent::MadePublic(Err(e))) => ArchiveState::Fail(e),
            _ => vstd::pervasive::unreached(),
        }
    }
}

/// A redirect leads only to an archive that is public, or that was made so.
pub proof fn law_archives_are_public(
    state: ArchiveState,
    event: ArchiveEvent,
    root: Seq<char>,
    keys: Seq<Seq<char>>,
    next: ArchiveState,
)
    requires
        state.accepts(event),
        state.leads_to(event, root, keys, next),
    ensures
        next is Redirect ==> event == ArchiveEvent::IsPublic(Ok(true)) || (
        event matches ArchiveEvent::MadePublic(made) && made is Ok),
        next is SetPublic ==> event == ArchiveEvent::IsPublic(Ok(false)),
{
}

/// Where the badge of a crate is drawn.
pub open spec fn badge_text(name: Seq<char>, version: ReqVersionText) -> Seq<char> {
    "https://img.shields.io/docsrs/"@ + name + "/"@ + version.text()
}

/// A redirect to where the badge of a crate is drawn.
#[derive(Debug)]
pub struct BadgeRedirect {
    pub status: u16,
    pub location: String,
    pub cache_policy: CachePolicy,
}

/// Whether `r` is the redirect to a badge: a lasting one, which may be cached for ever. It fails
/// where there is no URL.
pub open spec fn is_badge_answer(r: Result<BadgeRedirect, AxumNope>, url: Option<Seq<char>>) -> bool {
    match url {
        Some(u) => r matches Ok(to) && to.location@ == u && to.status == 301 && to.cache_policy@
            == CachePolicyText::ForeverInCdnAndBrowser,
        None => r matches Err(e) && (e matches AxumNope::InternalError(m) && m@
            == "could not parse URL"@),
    }
}

/// The redirect to the badge at a URL.
pub fn redirect_to_badge(url: Option<String>) -> (r: Result<BadgeRedirect, AxumNope>)
    ensures
        is_badge_answer(r, maybe_text(url)),
{
    match url {
        Some(location) => Ok(
            BadgeRedirect {
                status: 301,
                location,
                cache_policy: CachePolicy::ForeverInCdnAndBrowser,
            },
        ),
        None => Err(AxumNope::InternalError("could not parse URL".to_owned())),
    }
}

/// The redirect to the badge of a crate, for a version or the newest one.
pub fn badge_redirect(name: &str, version: Option<ReqVersion>) -> (r: Result<
    BadgeRedirect,
    AxumNope,
>)
    ensures
        is_badge_answer(
            r,
            normalized_url(
                badge_text(
                    name@,
                    match version {
                        Some(v) => v@,
                        None => ReqVersionText::Latest,
                    },
                ),
            ),
        ),
{
    let version: String = match version {
        Some(v) => v.to_text(),
        None => ReqVersion::Latest.to_text(),
    };
    let mut text: String = "https://img.shields.io/docsrs/".to_owned();
    text.append(name);
    text.append("/");
    text.append(version.as_str());
    match parse_url(text.as_str()) {
        Ok(url) => redirect_to_badge(Some(url)),
        Err(_) => redirect_to_badge(None),
    }
}

/// The path, in the storage, of an asset that newer builds share, below a prefix of their own.
pub fn static_asset_path(prefix: &str, path: &str) -> (r: String)
    ensures
        r@ == prefix@ + path@,
{
    let mut storage_path: String = prefix.to_owned();
    storage_path.append(path);
    storage_path
}

/// The archive of a release stands in the folder of its crate, and is named after its version.
pub proof fn law_archives_are_filed_by_crate_and_version(name: Seq<char>, version: VersionText)
    requires
        !name.contains('/'),
        version.valid(),
    ensures
        pieces(archive_path(name, version.text()), '/') == seq![
            "rustdoc"@,
            name,
            version.text() + ".zip"@,
        ],
{
    reveal_strlit("/");
    reveal_strlit("rustdoc");
    reveal_strlit("rustdoc/");
    reveal_strlit(".zip");
    assert("/"@ =~= seq!['/']);
    law_version_text_has_no_slash(version);
    let v = version.text();
    let file = v + ".zip"@;
    let parts = seq!["rustdoc"@, name, file];
    assert(!file.contains('/')) by {
        if file.contains('/') {
            let k = choose|k: int| 0 <= k < file.len() && file[k] == '/';
            if k < v.len() {
                assert(v[k] == '/');
            } else {
                assert(".zip"@[k - v.len()] == '/');
            }
        }
    }
    assert forall|i: int| 0 <= i < parts.len() implies !(#[trigger] parts[i]).contains('/') by {}
    lemma_pieces_of_joined(parts, '/');
    lemma_joined_first(parts, "/"@);
    assert(parts.skip(1) =~= seq![name, file]);
    lemma_joined_first(seq![name, file], "/"@);
    assert(seq![name, file].skip(1) =~= seq![file]);
    assert(joined(seq![file], "/"@) == file);
    assert(archive_path(name, v) =~= joined(parts, "/"@));
}

/// Two releases never share an archive.
pub proof fn law_archives_are_not_shared(
    name: Seq<char>,
    version: VersionText,
    other_name: Seq<char>,
    other: VersionText,
)
    requires
        !name.contains('/'),
        !other_name.contains('/'),
        version.valid(),
        other.valid(),
        archive_path(name, version.text()) == archive_path(other_name, other.text()),
    ensures
        name == other_name,
        version == other,
{
    law_archives_are_filed_by_crate_and_version(name, version);
    law_archives_are_filed_by_crate_and_version(other_name, other);
    let parts = seq!["rustdoc"@, name, version.text() + ".zip"@];
    let others = seq!["rustdoc"@, other_name, other.text() + ".zip"@];
    assert(parts == others);
    assert(parts[1] == others[1] && parts[2] == others[2]);
    assert(version.text() =~= parts[2].take(parts[2].len() - ".zip"@.len()));
    assert(other.text() =~= others[2].take(others[2].len() - ".zip"@.len()));
    law_version_text_is_unique(version, other);
}

/// A file that is compressed is the file that is not, with the extension of its compression.
pub proof fn law_compression_is_the_extension(
    name: Seq<char>,
    version: Seq<char>,
    target: Seq<char>,
    format_version: RustdocJsonFormatVersion,
    algorithm: CompressionAlgorithm,
)
    ensures
        json_path(name, version, target, format_version, Some(algorithm)) == json_path(
            name,
            version,
            target,
            format_version,
            None,
        ) + "."@ + algorithm.extension(),
        ".json"@.is_suffix_of(json_path(name, version, target, format_version, None)),
{
    let plain = json_path(name, version, target, format_version, None);
    assert(json_path(name, version, target, format_version, Some(algorithm)) =~= plain + "."@
        + algorithm.extension());
    assert(plain.skip(plain.len() - ".json"@.len()) =~= ".json"@);
}

/// The compressions have extensions of their own.
pub proof fn law_extensions_tell_compressions_apart(
    algorithm: CompressionAlgorithm,
    other: CompressionAlgorithm,
)
    requires
        algorithm.extension() == other.extension(),
    ensures
        algorithm == other,
{
    reveal_strlit("zst");
    reveal_strlit("bz2");
    reveal_strlit("gz");
    assert("zst"@[0] == 'z' && "bz2"@[0] == 'b' && "gz"@[0] == 'g');
}

proof fn lemma_format_text(version: RustdocJsonFormatVersion)
    ensures
        forall|i: int| 0 <= i < version.text().len() ==> #[trigger] version.text()[i] != '.',
{
    reveal_strlit("latest");
    if let RustdocJsonFormatVersion::Version(n) = version {
        lemma_decimal_digits(n as nat);
    }
}

/// For a release and a target, every version of the format and every compression has a file of its
/// own.
pub proof fn law_json_files_are_not_shared(
    name: Seq<char>,
    version: Seq<char>,
    target: Seq<char>,
    format_version: RustdocJsonFormatVersion,
    compression: Option<CompressionAlgorithm>,
    other_format: RustdocJsonFormatVersion,
    other_compression: Option<CompressionAlgorithm>,
)
    requires
        json_path(name, version, target, format_version, compression) == json_path(
            name,
            version,
            target,
            other_format,
            other_compression,
        ),
    ensures
        format_version == other_format,
        compression == other_compression,
{
    reveal_strlit(".");
    reveal_strlit(".json");
    reveal_strlit("zst");
    reveal_strlit("bz2");
    reveal_strlit("gz");
    let head = "rustdoc-json/"@ + name + "/"@ + version + "/"@ + target + "/"@ + name + "_"@
        + version + "_"@ + target + "_"@;
    let end = match compression {
        Some(algorithm) => "."@ + algorithm.extension(),
        None => Seq::empty(),
    };
    let other_end = match other_compression {
        Some(algorithm) => "."@ + algorithm.extension(),
        None => Seq::empty(),
    };
    let path = json_path(name, version, target, format_version, compression);
    let other_path = json_path(name, version, target, other_format, other_compression);
    let a = format_version.text();
    let b = other_format.text();
    assert(path =~= head + (a + (".json"@ + end)));
    assert(other_path =~= head + (b + (".json"@ + other_end)));
    assert(path.skip(head.len() as int) =~= a + (".json"@ + end));
    assert(other_path.skip(head.len() as int) =~= b + (".json"@ + other_end));
    lemma_format_text(format_version);
    lemma_format_text(other_format);
    lemma_split_is_unique(a, ".json"@ + end, b, ".json"@ + other_end, |c: char| c != '.');
    law_format_version_reads_back(format_version);
    law_format_version_reads_back(other_format);
    assert(end =~= (".json"@ + end).skip(5));
    assert(other_end =~= (".json"@ + other_end).skip(5));
    if compression is Some && other_compression is Some {
        let x = compression.unwrap();
        let y = other_compression.unwrap();
        assert(x.extension() =~= end.skip(1));
        assert(y.extension() =~= other_end.skip(1));
        law_extensions_tell_compressions_apart(x, y);
    } else if compression is Some {
        assert(end.len() > 0);
    } else if other_compression is Some {
        assert(other_end.len() > 0);
    }
}

/// The file for a target stands in the folder of that target, below those of its crate and of its
/// version.
pub proof fn law_json_files_are_filed_by_target(
    name: Seq<char>,
    version: Seq<char>,
    target: Seq<char>,
    format_version: RustdocJsonFormatVersion,
    compression: Option<CompressionAlgorithm>,
)
    ensures
        ("rustdoc-json/"@ + name + "/"@ + version + "/"@ + target + "/"@).is_prefix_of(
            json_path(name, version, target, format_version, compression),
        ),
{
    let folder = "rustdoc-json/"@ + name + "/"@ + version + "/"@ + target + "/"@;
    let path = json_path(name, version, target, format_version, compression);
    assert(path.take(folder.len() as int) =~= folder);
}

/// The extension in a request says how the file is to be compressed and nothing of its format: the
/// version of the format is read as it is without the extension.
pub proof fn law_extension_is_no_part_of_the_format(v: Seq<char>, algorithm: CompressionAlgorithm)
    ensures
        requested_format(Some(v + ("."@ + algorithm.extension())), Some(algorithm))
            == requested_format(Some(v), None),
        requested_format(None, Some(algorithm)) == requested_format(None, None),
        requested_format(None, None) == Some(RustdocJsonFormatVersion::Latest),
{
    let end = "."@ + algorithm.extension();
    let whole = v + end;
    assert(whole.skip(whole.len() - end.len()) =~= end);
    assert(whole.take(whole.len() - end.len()) =~= v);
}

/// The files that are looked for are those of the release that was found, for the target that was
/// asked for or the default one. A file without the extension for its compression is only looked
/// for in place of one that is compressed by default. A target that nothing was built for, and
/// only that, is not found.
pub proof fn law_json_is_for_the_target(
    located: Result<JsonFiles, AxumNope>,
    krate: CrateDetails,
    target: Option<Seq<char>>,
    format_version: Option<Seq<char>>,
    compression: Option<CompressionAlgorithm>,
)
    requires
        is_json_location(located, krate, target, format_version, compression),
        krate.has_docs(),
    ensures
        located matches Err(e) && e is TargetNotFound <==> target is Some && !owned_texts(
            krate.metadata.doc_targets.unwrap()@,
        ).contains(target.unwrap()),
        located matches Ok(files) ==> {
            let wanted = match target {
                Some(t) => t,
                None => krate.metadata.default_target.unwrap()@,
            };
            let extension = match compression {
                Some(algorithm) => algorithm.extension(),
                None => CompressionAlgorithm::Zstd.extension(),
            };
            &&& ("rustdoc-json/"@ + krate.name@ + "/"@ + krate.version@.text() + "/"@ + wanted
                + "/"@).is_prefix_of(files.path@)
            &&& (".json."@ + extension).is_suffix_of(files.path@)
            &&& files.fallback is Some <==> compression is None || compression == Some(
                CompressionAlgorithm::Zstd,
            )
            &&& files.fallback matches Some(older) ==> files.path@ == older@ + "."@ + extension
        },
        located matches Err(e) ==> e is TargetNotFound || e.status() == 500,
        located matches Err(e) && !(e is TargetNotFound) <==> requested_format(
            format_version,
            compression,
        ) is None && (target is Some ==> owned_texts(
            krate.metadata.doc_targets.unwrap()@,
        ).contains(target.unwrap())),
{
    if let Ok(files) = located {
        let wanted = requested_target(target, krate.metadata.default_target.unwrap()@);
        let algorithm = match compression {
            Some(algorithm) => algorithm,
            None => CompressionAlgorithm::Zstd,
        };
        let format = requested_format(format_version, compression).unwrap();
        law_compression_is_the_extension(
            krate.name@,
            krate.version@.text(),
            wanted,
            format,
            algorithm,
        );
        law_json_files_are_filed_by_target(
            krate.name@,
            krate.version@.text(),
            wanted,
            format,
            Some(algorithm),
        );
        reveal_strlit(".");
        reveal_strlit(".json");
        reveal_strlit(".json.");
        assert(".json."@ =~= ".json"@ + "."@);
        let end = ".json."@ + algorithm.extension();
        let plain = json_path(krate.name@, krate.version@.text(), wanted, format, None);
        assert(plain.skip(plain.len() - 5) == ".json"@);
        let path = files.path@;
        assert(path.skip(path.len() - end.len()) =~= plain.skip(plain.len() - 5) + "."@
            + algorithm.extension());
        assert(path.skip(path.len() - end.len()) =~= end);
    }
}

/// A redirect to the storage leads below its root to the path of the file, with no query.
pub proof fn law_storage_redirect_leads_to_the_file(
    to: Redirection,
    root: Seq<char>,
    storage_path: Seq<char>,
    keys: Seq<Seq<char>>,
)
    requires
        is_storage_redirect(to, root, storage_path, keys),
    ensures
        to.text() == root + "/"@ + storage_path,
        to.query.value() is None,
        to.cache_policy@.keys() == keys,
{
    assert(to.text() =~= root + "/"@ + storage_path);
}

/// The badge of a crate is drawn for the version that was asked for.
pub proof fn law_badges_are_of_the_version(name: Seq<char>, version: ReqVersionText)
    ensures
        ("/"@ + name + "/"@ + version.text()).is_suffix_of(badge_text(name, version)),
        "https://img.shields.io/docsrs/"@.is_prefix_of(badge_text(name, version)),
{
    reveal_strlit("/");
    reveal_strlit("https://img.shields.io/docsrs/");
    let text = badge_text(name, version);
    let site = "https://img.shields.io/docsrs/"@;
    let end = "/"@ + name + "/"@ + version.text();
    assert(text.take(site.len() as int) =~= site);
    assert(text.skip(text.len() - end.len()) =~= end);
}

/// Documentation in JSON is looked for only for a crate that was asked for by its own name and has
/// documentation. Everything else is not found, and so is a file that is not stored.
pub proof fn law_json_is_of_documented_releases(
    state: JsonState,
    event: JsonEvent,
    root: Seq<char>,
    keys: Seq<Seq<char>>,
    next: JsonState,
)
    requires
        state.accepts(event),
        state.leads_to(event, root, keys, next),
    ensures
        event matches JsonEvent::Release(Ok(release)) ==> (next is LoadDetails
            <==> release.corrected_name is None && release.release.rustdoc_status) && (
        next is LoadDetails || (next matches JsonState::Fail(e) && e.status() == 404)),
        event == JsonEvent::Exists(Ok(true)) ==> next is Redirect,
        event == JsonEvent::Exists(Ok(false)) ==> next is CheckFallback || (
        next matches JsonState::Fail(e) && e.status() == 404),
        event == JsonEvent::Exists(Ok(false)) && state is CheckFallback ==> next is Fail,
        state matches JsonState::CheckFile { files } ==> (next matches JsonState::Redirect(to)
            ==> to.text() == root + "/"@ + files.path@),
        state matches JsonState::CheckFallback { path } ==> (next matches JsonState::Redirect(to)
            ==> to.text() == root + "/"@ + path@),
        state matches JsonState::CheckFile { files } ==> (next matches JsonState::CheckFallback {
            path,
        } ==> files.fallback == Some(path)),
{
    if let JsonState::Redirect(to) = next {
        if let JsonState::CheckFile { files } = state {
            law_storage_redirect_leads_to_the_file(to, root, files.path@, keys);
        }
        if let JsonState::CheckFallback { path } = state {
            law_storage_redirect_leads_to_the_file(to, root, path@, keys);
        }
    }
}

/// The archive that is led to is that of the release that was found, of a crate that was asked for
/// by its own name. An archive that is not there is not found, and every other failure is one of
/// the server.
pub proof fn law_archives_are_of_the_release(
    state: ArchiveState,
    event: ArchiveEvent,
    root: Seq<char>,
    keys: Seq<Seq<char>>,
    next: ArchiveState,
)
    requires
        state.accepts(event),
        state.leads_to(event, root, keys, next),
    ensures
        event matches ArchiveEvent::Release(Ok(release)) ==> (next is ReadAccess
            <==> release.corrected_name is None) && (next matches ArchiveState::ReadAccess { path }
            ==> path@ == archive_path(state->MatchRelease_name@, release.release.version@.text())),
        event matches ArchiveEvent::IsPublic(Err(err)) ==> (next matches ArchiveState::Fail(e)
            && e.status() == (if err is PathNotFound {
            404u16
        } else {
            500u16
        })),
        event == ArchiveEvent::IsPublic(Ok(true)) ==> next is Redirect,
        event == ArchiveEvent::IsPublic(Ok(false)) ==> next is SetPublic,
        state matches ArchiveState::ReadAccess { path } ==> (next matches ArchiveState::Redirect(to)
            ==> to.text() == root + "/"@ + path@),
        state matches ArchiveState::SetPublic { path } ==> (next matches ArchiveState::Redirect(to)
            ==> to.text() == root + "/"@ + path@),
        state matches ArchiveState::ReadAccess { path } ==> (next matches ArchiveState::SetPublic {
            path: same,
        } ==> same == path),
{
    if let ArchiveState::Redirect(to) = next {
        if let ArchiveState::ReadAccess { path } = state {
            law_storage_redirect_leads_to_the_file(to, root, path@, keys);
        }
        if let ArchiveState::SetPublic { path } = state {
            law_storage_redirect_leads_to_the_file(to, root, path@, keys);
        }
    }
}

/// A version of the format is the word for the newest, or a number of at most sixteen bits in
/// decimal with or without a plus sign, and is that number.
pub proof fn law_format_versions_are_numbers(s: Seq<char>)
    ensures
        RustdocJsonFormatVersion::read(s) == Some(RustdocJsonFormatVersion::Latest) <==> s
            == "latest"@,
        RustdocJsonFormatVersion::read(s) matches Some(RustdocJsonFormatVersion::Version(n)) ==> {
            let digits = if s[0] == '+' {
                s.skip(1)
            } else {
                s
            };
            &&& digits.len() > 0
            &&& forall|i: int| 0 <= i < digits.len() ==> '0' <= #[trigger] digits[i] <= '9'
            &&& digits_value(digits) == n
        },
{
    let digits = without_plus(s);
    lemma_same_value(digits);
}

proof fn lemma_same_value(s: Seq<char>)
    ensures
        digits_value(s) == number_value(s),
    decreases s.len(),
{
    if s.len() > 0 {
        lemma_same_value(s.drop_last());
    }
}

/// A request is a bad one exactly where its extension is that of no compression. Otherwise it goes
/// on as it is, with the compression that its extension asks for.
pub proof fn law_unknown_extensions_are_bad_requests(
    request: JsonRequest,
    file_extension: Option<Seq<char>>,
    r: JsonState,
)
    requires
        JsonState::starts(request, file_extension, r),
    ensures
        r is Fail <==> file_extension is Some && file_extension != Some("zst"@) && file_extension
            != Some("bz2"@) && file_extension != Some("gz"@),
        r matches JsonState::Fail(e) ==> e.status() == 400,
        r matches JsonState::MatchRelease { request: same, compression } ==> same == request && (
        compression == Some(CompressionAlgorithm::Zstd) <==> file_extension == Some("zst"@)) && (
        compression == Some(CompressionAlgorithm::Bzip2) <==> file_extension == Some("bz2"@)) && (
        compression == Some(CompressionAlgorithm::Gzip) <==> file_extension == Some("gz"@)),
        r is Fail || r is MatchRelease,
{
    reveal_strlit("zst");
    reveal_strlit("bz2");
    reveal_strlit("gz");
    assert("zst"@[0] == 'z' && "bz2"@[0] == 'b' && "gz"@[0] == 'g');
    assert(CompressionAlgorithm::Zstd.extension() == "zst"@);
    assert(CompressionAlgorithm::Bzip2.extension() == "bz2"@);
    assert(CompressionAlgorithm::Gzip.extension() == "gz"@);
}

/// A badge is led to for good, and may be cached for ever. Without a URL the server is at fault.
pub proof fn law_badges_are_permanent(r: Result<BadgeRedirect, AxumNope>, url: Option<Seq<char>>)
    requires
        is_badge_answer(r, url),
    ensures
        r is Ok <==> url is Some,
        r matches Ok(to) ==> url == Some(to.location@) && to.status == 301
            && to.cache_policy@ is ForeverInCdnAndBrowser,
        r matches Err(e) ==> e.status() == 500,
{
}

} // verus!
