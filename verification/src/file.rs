//! Files from the storage.
use crate::cache::{CachePolicy, CachePolicyText};
use crate::config::Config;
use crate::text::ends_with;
use vstd::prelude::*;

verus! {

/// The largest size, in bytes, of a file that is served.
pub open spec fn size_limit(path: Seq<char>, config: Config) -> usize {
    if ".html"@.is_suffix_of(path) {
        config.max_file_size_html
    } else {
        config.max_file_size
    }
}

/// The largest size, in bytes, of a file that is served. There is a limit of its own for HTML,
/// which is rewritten before it is served.
pub fn max_file_size(path: &str, config: &Config) -> (r: usize)
    ensures
        r == size_limit(path@, *config),
{
    if ends_with(path, ".html") {
        config.max_file_size_html
    } else {
        config.max_file_size
    }
}

/// A file that is sent piece by piece, with what is said of its content. The type of the time is
/// left to the caller.
#[derive(Debug)]
pub struct StreamingFile<T> {
    pub mime: String,
    pub date_updated: T,
    pub etag: Option<String>,
}

/// A file that is held as a whole.
#[derive(Debug)]
pub struct File<T> {
    pub file: StreamingFile<T>,
}

/// What is sent for a file.
#[derive(Debug)]
#[allow(inconsistent_fields)]
pub enum FileResponse<T> {
    /// The client has the file already.
    NotModified { etag: String, cache_policy: CachePolicy },
    /// The content of the file goes behind this.
    Content { mime: String, last_modified: T, etag: Option<String>, cache_policy: CachePolicy },
}

impl<T> FileResponse<T> {
    /// The HTTP status.
    pub open spec fn status(self) -> u16 {
        match self {
            FileResponse::NotModified { .. } => 304,
            FileResponse::Content { .. } => 200,
        }
    }

    /// How long the response may be cached.
    pub open spec fn policy(self) -> CachePolicyText {
        match self {
            FileResponse::NotModified { cache_policy, .. } => cache_policy@,
            FileResponse::Content { cache_policy, .. } => cache_policy@,
        }
    }

    /// The HTTP status.
    pub fn status_code(&self) -> (r: u16)
        ensures
            r == self.status(),
    {
        match self {
            FileResponse::NotModified { .. } => 304,
            FileResponse::Content { .. } => 200,
        }
    }
}

impl<T> StreamingFile<T> {
    /// Whether `r` is what is sent for a file: nothing but its etag where the client has it
    /// already, else all of it.
    pub open spec fn is_answered(self, if_none_match: Option<bool>, r: FileResponse<T>) -> bool {
        &&& r is NotModified <==> self.etag is Some && if_none_match == Some(false)
        &&& r matches FileResponse::NotModified { etag, .. } ==> self.etag == Some(etag)
        &&& r matches FileResponse::Content { mime, last_modified, etag, .. } ==> mime == self.mime
            && last_modified == self.date_updated && etag == self.etag
        &&& r.policy() == CachePolicyText::ForeverInCdnAndBrowser
    }

    /// What is sent for a file. `if_none_match` says, where the client knows some versions of the
    /// file, whether this is another one. Either way the response may be cached for ever.
    pub fn into_response(self, if_none_match: Option<bool>) -> (r: FileResponse<T>)
        ensures
            self.is_answered(if_none_match, r),
    {
        let known: bool = match if_none_match {
            Some(passes) => !passes,
            None => false,
        };
        match self.etag {
            Some(etag) if known => FileResponse::NotModified {
                etag,
                cache_policy: CachePolicy::ForeverInCdnAndBrowser,
            },
            etag => FileResponse::Content {
                mime: self.mime,
                last_modified: self.date_updated,
                etag,
                cache_policy: CachePolicy::ForeverInCdnAndBrowser,
            },
        }
    }
}

impl<T> File<T> {
    /// What is sent for a file: the same as for one that is sent piece by piece.
    pub fn into_response(self, if_none_match: Option<bool>) -> (r: FileResponse<T>)
        ensures
            self.file.is_answered(if_none_match, r),
    {
        self.file.into_response(if_none_match)
    }
}

/// Pages of HTML have a limit of their own, and what is appended before the extension, or what
/// other files are named, makes no difference.
pub proof fn law_html_has_a_limit_of_its_own(stem: Seq<char>, ext: Seq<char>, config: Config)
    requires
        !ext.contains('.'),
    ensures
        size_limit(stem + ".html"@, config) == config.max_file_size_html,
        ext != "html"@ ==> size_limit(stem + "."@ + ext, config) == config.max_file_size,
{
    reveal_strlit(".");
    reveal_strlit("html");
    reveal_strlit(".html");
    let page = stem + ".html"@;
    assert(page.skip(page.len() - 5) =~= ".html"@);
    let other = stem + "."@ + ext;
    if ".html"@.is_suffix_of(other) {
        let n = other.len() as int;
        let end = other.skip(n - 5);
        assert(end == ".html"@);
        let k = stem.len() as int;
        assert(other[k] == '.');
        if k < n - 5 {
            assert(other[n - 5] == end[0]);
            assert(ext[n - 5 - k - 1] == '.');
        } else if k > n - 5 {
            assert(end[k - n + 5] == '.');
        }
        assert(ext =~= "html"@) by {
            assert(k == n - 5);
            assert forall|i: int| 0 <= i < 4 implies ext[i] == "html"@[i] by {
                assert(other[k + 1 + i] == end[i + 1]);
                assert(".html"@[i + 1] == "html"@[i]);
            }
        }
    }
}

/// A client that knows nothing of a file, or another version of it, is sent the file. Whatever is
/// sent carries the etag of the file, and may be cached for ever. A file without an etag is always
/// sent.
pub proof fn law_files_are_sent_unless_they_are_known<T>(
    file: StreamingFile<T>,
    if_none_match: Option<bool>,
    r: FileResponse<T>,
)
    requires
        file.is_answered(if_none_match, r),
    ensures
        if_none_match is None || if_none_match == Some(true) || file.etag is None ==> r.status()
            == 200,
        if_none_match == Some(false) && file.etag is Some ==> r.status() == 304,
        (match r {
            FileResponse::NotModified { etag, .. } => Some(etag),
            FileResponse::Content { etag, .. } => etag,
        }) == file.etag,
        r matches FileResponse::Content { mime, last_modified, .. } ==> mime == file.mime
            && last_modified == file.date_updated,
        r.policy().keys().len() == 0,
        r.policy() is ForeverInCdnAndBrowser,
{
}

} // verus!
