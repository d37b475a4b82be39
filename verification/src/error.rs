//! What a request is answered that cannot be served.
use crate::cache::{CachePolicy, CachePolicyText};
use crate::escaped_uri::{EscapedURI, EscapedUriText};
use crate::header::{is_header_text, lemma_printable_header_text, HeaderError, HeaderValue};
use crate::percent::{escaped_path, is_escaped_byte, lemma_escaped_path};
use crate::query::{pair_texts, PairTexts};
use crate::uri::{is_query_char, query_suffix};
use vstd::prelude::*;
use vstd::string::StringExecFns;

verus! {

/// Why a request is not answered with the page that it asks for.
#[derive(Debug)]
pub enum AxumNope {
    ResourceNotFound,
    BuildNotFound,
    CrateNotFound,
    OwnerNotFound,
    VersionNotFound,
    TargetNotFound,
    NoResults,
    Unauthorized(&'static str),
    /// Something failed, with what it reported.
    InternalError(String),
    /// The request makes no sense, for the reason that is given.
    BadRequest(String),
    Redirect(EscapedURI, CachePolicy),
}

impl AxumNope {
    /// The error in a few words.
    pub open spec fn text(self) -> Seq<char> {
        match self {
            AxumNope::ResourceNotFound => "Requested resource not found"@,
            AxumNope::BuildNotFound => "Requested build not found"@,
            AxumNope::CrateNotFound => "Requested crate not found"@,
            AxumNope::OwnerNotFound => "Requested owner not found"@,
            AxumNope::VersionNotFound => "Requested crate does not have specified version"@,
            AxumNope::TargetNotFound =>
                "Requested release doesn't have docs for the given target"@,
            AxumNope::NoResults => "Search yielded no results"@,
            AxumNope::Unauthorized(what) => "Unauthorized: "@ + what@,
            AxumNope::InternalError(_) => "internal error"@,
            AxumNope::BadRequest(_) => "bad request"@,
            AxumNope::Redirect(_, _) => "redirect"@,
        }
    }

    /// Whether the error is shown as an error page. An empty search and a redirect are not.
    pub open spec fn has_error_info(self) -> bool {
        !(self is NoResults) && !(self is Redirect)
    }

    /// The HTTP status of the error.
    pub open spec fn status(self) -> u16 {
        match self {
            AxumNope::ResourceNotFound => 404,
            AxumNope::BuildNotFound => 404,
            AxumNope::CrateNotFound => 404,
            AxumNope::OwnerNotFound => 404,
            AxumNope::VersionNotFound => 404,
            AxumNope::TargetNotFound => 404,
            AxumNope::NoResults => 404,
            AxumNope::Unauthorized(_) => 401,
            AxumNope::InternalError(_) => 500,
            AxumNope::BadRequest(_) => 400,
            AxumNope::Redirect(_, _) => 302,
        }
    }

    /// The title of the error page.
    pub open spec fn title(self) -> Seq<char> {
        match self {
            AxumNope::ResourceNotFound => "The requested resource does not exist"@,
            AxumNope::BuildNotFound => "The requested build does not exist"@,
            AxumNope::CrateNotFound => "The requested crate does not exist"@,
            AxumNope::OwnerNotFound => "The requested owner does not exist"@,
            AxumNope::VersionNotFound => "The requested version does not exist"@,
            AxumNope::TargetNotFound => "The requested target does not exist"@,
            AxumNope::NoResults => "No results given for empty search query"@,
            AxumNope::Unauthorized(_) => "Unauthorized"@,
            AxumNope::InternalError(_) => "Internal Server Error"@,
            AxumNope::BadRequest(_) => "Bad request"@,
            AxumNope::Redirect(_, _) => Seq::empty(),
        }
    }

    /// The message on the error page.
    pub open spec fn message(self) -> Seq<char> {
        match self {
            AxumNope::ResourceNotFound => "no such resource"@,
            AxumNope::BuildNotFound => "no such build"@,
            AxumNope::CrateNotFound => "no such crate"@,
            AxumNope::OwnerNotFound => "no such owner"@,
            AxumNope::VersionNotFound => "no such version for this crate"@,
            AxumNope::TargetNotFound => "no such target"@,
            AxumNope::Unauthorized(what) => what@,
            AxumNope::InternalError(source) => source@,
            AxumNope::BadRequest(source) => source@,
            _ => Seq::empty(),
        }
    }

    /// The error in a few words.
    pub fn to_text(&self) -> (r: String)
        ensures
            r@ == self.text(),
    {
        match self {
            AxumNope::ResourceNotFound => "Requested resource not found".to_owned(),
            AxumNope::BuildNotFound => "Requested build not found".to_owned(),
            AxumNope::CrateNotFound => "Requested crate not found".to_owned(),
            AxumNope::OwnerNotFound => "Requested owner not found".to_owned(),
            AxumNope::VersionNotFound => "Requested crate does not have specified version".to_owned(),
            AxumNope::TargetNotFound => {
                "Requested release doesn't have docs for the given target".to_owned()
            },
            AxumNope::NoResults => "Search yielded no results".to_owned(),
            AxumNope::Unauthorized(what) => {
                let mut out: String = "Unauthorized: ".to_owned();
                out.append(what);
                out
            },
            AxumNope::InternalError(_) => "internal error".to_owned(),
            AxumNope::BadRequest(_) => "bad request".to_owned(),
            AxumNope::Redirect(_, _) => "redirect".to_owned(),
        }
    }

    /// Whether the error is a fault of the server, which is to be reported.
    pub fn is_reported(&self) -> (r: bool)
        ensures
            r == (self is InternalError),
    {
        matches!(self, AxumNope::InternalError(_))
    }

    /// What the error page shows.
    pub fn into_error_info(self) -> (r: ErrorInfo)
        requires
            self.has_error_info(),
        ensures
            r.title@ == self.title(),
            r.message@ == self.message(),
            r.status == self.status(),
    {
        match self {
            AxumNope::ResourceNotFound => not_found(
                "The requested resource does not exist",
                "no such resource",
            ),
            AxumNope::BuildNotFound => not_found(
                "The requested build does not exist",
                "no such build",
            ),
            AxumNope::TargetNotFound => not_found(
                "The requested target does not exist",
                "no such target",
            ),
            AxumNope::CrateNotFound => not_found(
                "The requested crate does not exist",
                "no such crate",
            ),
            AxumNope::OwnerNotFound => not_found(
                "The requested owner does not exist",
                "no such owner",
            ),
            AxumNope::VersionNotFound => not_found(
                "The requested version does not exist",
                "no such version for this crate",
            ),
            AxumNope::BadRequest(source) => ErrorInfo {
                title: "Bad request",
                message: source,
                status: 400,
            },
            AxumNope::Unauthorized(what) => ErrorInfo {
                title: "Unauthorized",
                message: what.to_owned(),
                status: 401,
            },
            AxumNope::InternalError(source) => ErrorInfo {
                title: "Internal Server Error",
                message: source,
                status: 500,
            },
            AxumNope::NoResults => vstd::pervasive::unreached(),
            AxumNope::Redirect(_, _) => vstd::pervasive::unreached(),
        }
    }

    /// Whether `answer` is what the request is answered: an empty search page, a redirect or an
    /// error page.
    pub open spec fn is_answer(self, answer: Answer) -> bool {
        &&& answer.status() == self.answered_status()
        &&& self is NoResults ==> (answer matches Answer::EmptySearch(title, _) && title@
            == self.title())
        &&& self matches AxumNope::Redirect(target, policy) ==> is_redirect_answer(
            answer,
            target@,
            policy@,
        )
        &&& self.has_error_info() ==> (answer matches Answer::ErrorPage(info) && info.title@
            == self.title() && info.message@ == self.message())
    }

    /// Whether `answer` is what a request to the API is answered: nothing, a redirect or an object.
    pub open spec fn is_json_answer(self, answer: JsonAnswer) -> bool {
        &&& answer.status() == self.answered_status()
        &&& self is NoResults ==> answer is Empty
        &&& self matches AxumNope::Redirect(target, policy) ==> is_redirect_json_answer(
            answer,
            target@,
            policy@,
        )
        &&& self.has_error_info() ==> (answer matches JsonAnswer::Json(info) && info.title@
            == self.title() && info.message@ == self.message())
    }

    /// Whether two errors say the same.
    pub open spec fn same_as(self, other: AxumNope) -> bool {
        match (self, other) {
            (AxumNope::Unauthorized(a), AxumNope::Unauthorized(b)) => a@ == b@,
            (AxumNope::InternalError(a), AxumNope::InternalError(b)) => a@ == b@,
            (AxumNope::BadRequest(a), AxumNope::BadRequest(b)) => a@ == b@,
            (AxumNope::Redirect(a, p), AxumNope::Redirect(b, q)) => a@ == b@ && p@ == q@,
            _ => self == other,
        }
    }

    /// What the request is answered.
    pub fn into_answer(self) -> (r: Answer)
        ensures
            self.is_answer(r),
    {
        match self {
            AxumNope::NoResults => Answer::EmptySearch(
                "No results given for empty search query",
                404,
            ),
            AxumNope::Redirect(target, cache_policy) => match Redirect::new(target, cache_policy) {
                Ok(redirect) => Answer::Redirect(redirect),
                Err(_) => Answer::ErrorPage(redirect_failed()),
            },
            other => Answer::ErrorPage(other.into_error_info()),
        }
    }

    /// What a request to the API is answered.
    pub fn into_json_answer(self) -> (r: JsonAnswer)
        ensures
            self.is_json_answer(r),
    {
        match self {
            AxumNope::NoResults => JsonAnswer::Empty(404),
            AxumNope::Redirect(target, cache_policy) => match Redirect::new(target, cache_policy) {
                Ok(redirect) => JsonAnswer::Redirect(redirect),
                Err(_) => JsonAnswer::ErrorPage(redirect_failed()),
            },
            other => JsonAnswer::Json(other.into_error_info()),
        }
    }

    /// The HTTP status of the answer. A redirect whose target cannot be sent fails.
    pub open spec fn answered_status(self) -> u16 {
        match self {
            AxumNope::Redirect(target, _) if !is_header_text(target@.text()) => 500,
            _ => self.status(),
        }
    }
}

/// What an error page shows.
#[derive(Debug)]
pub struct ErrorInfo {
    /// The title of the page.
    pub title: &'static str,
    /// The error message, shown as a description.
    pub message: String,
    /// The status code of the response.
    pub status: u16,
}

impl ErrorInfo {
    /// The names and values of the object that a request to the API is answered.
    pub open spec fn json_pairs(self) -> PairTexts {
        seq![("title"@, self.title@), ("message"@, self.message@)]
    }

    /// The names and values of the object that a request to the API is answered.
    pub fn into_json_fields(self) -> (r: Vec<(String, String)>)
        ensures
            pair_texts(r@) == self.json_pairs(),
    {
        let fields: Vec<(String, String)> = vec![
            ("title".to_owned(), self.title.to_owned()),
            ("message".to_owned(), self.message),
        ];
        assert(pair_texts(fields@) =~= self.json_pairs());
        fields
    }
}

fn not_found(title: &'static str, message: &str) -> (r: ErrorInfo)
    ensures
        r.title@ == title@,
        r.message@ == message@,
        r.status == 404,
{
    ErrorInfo { title, message: message.to_owned(), status: 404 }
}

/// What is shown when the target of a redirect cannot be sent.
fn redirect_failed() -> (r: ErrorInfo)
    ensures
        r.title@ == "Internal Server Error"@,
        r.message@ == "failed to parse header value"@,
        r.status == 500,
{
    AxumNope::InternalError("failed to parse header value".to_owned()).into_error_info()
}

/// A redirect, with how long it may be cached.
#[derive(Debug)]
pub struct Redirect {
    pub location: HeaderValue,
    pub cache_policy: CachePolicy,
}

impl Redirect {
    /// A redirect to `target`, unless the target cannot be sent in a header.
    pub fn new(target: EscapedURI, cache_policy: CachePolicy) -> (r: Result<Redirect, HeaderError>)
        ensures
            r is Ok <==> is_header_text(target@.text()),
            r matches Ok(redirect) ==> redirect.location@ == target@.text()
                && redirect.cache_policy@ == cache_policy@,
            r matches Err(e) ==> e == HeaderError::Invalid,
    {
        match HeaderValue::parse(target.to_text()) {
            Ok(location) => Ok(Redirect { location, cache_policy }),
            Err(e) => Err(e),
        }
    }
}

/// The page that a failed request is answered with.
#[derive(Debug)]
pub enum Answer {
    /// The search page, without results, under a title and with a status.
    EmptySearch(&'static str, u16),
    Redirect(Redirect),
    ErrorPage(ErrorInfo),
}

impl Answer {
    /// The HTTP status of the answer.
    pub open spec fn status(self) -> u16 {
        match self {
            Answer::EmptySearch(_, status) => status,
            Answer::Redirect(_) => 302,
            Answer::ErrorPage(info) => info.status,
        }
    }

    /// The HTTP status of the answer.
    pub fn status_code(&self) -> (r: u16)
        ensures
            r == self.status(),
    {
        match self {
            Answer::EmptySearch(_, status) => *status,
            Answer::Redirect(_) => 302,
            Answer::ErrorPage(info) => info.status,
        }
    }
}

/// What a failed request to the API is answered with.
#[derive(Debug)]
pub enum JsonAnswer {
    /// A status and nothing else.
    Empty(u16),
    Redirect(Redirect),
    /// An object with the title and the message.
    Json(ErrorInfo),
    /// An error page, where a redirect fails.
    ErrorPage(ErrorInfo),
}

impl JsonAnswer {
    /// The HTTP status of the answer.
    pub open spec fn status(self) -> u16 {
        match self {
            JsonAnswer::Empty(status) => status,
            JsonAnswer::Redirect(_) => 302,
            JsonAnswer::Json(info) => info.status,
            JsonAnswer::ErrorPage(info) => info.status,
        }
    }

    /// The HTTP status of the answer.
    pub fn status_code(&self) -> (r: u16)
        ensures
            r == self.status(),
    {
        match self {
            JsonAnswer::Empty(status) => *status,
            JsonAnswer::Redirect(_) => 302,
            JsonAnswer::Json(info) => info.status,
            JsonAnswer::ErrorPage(info) => info.status,
        }
    }
}

/// Whether `answer` is the redirect to `target` or, where that cannot be sent, an error page.
pub open spec fn is_redirect_answer(
    answer: Answer,
    target: EscapedUriText,
    policy: CachePolicyText,
) -> bool {
    match answer {
        Answer::Redirect(redirect) => is_header_text(target.text()) && redirect.location@
            == target.text() && redirect.cache_policy@ == policy,
        Answer::ErrorPage(info) => !is_header_text(target.text()) && info.title@
            == "Internal Server Error"@ && info.message@ == "failed to parse header value"@,
        _ => false,
    }
}

/// The same for a request to the API.
pub open spec fn is_redirect_json_answer(
    answer: JsonAnswer,
    target: EscapedUriText,
    policy: CachePolicyText,
) -> bool {
    match answer {
        JsonAnswer::Redirect(redirect) => is_header_text(target.text()) && redirect.location@
            == target.text() && redirect.cache_policy@ == policy,
        JsonAnswer::ErrorPage(info) => !is_header_text(target.text()) && info.title@
            == "Internal Server Error"@ && info.message@ == "failed to parse header value"@,
        _ => false,
    }
}

/// What went wrong while a request was handled.
#[derive(Debug)]
pub enum Failure {
    /// It is known what the request is to be answered.
    Nope(AxumNope),
    /// The storage has nothing under the path.
    PathNotFound,
    /// Something else failed, with what it reported.
    Other(String),
}

impl From<Failure> for AxumNope {
    fn from(err: Failure) -> (r: AxumNope) {
        match err {
            Failure::Nope(nope) => nope,
            Failure::PathNotFound => AxumNope::ResourceNotFound,
            Failure::Other(message) => AxumNope::InternalError(message),
        }
    }
}

impl vstd::std_specs::convert::FromSpecImpl<Failure> for AxumNope {
    open spec fn obeys_from_spec() -> bool {
        true
    }

    open spec fn from_spec(err: Failure) -> AxumNope {
        match err {
            Failure::Nope(nope) => nope,
            Failure::PathNotFound => AxumNope::ResourceNotFound,
            Failure::Other(message) => AxumNope::InternalError(message),
        }
    }
}

/// Every error that is not a redirect has a status that says so, and only the faults of the
/// server are in the range of those.
pub proof fn law_errors_have_error_statuses(nope: AxumNope)
    requires
        !(nope is Redirect),
    ensures
        400 <= nope.status() < 600,
        nope.status() >= 500 <==> nope is InternalError,
{
}

/// The API answers an error as a page does: with the same status and, for a redirect, to the same
/// place for the same time. An error that has a page is an object with the title and the message
/// of that page, and nothing else.
pub proof fn law_api_answers_like_pages(
    nope: AxumNope,
    same_nope: AxumNope,
    page: Answer,
    json: JsonAnswer,
)
    requires
        nope.same_as(same_nope),
        nope.is_answer(page),
        same_nope.is_json_answer(json),
    ensures
        page.status() == json.status(),
        json is Json <==> nope.has_error_info(),
        json matches JsonAnswer::Json(info) ==> info.json_pairs() == seq![
            ("title"@, nope.title()),
            ("message"@, nope.message()),
        ] && (page matches Answer::ErrorPage(shown) && shown.json_pairs() == info.json_pairs()),
        json is Redirect <==> page is Redirect,
        json matches JsonAnswer::Redirect(b) ==> (page matches Answer::Redirect(a) && a.location@
            == b.location@ && a.cache_policy@ == b.cache_policy@),
{
}

/// A redirect to a path on this site can always be sent, whatever the path and the query hold.
pub proof fn law_redirect_on_this_site_is_sent(target: EscapedUriText)
    requires
        target.valid(),
        target.uri.scheme is None,
        target.uri.authority is None,
        target.fragment is None,
    ensures
        is_header_text(target.text()),
{
    let path = target.uri.path();
    let query = query_suffix(target.uri.query());
    let text = target.text();
    assert(text =~= path + query);
    lemma_escaped_path(path);
    assert forall|i: int| 0 <= i < text.len() implies #[trigger] text[i] >= ' ' && text[i]
        != '\u{7f}' by {
        if i < path.len() {
            assert(text[i] == path[i]);
            assert(path[i] == escaped_path(path)[i]);
            assert(!is_escaped_byte(escaped_path(path)[i] as u8));
        } else {
            assert(text[i] == query[i - path.len()]);
            if i > path.len() {
                assert(is_query_char(target.uri.query().unwrap()[i - path.len() - 1]));
            }
        }
    }
    lemma_printable_header_text(text);
}

/// Errors of different kinds are shown under different titles, and what was reported of an error is
/// shown as its message.
pub proof fn law_titles_tell_errors_apart(nope: AxumNope, other: AxumNope)
    requires
        nope.title() == other.title(),
        nope.has_error_info(),
        other.has_error_info(),
    ensures
        nope.status() == other.status(),
        nope is InternalError <==> other is InternalError,
        nope is BadRequest <==> other is BadRequest,
        nope is CrateNotFound <==> other is CrateNotFound,
        nope is VersionNotFound <==> other is VersionNotFound,
        nope is TargetNotFound <==> other is TargetNotFound,
        nope is ResourceNotFound <==> other is ResourceNotFound,
        nope is BuildNotFound <==> other is BuildNotFound,
        nope is OwnerNotFound <==> other is OwnerNotFound,
        nope matches AxumNope::InternalError(message) ==> nope.message() == message@,
        nope matches AxumNope::BadRequest(message) ==> nope.message() == message@,
        nope matches AxumNope::Unauthorized(message) ==> nope.message() == message@,
{
    reveal_strlit("The requested resource does not exist");
    reveal_strlit("The requested build does not exist");
    reveal_strlit("The requested crate does not exist");
    reveal_strlit("The requested owner does not exist");
    reveal_strlit("The requested version does not exist");
    reveal_strlit("The requested target does not exist");
    reveal_strlit("Unauthorized");
    reveal_strlit("Internal Server Error");
    reveal_strlit("Bad request");
    assert("The requested resource does not exist"@[14] == 'r');
    assert("The requested build does not exist"@[14] == 'b');
    assert("The requested crate does not exist"@[14] == 'c');
    assert("The requested owner does not exist"@[14] == 'o');
    assert("The requested version does not exist"@[14] == 'v');
    assert("The requested target does not exist"@[14] == 't');
    assert("The requested resource does not exist"@[0] == 'T');
    assert("The requested build does not exist"@[0] == 'T');
    assert("The requested crate does not exist"@[0] == 'T');
    assert("The requested owner does not exist"@[0] == 'T');
    assert("The requested version does not exist"@[0] == 'T');
    assert("The requested target does not exist"@[0] == 'T');
    assert("Unauthorized"@[0] == 'U');
    assert("Internal Server Error"@[0] == 'I');
    assert("Bad request"@[0] == 'B');
}

/// What is missing is answered as not found, whatever it is. Only a redirect is not an error.
pub proof fn law_missing_things_are_not_found(nope: AxumNope)
    ensures
        nope is ResourceNotFound || nope is BuildNotFound || nope is CrateNotFound
            || nope is OwnerNotFound || nope is VersionNotFound || nope is TargetNotFound
            || nope is NoResults <==> nope.status() == 404,
        nope is Redirect <==> nope.status() as int / 100 == 3,
        nope.has_error_info() ==> nope.message().len() > 0 || nope is InternalError
            || nope is BadRequest || nope is Unauthorized,
{
    reveal_strlit("no such resource");
    reveal_strlit("no such build");
    reveal_strlit("no such crate");
    reveal_strlit("no such owner");
    reveal_strlit("no such version for this crate");
    reveal_strlit("no such target");
}

} // verus!
