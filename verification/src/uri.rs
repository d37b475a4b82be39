//! URIs as the request and redirect logic sees them: the parts that `http::Uri` takes apart.
use crate::text::{
    as_deref, clone_text, eq_ignore_ascii_case, first_index, lemma_first_index, maybe_str,
    maybe_text, same_ignoring_ascii_case, same_maybe_str, same_text,
};
use vstd::prelude::*;
use vstd::string::StringExecFns;
use vstd::utf8::encode_utf8;

verus! {

/// The longest text, in bytes, that `http` takes for a URI.
pub const MAX_URI_LEN: usize = 65534;

/// The characters that `http` accepts in a path.
pub open spec fn is_path_char(c: char) -> bool {
    ||| c == '!'
    ||| '$' <= c <= ';'
    ||| c == '='
    ||| '@' <= c <= '_'
    ||| 'a' <= c <= 'z'
    ||| c == '|'
    ||| c == '~'
    ||| c == '"'
    ||| c == '{'
    ||| c == '}'
    ||| c >= '\u{80}'
}

/// The characters that `http` accepts in a query.
pub open spec fn is_query_char(c: char) -> bool {
    ||| c == '!'
    ||| '$' <= c <= ';'
    ||| c == '='
    ||| '?' <= c <= '~'
    ||| c >= '\u{80}'
}

/// Whether every character may stand in a path.
pub open spec fn all_path_chars(s: Seq<char>) -> bool {
    forall|i: int| 0 <= i < s.len() ==> is_path_char(#[trigger] s[i])
}

/// Whether every character may stand in a query.
pub open spec fn all_query_chars(s: Seq<char>) -> bool {
    forall|i: int| 0 <= i < s.len() ==> is_query_char(#[trigger] s[i])
}

/// What a path and a query hold.
#[verifier::ext_equal]
pub struct PathAndQueryText {
    pub path: Seq<char>,
    pub query: Option<Seq<char>>,
}

impl PathAndQueryText {
    /// A path begins with a slash, or is a lone star, and both parts hold legal characters.
    pub open spec fn valid(self) -> bool {
        &&& all_path_chars(self.path)
        &&& self.path.len() > 0
        &&& self.path[0] == '/' || self.path == seq!['*']
        &&& self.query matches Some(q) ==> all_query_chars(q)
    }

    /// The path, and behind a question mark the query.
    pub open spec fn text(self) -> Seq<char> {
        self.path + query_suffix(self.query)
    }
}

/// What a query adds to the text of a URI.
pub open spec fn query_suffix(query: Option<Seq<char>>) -> Seq<char> {
    match query {
        Some(q) => seq!['?'] + q,
        None => Seq::empty(),
    }
}

/// What comes before the first `#`.
pub open spec fn before_fragment(text: Seq<char>) -> Seq<char> {
    match first_index(text, '#') {
        Some(i) => text.take(i),
        None => text,
    }
}

/// The path, where there is one, else the root.
pub open spec fn path_or_root(path: Seq<char>) -> Seq<char> {
    if path.len() == 0 {
        seq!['/']
    } else {
        path
    }
}

/// What `http` reads as the path and the query in `text`: nothing where the text is empty, too
/// long, does not begin like a path or holds a character that is not allowed where it stands.
pub open spec fn path_and_query_of(text: Seq<char>) -> Option<PathAndQueryText> {
    let kept = before_fragment(text);
    if text.len() == 0 || encode_utf8(text).len() > MAX_URI_LEN {
        None
    } else if text == seq!['*'] {
        Some(PathAndQueryText { path: text, query: None })
    } else if text[0] != '/' && text[0] != '?' && text[0] != '#' {
        None
    } else {
        match first_index(kept, '?') {
            None => if all_path_chars(kept) {
                Some(PathAndQueryText { path: path_or_root(kept), query: None })
            } else {
                None
            },
            Some(i) => if all_path_chars(kept.take(i)) && all_query_chars(kept.skip(i + 1)) {
                Some(
                    PathAndQueryText {
                        path: path_or_root(kept.take(i)),
                        query: Some(kept.skip(i + 1)),
                    },
                )
            } else {
                None
            },
        }
    }
}

/// The path of a URI and its query.
#[derive(Debug)]
pub struct PathAndQuery {
    pub path: String,
    pub query: Option<String>,
}

impl Clone for PathAndQuery {
    fn clone(&self) -> (r: Self)
        ensures
            r == *self,
    {
        PathAndQuery { path: self.path.clone(), query: clone_text(&self.query) }
    }
}

impl View for PathAndQuery {
    type V = PathAndQueryText;

    open spec fn view(&self) -> PathAndQueryText {
        PathAndQueryText { path: self.path@, query: maybe_text(self.query) }
    }
}

/// The error that `http` gives for a text that is not a URI.
#[verifier::external_type_specification]
#[verifier::external_body]
pub struct ExInvalidUri(http::uri::InvalidUri);

/// The error that `http` gives for a URI that cannot be put together.
#[verifier::external_type_specification]
#[verifier::external_body]
pub struct ExHttpError(http::Error);

/// `http::uri::PathAndQuery::from_maybe_shared` accepts exactly the texts that
/// `path_and_query_of` describes, and takes them apart as it says.
#[verifier::external_body]
fn parse_path_and_query(text: String) -> (r: Result<PathAndQuery, http::uri::InvalidUri>)
    ensures
        r is Ok <==> path_and_query_of(text@) is Some,
        r matches Ok(p) ==> path_and_query_of(text@) == Some(p@),
{
    http::uri::PathAndQuery::from_maybe_shared(text).map(
        |p| PathAndQuery { path: p.path().to_owned(), query: p.query().map(|q| q.to_owned()) },
    )
}

/// What a URI holds.
#[verifier::ext_equal]
pub struct UriText {
    pub scheme: Option<Seq<char>>,
    pub authority: Option<Seq<char>>,
    pub path_and_query: Option<PathAndQueryText>,
}

impl UriText {
    /// A URI is a path, or a path behind a scheme and an authority, or an authority alone, or
    /// nothing at all.
    pub open spec fn valid(self) -> bool {
        &&& self.scheme is Some ==> self.authority is Some && self.path_and_query is Some
        &&& self.scheme is None && self.authority is Some ==> self.path_and_query is None
        &&& self.path_and_query matches Some(p) ==> p.valid()
    }

    /// The path, empty where there is none.
    pub open spec fn path(self) -> Seq<char> {
        match self.path_and_query {
            Some(p) => p.path,
            None => Seq::empty(),
        }
    }

    /// The query.
    pub open spec fn query(self) -> Option<Seq<char>> {
        match self.path_and_query {
            Some(p) => p.query,
            None => None,
        }
    }

    /// The URI as text.
    pub open spec fn text(self) -> Seq<char> {
        (match self.scheme {
            Some(s) => s + "://"@,
            None => Seq::empty(),
        }) + (match self.authority {
            Some(a) => a,
            None => Seq::empty(),
        }) + self.path() + query_suffix(self.query())
    }

    /// Whether two URIs are equal: the case of a scheme and of an authority makes no difference.
    pub open spec fn same_as(self, other: UriText) -> bool {
        &&& same_part(self.scheme, other.scheme)
        &&& same_part(self.authority, other.authority)
        &&& self.path() == other.path()
        &&& self.query() == other.query()
    }

    /// The URI that is made of a path and a query alone.
    pub open spec fn of_path(p: PathAndQueryText) -> Self {
        UriText { scheme: None, authority: None, path_and_query: Some(p) }
    }

    /// The URI that holds nothing.
    pub open spec fn empty() -> Self {
        UriText { scheme: None, authority: None, path_and_query: None }
    }
}

/// Whether two schemes, or two authorities, are equal.
pub open spec fn same_part(a: Option<Seq<char>>, b: Option<Seq<char>>) -> bool {
    match (a, b) {
        (Some(x), Some(y)) => same_ignoring_ascii_case(x, y),
        (None, None) => true,
        _ => false,
    }
}

fn eq_part(a: &Option<String>, b: &Option<String>) -> (r: bool)
    ensures
        r == same_part(maybe_text(*a), maybe_text(*b)),
{
    match (a, b) {
        (Some(x), Some(y)) => eq_ignore_ascii_case(x.as_str(), y.as_str()),
        (None, None) => true,
        _ => false,
    }
}

/// A URI, taken apart.
#[derive(Debug)]
pub struct Uri {
    scheme: Option<String>,
    authority: Option<String>,
    path_and_query: Option<PathAndQuery>,
}

impl View for Uri {
    type V = UriText;

    closed spec fn view(&self) -> UriText {
        UriText {
            scheme: maybe_text(self.scheme),
            authority: maybe_text(self.authority),
            path_and_query: match self.path_and_query {
                Some(p) => Some(p@),
                None => None,
            },
        }
    }
}

impl Uri {
    #[verifier::type_invariant]
    pub open spec fn well_formed(self) -> bool {
        self@.valid()
    }
}

impl Clone for Uri {
    fn clone(&self) -> (r: Self)
        ensures
            r@ == self@,
    {
        proof {
            use_type_invariant(self);
        }
        Uri {
            scheme: clone_text(&self.scheme),
            authority: clone_text(&self.authority),
            path_and_query: match &self.path_and_query {
                Some(p) => Some(p.clone()),
                None => None,
            },
        }
    }
}

impl PartialEq for Uri {
    fn eq(&self, other: &Uri) -> (r: bool) {
        eq_part(&self.scheme, &other.scheme) && eq_part(&self.authority, &other.authority)
            && same_text(self.path(), other.path()) && same_maybe_str(self.query(), other.query())
    }
}

impl vstd::std_specs::cmp::PartialEqSpecImpl for Uri {
    open spec fn obeys_eq_spec() -> bool {
        true
    }

    open spec fn eq_spec(&self, other: &Uri) -> bool {
        self@.same_as(other@)
    }
}

/// What `http::Uri` reads from a text.
pub uninterp spec fn parsed_uri(text: Seq<char>) -> Option<UriText>;

/// `http::Uri::from_str` takes a text apart into a scheme, an authority and a path with a query.
/// A text that begins with a slash is a path and a query alone. How an authority is told from
/// the rest is left open.
#[verifier::external_body]
fn parse_uri(text: &str) -> (r: Result<Uri, http::uri::InvalidUri>)
    ensures
        r is Ok <==> parsed_uri(text@) is Some,
        r matches Ok(u) ==> parsed_uri(text@) == Some(u@) && u@.valid(),
        r is Ok && text@[0] == '/' ==> path_and_query_of(text@) is Some,
        r is Err && text@.len() > 0 && text@[0] == '/' ==> path_and_query_of(text@) is None,
        r matches Ok(u) ==> (text@[0] == '/' ==> u@ == UriText::of_path(
            path_and_query_of(text@).unwrap(),
        )),
{
    let parts = <http::Uri as core::str::FromStr>::from_str(text)?.into_parts();
    Ok(Uri {
        scheme: parts.scheme.map(|s| s.as_str().to_owned()),
        authority: parts.authority.map(|a| a.as_str().to_owned()),
        path_and_query: parts.path_and_query.map(|p| PathAndQuery {
            path: p.path().to_owned(),
            query: p.query().map(|q| q.to_owned()),
        }),
    })
}

/// `http::uri::Builder` with a path and a query and nothing else builds the URI that is made of
/// them, and an empty URI from an empty text. It fails where the text is no path and query.
#[verifier::external_body]
fn build_from_path_and_query(text: &str) -> (r: Result<Uri, http::Error>)
    requires
        text@.len() > 0 ==> text@[0] != '#',
    ensures
        r is Ok <==> (text@.len() == 0 || path_and_query_of(text@) is Some),
        r matches Ok(u) ==> u@ == (if text@.len() == 0 {
            UriText::empty()
        } else {
            UriText::of_path(path_and_query_of(text@).unwrap())
        }),
{
    let uri = http::Uri::builder().path_and_query(text).build()?;
    Ok(Uri {
        scheme: None,
        authority: None,
        path_and_query: uri.into_parts().path_and_query.map(|p| PathAndQuery {
            path: p.path().to_owned(),
            query: p.query().map(|q| q.to_owned()),
        }),
    })
}

/// A text that is read as a path and a query gives parts that are legal.
pub proof fn lemma_path_and_query_valid(text: Seq<char>)
    ensures
        path_and_query_of(text) matches Some(p) ==> p.valid(),
{
    lemma_first_index(text, '#');
    let kept = before_fragment(text);
    lemma_first_index(kept, '?');
}

/// Legal parts, put together, are read as the same parts, where the text is not too long.
pub proof fn lemma_path_and_query_read_back(p: PathAndQueryText)
    requires
        p.valid(),
        p.path[0] == '/',
        encode_utf8(p.text()).len() <= MAX_URI_LEN,
    ensures
        path_and_query_of(p.text()) == Some(p),
{
    let text = p.text();
    lemma_first_index(text, '#');
    lemma_first_index(text, '?');
    assert forall|i: int| 0 <= i < text.len() implies text[i] != '#' by {
        if i < p.path.len() {
            assert(text[i] == p.path[i]);
        } else if i > p.path.len() {
            assert(text[i] == p.query.unwrap()[i - p.path.len() - 1]);
        }
    }
    assert forall|i: int| 0 <= i < p.path.len() implies text[i] != '?' by {
        assert(text[i] == p.path[i]);
    }
    assert(before_fragment(text) == text);
    match p.query {
        None => {
            assert(text =~= p.path);
        },
        Some(q) => {
            let n = p.path.len() as int;
            assert(text[n] == '?');
            assert(text.contains(text[n]));
            assert(text.take(n) =~= p.path);
            assert(text.skip(n + 1) =~= q);
        },
    }
    assert(path_and_query_of(text).unwrap() =~= p);
}

/// Why a text is no URI.
#[derive(Clone, Copy, Debug, PartialEq, Eq, Structural)]
pub enum UriError {
    /// The text cannot be read as a URI.
    Invalid,
    /// The parts do not go together.
    InvalidParts,
}

impl Uri {
    /// The URI that holds nothing.
    pub fn empty() -> (r: Uri)
        ensures
            r@ == UriText::empty(),
    {
        Uri { scheme: None, authority: None, path_and_query: None }
    }

    /// Reads a URI.
    pub fn parse(text: &str) -> (r: Result<Uri, UriError>)
        ensures
            r is Ok <==> parsed_uri(text@) is Some,
            r matches Ok(u) ==> parsed_uri(text@) == Some(u@) && u@.valid(),
            r matches Err(e) ==> e == UriError::Invalid,
            text@.len() > 0 && text@[0] == '/' ==> parsed_uri(text@) == (match path_and_query_of(
                text@,
            ) {
                Some(p) => Some(UriText::of_path(p)),
                None => None,
            }),
    {
        match parse_uri(text) {
            Ok(u) => Ok(u),
            Err(_) => Err(UriError::Invalid),
        }
    }

    /// The URI that is made of a path and a query, or of nothing where the text is empty.
    pub fn from_path_and_query(text: &str) -> (r: Result<Uri, UriError>)
        requires
            text@.len() > 0 ==> text@[0] != '#',
        ensures
            r is Ok <==> (text@.len() == 0 || path_and_query_of(text@) is Some),
            r matches Ok(u) ==> u@ == (if text@.len() == 0 {
                UriText::empty()
            } else {
                UriText::of_path(path_and_query_of(text@).unwrap())
            }),
            r matches Err(e) ==> e == UriError::Invalid,
    {
        match build_from_path_and_query(text) {
            Ok(u) => Ok(u),
            Err(_) => Err(UriError::Invalid),
        }
    }

    /// The path, empty where there is none.
    pub fn path(&self) -> (r: &str)
        ensures
            r@ == self@.path(),
    {
        match &self.path_and_query {
            Some(p) => p.path.as_str(),
            None => {
                proof {
                    reveal_strlit("");
                    assert(""@ =~= Seq::<char>::empty());
                }
                ""
            },
        }
    }

    /// The query.
    pub fn query(&self) -> (r: Option<&str>)
        ensures
            maybe_str(r) == self@.query(),
    {
        match &self.path_and_query {
            Some(p) => as_deref(&p.query),
            None => None,
        }
    }

    /// Whether a path and a query can be asked for, which an authority on its own does not have.
    pub fn has_path_and_query(&self) -> (r: bool)
        ensures
            r == (self@.scheme is Some || self@.authority is None),
    {
        self.scheme.is_some() || self.authority.is_none()
    }

    /// The same URI with another path and query, read from a text.
    pub fn with_path_and_query(self, text: String) -> (r: Result<Uri, UriError>)
        ensures
            path_and_query_of(text@) is None ==> r == Err::<Uri, UriError>(UriError::Invalid),
            path_and_query_of(text@) is Some && self@.scheme is None && self@.authority is Some
                ==> r == Err::<Uri, UriError>(UriError::InvalidParts),
            path_and_query_of(text@) is Some && (self@.scheme is Some || self@.authority is None)
                ==> r is Ok,
            r matches Ok(u) ==> u@ == (UriText {
                path_and_query: path_and_query_of(text@),
                ..self@
            }),
    {
        proof {
            use_type_invariant(&self);
            lemma_path_and_query_valid(text@);
        }
        match parse_path_and_query(text) {
            Ok(p) => {
                if self.scheme.is_none() && self.authority.is_some() {
                    return Err(UriError::InvalidParts);
                }
                Ok(
                    Uri {
                        scheme: self.scheme,
                        authority: self.authority,
                        path_and_query: Some(p),
                    },
                )
            },
            Err(_) => Err(UriError::Invalid),
        }
    }

    /// The URI as text.
    pub fn to_text(&self) -> (r: String)
        ensures
            r@ == self@.text(),
    {
        let mut out: String = String::new();
        if let Some(s) = &self.scheme {
            out.append(s.as_str());
            out.append("://");
        }
        assert(out@ =~= match self@.scheme {
            Some(s) => s + "://"@,
            None => Seq::empty(),
        });
        let ghost o1 = out@;
        if let Some(a) = &self.authority {
            out.append(a.as_str());
        }
        assert(out@ =~= o1 + match self@.authority {
            Some(a) => a,
            None => Seq::empty(),
        });
        out.append(self.path());
        let ghost o2 = out@;
        if let Some(q) = self.query() {
            out.push('?');
            out.append(q);
        }
        assert(out@ =~= o2 + query_suffix(self@.query()));
        out
    }
}

/// The text of a URI ends in its query, which stands behind its path. A scheme and a host stand
/// before the path, with the usual sign between them.
pub proof fn law_uri_text_is_made_of_its_parts(u: UriText)
    ensures
        (u.path() + query_suffix(u.query())).is_suffix_of(u.text()),
        u.scheme is None && u.authority is None ==> u.text() == u.path() + query_suffix(u.query()),
        u.scheme is Some && u.authority is Some ==> u.text() == u.scheme.unwrap() + "://"@
            + u.authority.unwrap() + u.path() + query_suffix(u.query()),
        u.scheme is None && u.authority is Some ==> u.authority.unwrap().is_prefix_of(u.text()),
{
    let end = u.path() + query_suffix(u.query());
    let text = u.text();
    assert(text.skip(text.len() - end.len()) =~= end);
    if u.scheme is None {
        if let Some(a) = u.authority {
            assert(text.take(a.len() as int) =~= a);
        } else {
            assert(text =~= end);
        }
    }
}

} // verus!
