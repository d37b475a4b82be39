//! Redirects to pages of this site and of others.
use crate::cache::CachePolicy;
use crate::escaped_uri::lemma_escaped_is_path;
use crate::percent::{encode_url_path, escaped_path, lemma_escaped_path};
use crate::query::{form_text, pair_texts, serialize_form};
use crate::text::maybe_str;
use crate::uri::{
    all_query_chars, lemma_path_and_query_read_back, parsed_uri, path_and_query_of, query_suffix,
    PathAndQueryText, Uri, UriError, UriText, MAX_URI_LEN,
};
use vstd::prelude::*;
use vstd::string::StringExecFns;
use vstd::utf8::encode_utf8;

verus! {

/// What a redirect leads to.
#[derive(Debug)]
pub enum Base {
    /// A path on this site, as it is before it is percent-encoded.
    Path(String),
    /// A URL.
    Url(String),
}

/// The query of what a redirect leads to.
#[derive(Debug)]
pub enum Query {
    /// None.
    Empty,
    /// One that is taken as it is.
    Raw(String),
    /// Names and values. Without any there is no query.
    Pairs(Vec<(String, String)>),
}

impl Query {
    /// What the query adds to the text of a URL.
    pub open spec fn text(self) -> Seq<char> {
        match self {
            Query::Empty => Seq::empty(),
            Query::Raw(q) => "?"@ + q@,
            Query::Pairs(pairs) => if pairs@.len() == 0 {
                Seq::empty()
            } else {
                "?"@ + form_text(pair_texts(pairs@))
            },
        }
    }

    /// The query of the URL.
    pub open spec fn value(self) -> Option<Seq<char>> {
        match self {
            Query::Empty => None,
            Query::Raw(q) => Some(q@),
            Query::Pairs(pairs) => if pairs@.len() == 0 {
                None
            } else {
                Some(form_text(pair_texts(pairs@)))
            },
        }
    }

    /// The query that a request had, to be taken along.
    pub open spec fn kept(self, query: Option<Seq<char>>) -> bool {
        match query {
            Some(q) => self matches Query::Raw(r) && r@ == q,
            None => self is Empty,
        }
    }

    /// Takes the query of a request along.
    pub fn keep(query: Option<&str>) -> (r: Query)
        ensures
            r.kept(maybe_str(query)),
    {
        match query {
            Some(q) => Query::Raw(q.to_owned()),
            None => Query::Empty,
        }
    }
}

/// A redirect, with how long it may be cached.
#[derive(Debug)]
pub struct Redirection {
    pub base: Base,
    pub query: Query,
    pub cache_policy: CachePolicy,
}

impl Redirection {
    /// Whether the redirect leads to a path on this site.
    pub open spec fn is_to(self, path: Seq<char>) -> bool {
        self.base matches Base::Path(p) && p@ == path
    }

    /// The text of the URL that the redirect leads to.
    pub open spec fn text(self) -> Seq<char> {
        (match self.base {
            Base::Path(p) => escaped_path(p@),
            Base::Url(u) => u@,
        }) + self.query.text()
    }

    /// The URL that the redirect leads to, where it is one.
    pub fn location(&self) -> (r: Result<Uri, UriError>)
        ensures
            r is Ok <==> parsed_uri(self.text()) is Some,
            r matches Ok(u) ==> parsed_uri(self.text()) == Some(u@),
            r matches Err(e) ==> e == UriError::Invalid,
            self.base matches Base::Path(p) ==> p@.len() > 0 && p@[0] == '/' ==> parsed_uri(
                self.text(),
            ) == (match path_and_query_of(self.text()) {
                Some(pq) => Some(UriText::of_path(pq)),
                None => None,
            }),
    {
        let mut text: String = match &self.base {
            Base::Path(p) => {
                proof {
                    lemma_escaped_path(p@);
                }
                encode_url_path(p.as_str())
            },
            Base::Url(u) => u.clone(),
        };
        let ghost base = text@;
        match &self.query {
            Query::Empty => {},
            Query::Raw(q) => {
                text.append("?");
                text.append(q.as_str());
            },
            Query::Pairs(pairs) => {
                if pairs.len() > 0 {
                    text.append("?");
                    text.append(serialize_form(pairs).as_str());
                }
            },
        }
        assert(text@ =~= base + self.query.text());
        Uri::parse(text.as_str())
    }
}

/// A redirect to a path on this site leads to that path, percent-encoded, with the query that it
/// was given, as long as the URL is not too long.
pub proof fn law_redirect_leads_to_its_path(redirection: Redirection, path: Seq<char>)
    requires
        redirection.is_to(path),
        path.len() > 0,
        path[0] == '/',
        redirection.query.value() matches Some(q) ==> all_query_chars(q),
        encode_utf8(redirection.text()).len() <= MAX_URI_LEN,
    ensures
        path_and_query_of(redirection.text()) == Some(
            PathAndQueryText { path: escaped_path(path), query: redirection.query.value() },
        ),
{
    reveal_strlit("?");
    assert("?"@ =~= seq!['?']);
    let p = PathAndQueryText { path: escaped_path(path), query: redirection.query.value() };
    assert(redirection.text() =~= p.text());
    lemma_escaped_path(path);
    lemma_escaped_is_path(path);
    lemma_path_and_query_read_back(p);
}

/// A query that is taken along is the query of the request, and none where it had none.
pub proof fn law_kept_query_is_that_of_the_request(q: Query, query: Option<Seq<char>>)
    requires
        q.kept(query),
    ensures
        q.value() == query,
        q.text() == query_suffix(query),
{
    reveal_strlit("?");
    assert("?"@ =~= seq!['?']);
    assert(q.text() =~= query_suffix(query));
}

/// A redirect is written as where it leads to, and behind that its query.
pub proof fn law_redirect_is_its_base_and_query(to: Redirection)
    ensures
        to.base matches Base::Path(p) ==> to.text() == escaped_path(p@) + query_suffix(
            to.query.value(),
        ),
        to.base matches Base::Url(u) ==> to.text() == u@ + query_suffix(to.query.value()),
{
    reveal_strlit("?");
    assert("?"@ =~= seq!['?']);
    assert(to.query.text() =~= query_suffix(to.query.value()));
}

/// Names and values make a query exactly where there are any.
pub proof fn law_pairs_make_a_query(q: Query)
    ensures
        q matches Query::Pairs(pairs) ==> (q.value() is Some <==> pairs@.len() > 0) && (
        q.value() matches Some(text) ==> text == form_text(pair_texts(pairs@))),
        q matches Query::Raw(raw) ==> q.value() == Some(raw@),
        q is Empty ==> q.value() is None,
{
}

} // verus!
