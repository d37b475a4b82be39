//! URIs whose path is always percent-encoded.
use crate::percent::{
    encode_url_path, escaped_bytes, escaped_path, is_escaped_byte, law_escaping_is_idempotent,
    lemma_escaped_len, lemma_escaped_path,
};
use crate::query::{
    borrowed_pair_texts, form_pairs, form_text, is_form_char, law_form_text_is_plain,
    lemma_form_len, pair_texts, pairs_len, parse_form, serialize_form, PairTexts,
};
use crate::text::{
    as_deref, clone_text, first_index, lemma_first_index, lemma_split_is_unique, maybe_str, maybe_text, same_maybe_str, same_text,
    starts_with_char,
};
use crate::uri::{
    all_path_chars, is_path_char, is_query_char, lemma_path_and_query_read_back, path_and_query_of,
    path_or_root, query_suffix, PathAndQueryText, Uri, UriText, MAX_URI_LEN,
};
use vstd::pervasive::unreached;
use vstd::prelude::*;
use vstd::string::{StrSliceExecFns, StringExecFns};
use vstd::utf8::{encode_utf8, is_ascii_chars, is_ascii_chars_encode_utf8};

verus! {

/// What an escaped URI holds.
#[verifier::ext_equal]
pub struct EscapedUriText {
    pub uri: UriText,
    pub fragment: Option<Seq<char>>,
}

impl EscapedUriText {
    /// The path is percent-encoded, and the URI is one.
    pub open spec fn valid(self) -> bool {
        self.uri.valid() && escaped_path(self.uri.path()) == self.uri.path()
    }

    /// The URI, and behind a `#` the fragment.
    pub open spec fn text(self) -> Seq<char> {
        match self.fragment {
            Some(f) => self.uri.text() + seq!['#'] + f,
            None => self.uri.text(),
        }
    }

    /// An escaped URI without a fragment.
    pub open spec fn plain(uri: UriText) -> Self {
        EscapedUriText { uri, fragment: None }
    }

    /// The URI that a path leads to.
    pub open spec fn of_path(path: Seq<char>) -> Self {
        EscapedUriText::plain(
            if path.len() == 0 {
                UriText::empty()
            } else {
                UriText::of_path(PathAndQueryText { path: escaped_path(path), query: None })
            },
        )
    }

    /// The same URI with `pairs` for its query and without a fragment.
    pub open spec fn with_pairs(self, pairs: PairTexts) -> Self {
        EscapedUriText::plain(
            UriText {
                path_and_query: Some(
                    PathAndQueryText {
                        path: path_or_root(self.uri.path()),
                        query: Some(form_text(pairs)),
                    },
                ),
                ..self.uri
            },
        )
    }

    /// The same URI with `pairs` behind those that its query holds. Without any it stays as it
    /// is; with some the fragment is dropped.
    pub open spec fn appended(self, pairs: PairTexts) -> Self {
        if pairs.len() == 0 {
            self
        } else {
            self.with_pairs(query_pairs(self.uri.query()) + pairs)
        }
    }

    /// Whether a URI can carry `pairs` as its query: it has a path that a query can follow, and
    /// the two of them are short enough.
    pub open spec fn can_carry(self, pairs: PairTexts) -> bool {
        &&& self.uri.scheme is Some || self.uri.authority is None
        &&& self.uri.path() != seq!['*']
        &&& self.uri.path().len() + 1 + form_text(pairs).len() <= MAX_URI_LEN
    }
}

/// The names and values in a query, none where there is no query.
pub open spec fn query_pairs(query: Option<Seq<char>>) -> PairTexts {
    match query {
        Some(q) => form_pairs(encode_utf8(q)),
        None => Seq::empty(),
    }
}

/// `uri` with its path percent-encoded.
pub open spec fn with_escaped_path(uri: UriText) -> UriText {
    match uri.path_and_query {
        Some(p) => UriText {
            path_and_query: Some(PathAndQueryText { path: escaped_path(p.path), query: p.query }),
            ..uri
        },
        None => uri,
    }
}

/// Whether `uri` stays short enough to be a URI when its path is percent-encoded.
pub open spec fn escaping_fits(uri: UriText) -> bool {
    ||| escaped_path(uri.path()) == uri.path()
    ||| encode_utf8(with_escaped_path(uri).path_and_query.unwrap().text()).len() <= MAX_URI_LEN
}

/// Whether `path` is one that a URI can have: rooted, and short enough when it is percent-encoded.
pub open spec fn path_fits(path: Seq<char>) -> bool {
    ||| path.len() == 0
    ||| (path[0] == '/' || path == seq!['*']) && escaped_path(path).len() <= MAX_URI_LEN
}

/// A URI whose path is percent-encoded, including what could stand in a path as it is, such as
/// umlauts.
#[derive(Debug)]
pub struct EscapedURI {
    uri: Uri,
    fragment: Option<String>,
}

impl View for EscapedURI {
    type V = EscapedUriText;

    closed spec fn view(&self) -> EscapedUriText {
        EscapedUriText { uri: self.uri@, fragment: maybe_text(self.fragment) }
    }
}

impl EscapedURI {
    #[verifier::type_invariant]
    pub open spec fn well_formed(self) -> bool {
        self@.valid()
    }

    /// Percent-encodes the path of `uri`.
    pub fn from_uri(uri: Uri) -> (r: EscapedURI)
        requires
            escaping_fits(uri@),
        ensures
            r@ == EscapedUriText::plain(with_escaped_path(uri@)),
            r@.valid(),
    {
        proof {
            use_type_invariant(&uri);
            lemma_escaped_path(uri@.path());
            law_escaping_is_idempotent(uri@.path());
        }
        if uri.has_path_and_query() {
            let encoded: String = encode_url_path(uri.path());
            if same_text(uri.path(), encoded.as_str()) {
                assert(with_escaped_path(uri@) =~= uri@);
                EscapedURI { uri, fragment: None }
            } else {
                let ghost p = uri@.path_and_query.unwrap();
                let ghost q = PathAndQueryText { path: escaped_path(p.path), query: p.query };
                let mut text: String = encoded;
                if let Some(query) = uri.query() {
                    text.push('?');
                    text.append(query);
                }
                proof {
                    assert(text@ =~= q.text());
                    assert(p.path != seq!['*']);
                    lemma_escaped_is_path(p.path);
                    lemma_path_and_query_read_back(q);
                }
                match uri.with_path_and_query(text) {
                    Ok(uri) => EscapedURI { uri, fragment: None },
                    Err(_) => unreached(),
                }
            }
        } else {
            assert(with_escaped_path(uri@) =~= uri@);
            EscapedURI { uri, fragment: None }
        }
    }

    /// Percent-encodes the path of `uri`, where it stays short enough to be a URI.
    pub fn try_from_uri(uri: Uri) -> (r: Option<EscapedURI>)
        ensures
            r is Some <==> escaping_fits(uri@),
            r matches Some(u) ==> u@ == EscapedUriText::plain(with_escaped_path(uri@))
                && u@.valid(),
    {
        proof {
            lemma_escaped_path(uri@.path());
        }
        let encoded: String = encode_url_path(uri.path());
        if !same_text(uri.path(), encoded.as_str()) {
            let mut text: String = encoded;
            if let Some(query) = uri.query() {
                text.push('?');
                text.append(query);
            }
            assert(text@ =~= with_escaped_path(uri@).path_and_query.unwrap().text());
            if text.as_str().as_bytes().len() > MAX_URI_LEN {
                return None;
            }
        }
        Some(EscapedURI::from_uri(uri))
    }

    /// The URI that a path leads to.
    pub fn from_path(path: &str) -> (r: EscapedURI)
        requires
            path_fits(path@),
        ensures
            r@ == EscapedUriText::of_path(path@),
            r@.valid(),
    {
        proof {
            lemma_rooted_path(path@);
        }
        let encoded: String = encode_url_path(path);
        match Uri::from_path_and_query(encoded.as_str()) {
            Ok(uri) => {
                assert(uri@ == EscapedUriText::of_path(path@).uri);
                EscapedURI { uri, fragment: None }
            },
            Err(_) => unreached(),
        }
    }

    /// The URI that a path leads to, with the names and values that are read from `raw_query`.
    pub fn from_path_and_raw_query(path: &str, raw_query: Option<&str>) -> (r: EscapedURI)
        requires
            path_fits(path@),
            query_pairs(maybe_str(raw_query)).len() > 0 ==> EscapedUriText::of_path(
                path@,
            ).can_carry(query_pairs(maybe_str(raw_query))),
        ensures
            r@ == EscapedUriText::of_path(path@).appended(query_pairs(maybe_str(raw_query))),
            r@.valid(),
    {
        EscapedURI::from_path(path).append_raw_query(raw_query)
    }

    /// The URI that a path leads to, with names and values for its query.
    pub fn from_path_and_query(path: &str, queries: &[(&str, &str)]) -> (r: EscapedURI)
        requires
            path_fits(path@),
            queries@.len() > 0 ==> EscapedUriText::of_path(path@).can_carry(
                borrowed_pair_texts(queries@),
            ),
        ensures
            r@ == EscapedUriText::of_path(path@).appended(borrowed_pair_texts(queries@)),
            r@.valid(),
    {
        proof {
            lemma_of_path_has_no_query(path@);
        }
        EscapedURI::from_path(path).append_query_pairs(queries)
    }

    /// The URI that a path leads to, where the path is one that a URI can have.
    pub fn try_from_path(path: &str) -> (r: Option<EscapedURI>)
        ensures
            r is Some <==> path_fits(path@),
            r matches Some(u) ==> u@ == EscapedUriText::of_path(path@) && u@.valid(),
    {
        proof {
            reveal_strlit("*");
            assert("*"@ =~= seq!['*']);
        }
        let fits: bool = path.is_empty() || ((starts_with_char(path, '/') || same_text(path, "*"))
            && encode_url_path(path).as_str().unicode_len() <= MAX_URI_LEN);
        if fits {
            Some(EscapedURI::from_path(path))
        } else {
            None
        }
    }

    /// The URI that a path leads to, with the names and values that are read from `raw_query`,
    /// where there can be such a URI.
    pub fn try_from_path_and_raw_query(path: &str, raw_query: Option<&str>) -> (r: Option<
        EscapedURI,
    >)
        ensures
            r is Some <==> path_fits(path@) && (query_pairs(maybe_str(raw_query)).len() > 0
                ==> EscapedUriText::of_path(path@).can_carry(query_pairs(maybe_str(raw_query)))),
            r matches Some(u) ==> u@ == EscapedUriText::of_path(path@).appended(
                query_pairs(maybe_str(raw_query)),
            ) && u@.valid(),
    {
        proof {
            lemma_of_path_has_no_query(path@);
        }
        let base: EscapedURI = match EscapedURI::try_from_path(path) {
            Some(u) => u,
            None => return None,
        };
        let added: Vec<(String, String)> = match raw_query {
            Some(q) => parse_form(q.as_bytes()),
            None => Vec::new(),
        };
        assert(pair_texts(added@) =~= query_pairs(maybe_str(raw_query)));
        if added.len() > 0 && !base.carries(&added) {
            return None;
        }
        Some(EscapedURI::from_path_and_raw_query(path, raw_query))
    }

    /// The path, percent-encoded.
    pub fn path(&self) -> (r: &str)
        ensures
            r@ == self@.uri.path(),
            escaped_path(r@) == r@,
    {
        proof {
            use_type_invariant(self);
        }
        self.uri.path()
    }

    /// The query.
    pub fn query(&self) -> (r: Option<&str>)
        ensures
            maybe_str(r) == self@.uri.query(),
    {
        self.uri.query()
    }

    /// The fragment.
    pub fn fragment(&self) -> (r: Option<&str>)
        ensures
            maybe_str(r) == self@.fragment,
    {
        as_deref(&self.fragment)
    }

    /// The URI without its fragment.
    pub fn uri(&self) -> (r: &Uri)
        ensures
            r@ == self@.uri,
    {
        &self.uri
    }

    /// The same URI with `pairs` for its query.
    pub fn with_query_pairs(self, pairs: &Vec<(String, String)>) -> (r: EscapedURI)
        requires
            self@.can_carry(pair_texts(pairs@)),
        ensures
            r@ == self@.with_pairs(pair_texts(pairs@)),
            r@.valid(),
            query_pairs(r@.uri.query()) == pair_texts(pairs@),
    {
        let query: String = serialize_form(pairs);
        let mut text: String = self.uri.path().to_owned();
        text.push('?');
        text.append(query.as_str());
        proof {
            use_type_invariant(&self);
            lemma_query_can_follow(self@, pair_texts(pairs@), text@);
        }
        match self.uri.with_path_and_query(text) {
            Ok(uri) => {
                assert(with_escaped_path(uri@) =~= uri@);
                let r: EscapedURI = EscapedURI::from_uri(uri);
                assert(r@ =~= self@.with_pairs(pair_texts(pairs@)));
                r
            },
            Err(_) => unreached(),
        }
    }

    /// Reads the pairs that the query holds.
    fn existing_pairs(&self) -> (r: Vec<(String, String)>)
        ensures
            pair_texts(r@) == query_pairs(self@.uri.query()),
    {
        match self.uri.query() {
            Some(q) => parse_form(q.as_bytes()),
            None => {
                let none: Vec<(String, String)> = Vec::new();
                assert(pair_texts(none@) =~= Seq::empty());
                none
            },
        }
    }

    fn append_pairs(self, new_pairs: Vec<(String, String)>) -> (r: EscapedURI)
        requires
            new_pairs@.len() > 0 ==> self@.can_carry(
                query_pairs(self@.uri.query()) + pair_texts(new_pairs@),
            ),
        ensures
            r@ == self@.appended(pair_texts(new_pairs@)),
            r@.valid(),
            query_pairs(r@.uri.query()) == query_pairs(self@.uri.query()) + pair_texts(
                new_pairs@,
            ),
    {
        if new_pairs.len() == 0 {
            proof {
                use_type_invariant(&self);
                assert(query_pairs(self@.uri.query()) + pair_texts(new_pairs@) =~= query_pairs(
                    self@.uri.query(),
                ));
            }
            return self;
        }
        let mut pairs: Vec<(String, String)> = self.existing_pairs();
        let mut new_pairs: Vec<(String, String)> = new_pairs;
        let ghost old_pairs = pairs@;
        let ghost added = new_pairs@;
        pairs.append(&mut new_pairs);
        assert(pair_texts(pairs@) =~= pair_texts(old_pairs) + pair_texts(added));
        self.with_query_pairs(&pairs)
    }

    /// Adds the names and values that are read from `raw_query` to the query.
    pub fn append_raw_query(self, raw_query: Option<&str>) -> (r: EscapedURI)
        requires
            query_pairs(maybe_str(raw_query)).len() > 0 ==> self@.can_carry(
                query_pairs(self@.uri.query()) + query_pairs(maybe_str(raw_query)),
            ),
        ensures
            r@ == self@.appended(query_pairs(maybe_str(raw_query))),
            r@.valid(),
            query_pairs(r@.uri.query()) == query_pairs(self@.uri.query()) + query_pairs(
                maybe_str(raw_query),
            ),
    {
        match raw_query {
            Some(q) => self.append_pairs(parse_form(q.as_bytes())),
            None => {
                proof {
                    use_type_invariant(&self);
                    assert(query_pairs(self@.uri.query()) + Seq::empty() =~= query_pairs(
                        self@.uri.query(),
                    ));
                }
                self
            },
        }
    }

    /// Adds names and values to the query.
    pub fn append_query_pairs(self, new_query_args: &[(&str, &str)]) -> (r: EscapedURI)
        requires
            new_query_args@.len() > 0 ==> self@.can_carry(
                query_pairs(self@.uri.query()) + borrowed_pair_texts(new_query_args@),
            ),
        ensures
            r@ == self@.appended(borrowed_pair_texts(new_query_args@)),
            r@.valid(),
            query_pairs(r@.uri.query()) == query_pairs(self@.uri.query()) + borrowed_pair_texts(
                new_query_args@,
            ),
    {
        self.append_pairs(owned_pairs(new_query_args))
    }

    /// Adds one name and its value to the query.
    pub fn append_query_pair(self, key: &str, value: &str) -> (r: EscapedURI)
        requires
            self@.can_carry(query_pairs(self@.uri.query()).push((key@, value@))),
        ensures
            r@ == self@.appended(seq![(key@, value@)]),
            r@.valid(),
            query_pairs(r@.uri.query()) == query_pairs(self@.uri.query()).push((key@, value@)),
    {
        let pairs: Vec<(String, String)> = vec![(key.to_owned(), value.to_owned())];
        assert(pair_texts(pairs@) =~= seq![(key@, value@)]);
        assert(query_pairs(self@.uri.query()) + pair_texts(pairs@) =~= query_pairs(
            self@.uri.query(),
        ).push((key@, value@)));
        self.append_pairs(pairs)
    }

    /// Whether the URI can carry `pairs` as its query.
    fn carries(&self, pairs: &Vec<(String, String)>) -> (r: bool)
        ensures
            r == self@.can_carry(pair_texts(pairs@)),
    {
        let query: String = serialize_form(pairs);
        let has_path: bool = self.uri.has_path_and_query();
        let path: &str = self.uri.path();
        let path_len: usize = path.unicode_len();
        let query_len: usize = query.as_str().unicode_len();
        proof {
            reveal_strlit("*");
            assert("*"@ =~= seq!['*']);
        }
        has_path && !same_text(path, "*") && path_len < MAX_URI_LEN && query_len <= MAX_URI_LEN
            && path_len + 1 + query_len <= MAX_URI_LEN
    }

    /// Adds the names and values that are read from `raw_query` to the query, where the URI can
    /// carry them, and gives nothing where it cannot.
    pub fn try_append_raw_query(self, raw_query: Option<&str>) -> (r: Option<EscapedURI>)
        ensures
            r is Some <==> (query_pairs(maybe_str(raw_query)).len() == 0 || self@.can_carry(
                query_pairs(self@.uri.query()) + query_pairs(maybe_str(raw_query)),
            )),
            r matches Some(u) ==> u@ == self@.appended(query_pairs(maybe_str(raw_query)))
                && u@.valid(),
    {
        let mut added: Vec<(String, String)> = match raw_query {
            Some(q) => parse_form(q.as_bytes()),
            None => Vec::new(),
        };
        assert(pair_texts(added@) =~= query_pairs(maybe_str(raw_query)));
        if added.len() > 0 {
            let mut pairs: Vec<(String, String)> = self.existing_pairs();
            let ghost old_pairs = pairs@;
            let ghost new_pairs = added@;
            pairs.append(&mut added);
            assert(pair_texts(pairs@) =~= pair_texts(old_pairs) + pair_texts(new_pairs));
            if !self.carries(&pairs) {
                return None;
            }
        }
        Some(self.append_raw_query(raw_query))
    }

    /// Adds names and values to the query, where the URI can carry them, and gives nothing where
    /// it cannot.
    pub fn try_append_query_pairs(self, new_query_args: &[(&str, &str)]) -> (r: Option<EscapedURI>)
        ensures
            r is Some <==> (new_query_args@.len() == 0 || self@.can_carry(
                query_pairs(self@.uri.query()) + borrowed_pair_texts(new_query_args@),
            )),
            r matches Some(u) ==> u@ == self@.appended(borrowed_pair_texts(new_query_args@))
                && u@.valid(),
    {
        if new_query_args.len() > 0 {
            let mut pairs: Vec<(String, String)> = self.existing_pairs();
            let mut added: Vec<(String, String)> = owned_pairs(new_query_args);
            let ghost old_pairs = pairs@;
            let ghost new_pairs = added@;
            pairs.append(&mut added);
            assert(pair_texts(pairs@) =~= pair_texts(old_pairs) + pair_texts(new_pairs));
            if !self.carries(&pairs) {
                return None;
            }
        }
        Some(self.append_query_pairs(new_query_args))
    }

    /// The URI, with the fragment left out.
    pub fn into_inner(self) -> (r: Uri)
        ensures
            r@ == self@.uri,
    {
        self.uri
    }

    /// The same URI with another fragment.
    pub fn with_fragment(self, fragment: String) -> (r: EscapedURI)
        ensures
            r@ == (EscapedUriText { fragment: Some(fragment@), ..self@ }),
            r@.valid(),
    {
        proof {
            use_type_invariant(&self);
        }
        EscapedURI { uri: self.uri, fragment: Some(fragment) }
    }

    /// The URI and its fragment as text.
    pub fn to_text(&self) -> (r: String)
        ensures
            r@ == self@.text(),
    {
        let mut out: String = self.uri.to_text();
        if let Some(fragment) = &self.fragment {
            let ghost u = out@;
            out.push('#');
            assert(out@ =~= u + seq!['#']);
            out.append(fragment.as_str());
        }
        out
    }
}

/// Copies a list of pairs.
fn owned_pairs(pairs: &[(&str, &str)]) -> (r: Vec<(String, String)>)
    ensures
        pair_texts(r@) == borrowed_pair_texts(pairs@),
        r@.len() == pairs@.len(),
{
    let mut out: Vec<(String, String)> = Vec::new();
    let n: usize = pairs.len();
    for i in 0..n
        invariant
            n == pairs@.len(),
            out@.len() == i,
            forall|j: int|
                0 <= j < i ==> (#[trigger] out@[j]).0@ == pairs@[j].0@ && out@[j].1@ == pairs@[j].1@,
    {
        let pair: (&str, &str) = pairs[i];
        out.push((pair.0.to_owned(), pair.1.to_owned()));
    }
    assert(pair_texts(out@) =~= borrowed_pair_texts(pairs@));
    out
}

impl Clone for EscapedURI {
    fn clone(&self) -> (r: Self)
        ensures
            r@ == self@,
    {
        proof {
            use_type_invariant(self);
        }
        EscapedURI { uri: self.uri.clone(), fragment: clone_text(&self.fragment) }
    }
}

impl PartialEq for EscapedURI {
    fn eq(&self, other: &EscapedURI) -> (r: bool) {
        self.uri == other.uri && same_maybe_str(as_deref(&self.fragment), as_deref(&other.fragment))
    }
}

impl vstd::std_specs::cmp::PartialEqSpecImpl for EscapedURI {
    open spec fn obeys_eq_spec() -> bool {
        true
    }

    open spec fn eq_spec(&self, other: &EscapedURI) -> bool {
        self@.uri.same_as(other@.uri) && self@.fragment == other@.fragment
    }
}

impl PartialEq<Uri> for EscapedURI {
    fn eq(&self, other: &Uri) -> (r: bool) {
        self.uri == *other && self.fragment.is_none()
    }
}

impl vstd::std_specs::cmp::PartialEqSpecImpl<Uri> for EscapedURI {
    open spec fn obeys_eq_spec() -> bool {
        true
    }

    open spec fn eq_spec(&self, other: &Uri) -> bool {
        self@.uri.same_as(other@) && self@.fragment is None
    }
}

impl<'a> PartialEq<&'a str> for EscapedURI {
    fn eq(&self, other: &&'a str) -> (r: bool) {
        same_text(self.uri.to_text().as_str(), other) && self.fragment.is_none()
    }
}

impl<'a> vstd::std_specs::cmp::PartialEqSpecImpl<&'a str> for EscapedURI {
    open spec fn obeys_eq_spec() -> bool {
        true
    }

    open spec fn eq_spec(&self, other: &&'a str) -> bool {
        self@.uri.text() == other@ && self@.fragment is None
    }
}

impl PartialEq<String> for EscapedURI {
    fn eq(&self, other: &String) -> (r: bool) {
        same_text(self.uri.to_text().as_str(), other.as_str()) && self.fragment.is_none()
    }
}

impl vstd::std_specs::cmp::PartialEqSpecImpl<String> for EscapedURI {
    open spec fn obeys_eq_spec() -> bool {
        true
    }

    open spec fn eq_spec(&self, other: &String) -> bool {
        self@.uri.text() == other@ && self@.fragment is None
    }
}

/// Why an escaped URI is not a plain one: it has a fragment.
#[derive(Debug)]
pub struct FragmentError {
    pub fragment: String,
}

impl FragmentError {
    /// What is reported.
    pub fn message(&self) -> (r: String)
        ensures
            r@ == "can't convert EscapedURI with fragment '"@ + self.fragment@ + "' into Uri"@,
    {
        let mut out: String = String::from_str("can't convert EscapedURI with fragment '");
        out.append(self.fragment.as_str());
        out.append("' into Uri");
        out
    }
}

impl TryFrom<EscapedURI> for Uri {
    type Error = FragmentError;

    fn try_from(value: EscapedURI) -> (r: Result<Uri, FragmentError>)
        ensures
            r is Ok <==> value@.fragment is None,
            r matches Ok(u) ==> u@ == value@.uri,
            r matches Err(e) ==> value@.fragment == Some(e.fragment@),
    {
        match value.fragment {
            Some(fragment) => Err(FragmentError { fragment }),
            None => Ok(value.uri),
        }
    }
}

impl vstd::std_specs::convert::TryFromSpecImpl<EscapedURI> for Uri {
    open spec fn obeys_try_from_spec() -> bool {
        false
    }

    open spec fn try_from_spec(value: EscapedURI) -> Result<Uri, FragmentError> {
        arbitrary()
    }
}

/// Every path that begins at the root leads to a URI, whatever it holds, unless it is very long.
pub proof fn law_rooted_paths_fit(path: Seq<char>)
    requires
        path.len() > 0,
        path[0] == '/',
        12 * path.len() <= MAX_URI_LEN,
    ensures
        path_fits(path),
{
    lemma_escaped_len(path);
}

/// The URI of a path that begins at the root can carry any names and values, whatever they hold,
/// unless they are very long.
pub proof fn law_rooted_paths_carry_queries(path: Seq<char>, pairs: PairTexts)
    requires
        path.len() > 0,
        path[0] == '/',
        12 * (path.len() + pairs_len(pairs)) < MAX_URI_LEN,
    ensures
        EscapedUriText::of_path(path).can_carry(pairs),
{
    lemma_escaped_len(path);
    lemma_escaped_path(path);
    lemma_form_len(pairs);
}

/// A rooted path, encoded, is read as that path alone.
proof fn lemma_rooted_path(path: Seq<char>)
    requires
        path_fits(path),
    ensures
        path.len() > 0 ==> path_and_query_of(escaped_path(path)) == Some(
            PathAndQueryText { path: escaped_path(path), query: None },
        ),
        escaped_path(path).len() > 0 ==> escaped_path(path)[0] != '#',
        escaped_path(path).len() == 0 <==> path.len() == 0,
        EscapedUriText::of_path(path).valid(),
{
    lemma_escaped_path(path);
    lemma_escaped_is_path(path);
    law_escaping_is_idempotent(path);
    let e = escaped_path(path);
    is_ascii_chars_encode_utf8(e);
    if path.len() > 0 {
        if path == seq!['*'] {
            assert(e == path);
            lemma_first_index(e, '#');
        } else {
            let p = PathAndQueryText { path: e, query: None };
            assert(p.text() =~= e);
            lemma_path_and_query_read_back(p);
        }
    } else {
        lemma_escaped_path(Seq::<char>::empty());
        assert(EscapedUriText::of_path(path).uri.path() =~= Seq::<char>::empty());
        assert(escaped_path(Seq::<char>::empty()) =~= Seq::<char>::empty());
    }
}

/// A URI that is made from a path has no query.
proof fn lemma_of_path_has_no_query(path: Seq<char>)
    ensures
        EscapedUriText::of_path(path).uri.query() is None,
        forall|pairs: PairTexts| #[trigger] (query_pairs(None) + pairs) == pairs,
{
    assert forall|pairs: PairTexts| #[trigger] (query_pairs(None) + pairs) == pairs by {
        assert(query_pairs(None) + pairs =~= pairs);
    }
}

/// The path of a URI and a serialized query are read as what they are.
proof fn lemma_query_can_follow(u: EscapedUriText, pairs: PairTexts, text: Seq<char>)
    requires
        u.valid(),
        u.can_carry(pairs),
        text == u.uri.path().push('?') + form_text(pairs),
    ensures
        path_and_query_of(text) == u.with_pairs(pairs).uri.path_and_query,
        u.with_pairs(pairs).valid(),
{
    let path = u.uri.path();
    let query = form_text(pairs);
    law_form_text_is_plain(pairs);
    lemma_escaped_path(path);
    assert forall|i: int| 0 <= i < text.len() implies '\0' <= #[trigger] text[i] <= '\u{7f}' by {
        if i < path.len() {
            assert(text[i] == path[i]);
            assert(path[i] == escaped_path(path)[i]);
        } else if i > path.len() {
            assert(text[i] == query[i - path.len() - 1]);
            assert(is_form_char(text[i]));
        } else {
            assert(text[i] == '?');
        }
    }
    assert(is_ascii_chars(text));
    is_ascii_chars_encode_utf8(text);
    assert forall|i: int| 0 <= i < query.len() implies is_query_char(#[trigger] query[i]) by {
        assert(is_form_char(query[i]));
    }
    let p = u.with_pairs(pairs).uri.path_and_query.unwrap();
    if path.len() > 0 {
        assert(p.text() =~= text);
        lemma_path_and_query_read_back(p);
    } else {
        lemma_first_index(text, '#');
        lemma_first_index(text, '?');
        assert(text[0] == '?');
        assert(text.contains(text[0]));
        assert(text.take(0) =~= Seq::<char>::empty());
        assert(text.skip(1) =~= query);
        assert forall|i: int| 0 <= i < text.len() implies text[i] != '#' by {
            if i > 0 {
                assert(text[i] == query[i - 1]);
            }
        }
        assert(first_index(text, '#') is None);
        lemma_escaped_path(seq!['/']);
        lemma_root_is_escaped();
    }
}

/// What an encoded path holds may stand in a path.
pub proof fn lemma_escaped_is_path(path: Seq<char>)
    ensures
        all_path_chars(escaped_path(path)),
{
    lemma_escaped_path(path);
    let e = escaped_path(path);
    assert forall|i: int| 0 <= i < e.len() implies is_path_char(#[trigger] e[i]) by {
        assert(!is_escaped_byte(e[i] as u8));
    }
}

/// The root is encoded as itself.
proof fn lemma_root_is_escaped()
    ensures
        escaped_path(seq!['/']) == seq!['/'],
{
    let root = seq!['/'];
    is_ascii_chars_encode_utf8(root);
    let e = encode_utf8(root);
    assert(e =~= seq![0x2fu8]);
    assert(e.drop_first() =~= Seq::<u8>::empty());
    assert(escaped_bytes(Seq::<u8>::empty()) =~= Seq::<char>::empty());
    assert(escaped_path(root) =~= root);
}

/// The URI of a path is that path, percent-encoded, and has no query, no fragment and no host.
pub proof fn law_paths_become_uris(path: Seq<char>)
    ensures
        ({
            let u = EscapedUriText::of_path(path);
            &&& u.uri.path() == escaped_path(path)
            &&& u.uri.query() is None
            &&& u.uri.scheme is None
            &&& u.uri.authority is None
            &&& u.fragment is None
            &&& u.text() == escaped_path(path)
        }),
{
    let u = EscapedUriText::of_path(path);
    lemma_escaped_path(path);
    if path.len() == 0 {
        assert(escaped_path(path) =~= Seq::<char>::empty());
    }
    assert(u.text() =~= escaped_path(path));
}

/// Encoding the path of a URI leaves its query, its host and its scheme as they are, and a path
/// that is encoded already.
pub proof fn law_encoding_leaves_the_rest(uri: UriText)
    requires
        uri.valid(),
    ensures
        with_escaped_path(uri).path() == escaped_path(uri.path()),
        with_escaped_path(uri).query() == uri.query(),
        with_escaped_path(uri).scheme == uri.scheme,
        with_escaped_path(uri).authority == uri.authority,
        escaped_path(uri.path()) == uri.path() ==> with_escaped_path(uri) == uri,
        with_escaped_path(with_escaped_path(uri)) == with_escaped_path(uri),
{
    lemma_escaped_path(uri.path());
    law_escaping_is_idempotent(uri.path());
    if uri.path_and_query is None {
        assert(escaped_path(uri.path()) =~= uri.path());
    }
}

/// Adding to the query of a URI keeps its path, its host and its scheme. Adding nothing changes
/// nothing. The query then holds what it held, and behind it what was added.
pub proof fn law_appending_keeps_the_rest(u: EscapedUriText, pairs: PairTexts)
    requires
        u.uri.path().len() > 0,
    ensures
        ({
            let r = u.appended(pairs);
            &&& r.uri.path() == u.uri.path()
            &&& r.uri.scheme == u.uri.scheme
            &&& r.uri.authority == u.uri.authority
            &&& pairs.len() == 0 ==> r == u
            &&& pairs.len() > 0 ==> r.fragment is None && r.uri.query() == Some(
                form_text(query_pairs(u.uri.query()) + pairs),
            )
            &&& pairs.len() > 0 && u.uri.query() is None ==> r.uri.query() == Some(form_text(pairs))
        }),
{
    assert(Seq::<(Seq<char>, Seq<char>)>::empty() + pairs =~= pairs);
}

/// Two URIs on this site are equal exactly where they are written alike.
pub proof fn law_uris_are_compared_by_their_text(a: UriText, b: UriText)
    requires
        a.valid(),
        b.valid(),
        a.scheme is None && a.authority is None,
        b.scheme is None && b.authority is None,
    ensures
        a.same_as(b) <==> a.text() == b.text(),
{
    let p = a.path();
    let q = b.path();
    let x = query_suffix(a.query());
    let y = query_suffix(b.query());
    assert(a.text() =~= p + x);
    assert(b.text() =~= q + y);
    let kind = |c: char| c != '?';
    assert forall|i: int| 0 <= i < p.len() implies kind(#[trigger] p[i]) by {
        assert(is_path_char(a.path_and_query.unwrap().path[i]));
    }
    assert forall|i: int| 0 <= i < q.len() implies kind(#[trigger] q[i]) by {
        assert(is_path_char(b.path_and_query.unwrap().path[i]));
    }
    if a.text() == b.text() {
        lemma_split_is_unique(p, x, q, y, kind);
        if let Some(s) = a.query() {
            assert(s =~= x.skip(1));
        }
        if let Some(t) = b.query() {
            assert(t =~= y.skip(1));
        }
    }
}

/// The fragment of a URI is what stands behind the number sign in its text, and the URI is what
/// stands before it.
pub proof fn law_fragment_ends_the_text(u: EscapedUriText)
    ensures
        u.fragment is None ==> u.text() == u.uri.text(),
        u.fragment matches Some(f) ==> u.text() == u.uri.text() + "#"@ + f,
{
    reveal_strlit("#");
    assert("#"@ =~= seq!['#']);
}

/// A query that is added where there is no path stands behind the root.
pub proof fn law_queries_without_a_path_are_of_the_root(u: EscapedUriText, pairs: PairTexts)
    requires
        u.uri.path().len() == 0,
        pairs.len() > 0,
    ensures
        u.appended(pairs).uri.path() == "/"@,
        u.appended(pairs).uri.query() is Some,
        u.appended(pairs).fragment is None,
{
    reveal_strlit("/");
    assert("/"@ =~= seq!['/']);
}

} // verus!
