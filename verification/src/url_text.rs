//! URLs as text, in the form that the `url` crate gives them.
use crate::text::{joined, texts};
use vstd::prelude::*;

verus! {

/// Whether a URL that is made from so many characters is sure to be one that `url` can hold: it
/// counts the bytes of a URL in 32 bits, and a character takes at most twelve of them.
pub open spec fn is_url_sized(chars: nat) -> bool {
    16 * (chars + 16) <= u32::MAX
}

/// The error that `url` gives.
#[verifier::external_type_specification]
#[verifier::external_body]
pub struct ExUrlParseError(url::ParseError);

/// How `url` writes the URL that it reads from a text.
pub uninterp spec fn normalized_url(text: Seq<char>) -> Option<Seq<char>>;

/// `url::Url::parse` reads a URL and its `Display` writes it. Which texts are URLs, and how they
/// are written, is left open.
#[verifier::external_body]
pub(crate) fn parse_url(text: &str) -> (r: Result<String, url::ParseError>)
    ensures
        r is Ok <==> normalized_url(text@) is Some,
        r matches Ok(s) ==> normalized_url(text@) == Some(s@),
{
    url::Url::parse(text).map(|u| u.to_string())
}

/// How `url` writes a URL that segments were added to the path of.
pub uninterp spec fn extended_url(base: Seq<char>, segments: Seq<Seq<char>>) -> Option<Seq<char>>;

/// `extend` on what `url::Url::path_segments_mut` gives adds segments, percent-encoded, to the
/// path of a URL. A text that is no URL, or a URL that has no path to add to, gives nothing. How
/// the segments are written is left open.
#[verifier::external_body]
pub(crate) fn extend_path_segments(base: &str, segments: &Vec<&str>) -> (r: Option<String>)
    requires
        is_url_sized(base@.len() + joined(texts(segments@), "/"@).len()),
    ensures
        r is Some <==> extended_url(base@, texts(segments@)) is Some,
        r matches Some(s) ==> extended_url(base@, texts(segments@)) == Some(s@),
{
    let mut url = url::Url::parse(base).ok()?;
    url.path_segments_mut().ok()?.extend(segments);
    Some(url.to_string())
}

/// How `url` writes a URL that segments were added to the path of and whose query was then replaced.
pub uninterp spec fn requeried_url(
    base: Seq<char>,
    segments: Seq<Seq<char>>,
    query: Seq<char>,
) -> Option<Seq<char>>;

/// `url::Url::set_query` replaces the query of a URL, here of one that segments were added to the
/// path of, and escapes in the new query what cannot stand in one. A text that is no URL, or a URL
/// that has no path to add to, gives nothing. How the URL is written is left open. What is counted
/// in 32 bits is where the query begins and, in a URL with a fragment, where it ends.
#[verifier::external_body]
pub(crate) fn set_url_query(base: &str, segments: &Vec<&str>, query: &str) -> (r: Option<String>)
    requires
        is_url_sized(base@.len() + joined(texts(segments@), "/"@).len()),
        base@.contains('#') ==> is_url_sized(
            base@.len() + joined(texts(segments@), "/"@).len() + query@.len(),
        ),
    ensures
        r is Some <==> requeried_url(base@, texts(segments@), query@) is Some,
        r matches Some(s) ==> requeried_url(base@, texts(segments@), query@) == Some(s@),
{
    let mut url = url::Url::parse(base).ok()?;
    url.path_segments_mut().ok()?.extend(segments);
    url.set_query(Some(query));
    Some(url.to_string())
}

} // verus!
