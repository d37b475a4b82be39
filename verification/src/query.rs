//! Query strings: lists of names and values in the `application/x-www-form-urlencoded` syntax.
use crate::percent::{lemma_utf8_len, triplet};
use vstd::prelude::*;
use vstd::utf8::encode_utf8;

verus! {

/// A list of names, each with its value.
pub type PairTexts = Seq<(Seq<char>, Seq<char>)>;

/// What a list of owned pairs holds.
pub open spec fn pair_texts(pairs: Seq<(String, String)>) -> PairTexts {
    pairs.map_values(|p: (String, String)| (p.0@, p.1@))
}

/// What a list of borrowed pairs holds.
pub open spec fn borrowed_pair_texts(pairs: Seq<(&str, &str)>) -> PairTexts {
    pairs.map_values(|p: (&str, &str)| (p.0@, p.1@))
}

/// The bytes that stand for themselves in a name or a value.
pub open spec fn is_plain_form_byte(b: u8) -> bool {
    ||| b == 0x2a  // *
    ||| b == 0x2d  // -
    ||| b == 0x2e  // .
    ||| 0x30 <= b <= 0x39
    ||| 0x41 <= b <= 0x5a
    ||| b == 0x5f  // _
    ||| 0x61 <= b <= 0x7a
}

/// What one byte of a name or a value becomes.
pub open spec fn form_byte(b: u8) -> Seq<char> {
    if is_plain_form_byte(b) {
        seq![b as char]
    } else if b == 0x20 {
        seq!['+']
    } else {
        triplet(b)
    }
}

/// What the bytes of a name or a value become.
pub open spec fn form_bytes(bytes: Seq<u8>) -> Seq<char>
    decreases bytes.len(),
{
    if bytes.len() == 0 {
        Seq::empty()
    } else {
        form_bytes(bytes.drop_last()) + form_byte(bytes.last())
    }
}

/// A name and its value as a query holds them.
pub open spec fn form_pair(pair: (Seq<char>, Seq<char>)) -> Seq<char> {
    form_bytes(encode_utf8(pair.0)).push('=') + form_bytes(encode_utf8(pair.1))
}

/// The query that holds the pairs, in order.
pub open spec fn form_text(pairs: PairTexts) -> Seq<char>
    decreases pairs.len(),
{
    if pairs.len() == 0 {
        Seq::empty()
    } else if pairs.len() == 1 {
        form_pair(pairs[0])
    } else {
        form_text(pairs.drop_last()).push('&') + form_pair(pairs.last())
    }
}

/// How many characters a list of pairs holds, with one for each name and for each value.
pub open spec fn pairs_len(pairs: PairTexts) -> nat
    decreases pairs.len(),
{
    if pairs.len() == 0 {
        0
    } else {
        pairs_len(pairs.drop_last()) + pairs.last().0.len() + pairs.last().1.len() + 2
    }
}

/// What `form_urlencoded::parse` reads from a query.
pub uninterp spec fn form_pairs(query: Seq<u8>) -> Seq<(Seq<char>, Seq<char>)>;

/// `form_urlencoded::parse` splits a query into its names and values and decodes each of them.
/// What it makes of a given query is left open, beyond that it is the same every time; that it
/// reads back what was serialized stands with the serializer.
#[verifier::external_body]
pub(crate) fn parse_form(query: &[u8]) -> (r: Vec<(String, String)>)
    ensures
        pair_texts(r@) == form_pairs(query@),
{
    url::form_urlencoded::parse(query).into_owned().collect()
}

/// `form_urlencoded::Serializer` writes the pairs, encoded, with `=` and `&` between them, and
/// `form_urlencoded::parse` reads the same pairs from what was written.
#[verifier::external_body]
pub(crate) fn serialize_form(pairs: &Vec<(String, String)>) -> (r: String)
    ensures
        r@ == form_text(pair_texts(pairs@)),
        form_pairs(encode_utf8(r@)) == pair_texts(pairs@),
{
    url::form_urlencoded::Serializer::new(String::new()).extend_pairs(pairs.iter()).finish()
}

/// The characters of a serialized query.
pub open spec fn is_form_char(c: char) -> bool {
    ||| c == '%'
    ||| c == '&'
    ||| c == '*'
    ||| c == '+'
    ||| c == '-'
    ||| c == '.'
    ||| '0' <= c <= '9'
    ||| c == '='
    ||| 'A' <= c <= 'Z'
    ||| c == '_'
    ||| 'a' <= c <= 'z'
}

proof fn lemma_form_bytes_chars(bytes: Seq<u8>)
    ensures
        forall|i: int|
            0 <= i < form_bytes(bytes).len() ==> is_form_char(#[trigger] form_bytes(bytes)[i]),
    decreases bytes.len(),
{
    if bytes.len() > 0 {
        lemma_form_bytes_chars(bytes.drop_last());
        let front = form_bytes(bytes.drop_last());
        let all = form_bytes(bytes);
        assert forall|i: int| 0 <= i < all.len() implies is_form_char(#[trigger] all[i]) by {
            if i < front.len() {
                assert(all[i] == front[i]);
            } else {
                assert(all[i] == form_byte(bytes.last())[i - front.len()]);
            }
        }
    }
}

proof fn lemma_form_bytes_len(bytes: Seq<u8>)
    ensures
        form_bytes(bytes).len() <= 3 * bytes.len(),
    decreases bytes.len(),
{
    if bytes.len() > 0 {
        lemma_form_bytes_len(bytes.drop_last());
    }
}

/// A character becomes at most twelve when a query is serialized.
pub proof fn lemma_form_len(pairs: PairTexts)
    ensures
        form_text(pairs).len() <= 12 * pairs_len(pairs),
    decreases pairs.len(),
{
    if pairs.len() > 0 {
        let name = pairs.last().0;
        let value = pairs.last().1;
        lemma_utf8_len(name);
        lemma_utf8_len(value);
        lemma_form_bytes_len(encode_utf8(name));
        lemma_form_bytes_len(encode_utf8(value));
        lemma_form_len(pairs.drop_last());
    }
}

/// A serialized query holds letters, digits and a handful of signs, whatever its pairs hold.
pub proof fn law_form_text_is_plain(pairs: PairTexts)
    ensures
        forall|i: int| 0 <= i < form_text(pairs).len() ==> is_form_char(#[trigger] form_text(pairs)[i]),
    decreases pairs.len(),
{
    if pairs.len() > 0 {
        let last = form_pair(pairs.last());
        lemma_form_bytes_chars(encode_utf8(pairs.last().0));
        lemma_form_bytes_chars(encode_utf8(pairs.last().1));
        let k = form_bytes(encode_utf8(pairs.last().0));
        let v = form_bytes(encode_utf8(pairs.last().1));
        assert forall|i: int| 0 <= i < last.len() implies is_form_char(#[trigger] last[i]) by {
            if i < k.len() {
                assert(last[i] == k[i]);
            } else if i > k.len() {
                assert(last[i] == v[i - k.len() - 1]);
            }
        }
        if pairs.len() > 1 {
            law_form_text_is_plain(pairs.drop_last());
            let front = form_text(pairs.drop_last());
            let all = form_text(pairs);
            assert forall|i: int| 0 <= i < all.len() implies is_form_char(#[trigger] all[i]) by {
                if i < front.len() {
                    assert(all[i] == front[i]);
                } else if i > front.len() {
                    assert(all[i] == last[i - front.len() - 1]);
                }
            }
        }
    }
}

} // verus!
