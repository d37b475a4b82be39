//! Values of HTTP headers, and the keys by which cached responses are purged.
use crate::text::{joined, lemma_pieces_of_joined, pieces, same_text};
use vstd::prelude::*;
use vstd::string::StringExecFns;
use vstd::utf8::{encode_scalar, encode_utf8};

verus! {

/// The bytes that `http` accepts in the value of a header.
pub open spec fn is_header_byte(b: u8) -> bool {
    (b >= 32 && b != 127) || b == 9
}

/// Whether `text` can be the value of a header.
pub open spec fn is_header_text(text: Seq<char>) -> bool {
    forall|i: int| 0 <= i < encode_utf8(text).len() ==> is_header_byte(#[trigger] encode_utf8(text)[i])
}

/// The error that `http` gives for a text that is no header value.
#[verifier::external_type_specification]
#[verifier::external_body]
pub struct ExInvalidHeaderValue(http::header::InvalidHeaderValue);

/// `http::HeaderValue::from_str` accepts a text exactly where every byte of it may stand in the
/// value of a header.
#[verifier::external_body]
fn check_header_value(text: &str) -> (r: Result<(), http::header::InvalidHeaderValue>)
    ensures
        r is Ok <==> is_header_text(text@),
{
    http::HeaderValue::from_str(text).map(|_| ())
}

/// Why a text is no header value.
#[derive(Clone, Copy, Debug, PartialEq, Eq, Structural)]
pub enum HeaderError {
    /// It holds a control character.
    Invalid,
}

/// The value of a header.
#[derive(Debug)]
pub struct HeaderValue {
    text: String,
}

impl View for HeaderValue {
    type V = Seq<char>;

    closed spec fn view(&self) -> Seq<char> {
        self.text@
    }
}

impl HeaderValue {
    #[verifier::type_invariant]
    pub open spec fn well_formed(self) -> bool {
        is_header_text(self@)
    }

    /// Takes a text for the value of a header, where it can be one.
    pub fn parse(text: String) -> (r: Result<HeaderValue, HeaderError>)
        ensures
            r is Ok <==> is_header_text(text@),
            r matches Ok(v) ==> v@ == text@,
            r matches Err(e) ==> e == HeaderError::Invalid,
    {
        match check_header_value(text.as_str()) {
            Ok(_) => Ok(HeaderValue { text }),
            Err(_) => Err(HeaderError::Invalid),
        }
    }

    /// The value of a header, which is known to be one.
    pub fn from_static(text: &'static str) -> (r: HeaderValue)
        requires
            is_header_text(text@),
        ensures
            r@ == text@,
    {
        HeaderValue { text: text.to_owned() }
    }

    /// The value as text.
    pub fn as_str(&self) -> (r: &str)
        ensures
            r@ == self@,
            is_header_text(r@),
    {
        proof {
            use_type_invariant(self);
        }
        self.text.as_str()
    }
}

impl Clone for HeaderValue {
    fn clone(&self) -> (r: Self)
        ensures
            r@ == self@,
    {
        proof {
            use_type_invariant(self);
        }
        HeaderValue { text: self.text.clone() }
    }
}

impl PartialEq for HeaderValue {
    fn eq(&self, other: &HeaderValue) -> (r: bool) {
        same_text(self.text.as_str(), other.text.as_str())
    }
}

impl vstd::std_specs::cmp::PartialEqSpecImpl for HeaderValue {
    open spec fn obeys_eq_spec() -> bool {
        true
    }

    open spec fn eq_spec(&self, other: &HeaderValue) -> bool {
        self@ == other@
    }
}

/// A text of printable ASCII characters can be the value of a header.
pub proof fn lemma_ascii_header_text(text: Seq<char>)
    requires
        forall|i: int| 0 <= i < text.len() ==> ' ' <= #[trigger] text[i] <= '~',
    ensures
        is_header_text(text),
{
    assert(vstd::utf8::is_ascii_chars(text));
    vstd::utf8::is_ascii_chars_encode_utf8(text);
    let b = encode_utf8(text);
    assert forall|i: int| 0 <= i < b.len() implies is_header_byte(#[trigger] b[i]) by {
        assert(b[i] == text[i] as u8);
    }
}

/// The bytes of a character that is no control character may stand in a header.
proof fn lemma_scalar_header_bytes(c: char)
    requires
        c >= ' ',
        c != '\u{7f}',
    ensures
        forall|i: int|
            0 <= i < encode_scalar(c as u32).len() ==> is_header_byte(
                #[trigger] encode_scalar(c as u32)[i],
            ),
{
    let v = c as u32;
    assert(v <= 0x7f ==> (v & 0x7f) as u8 == v as u8) by (bit_vector);
    assert(0xC0u8 | ((v >> 6) & 0x1F) as u8 >= 0x80u8) by (bit_vector);
    assert(0xE0u8 | ((v >> 12) & 0x0F) as u8 >= 0x80u8) by (bit_vector);
    assert(0xF0u8 | ((v >> 18) & 0x7) as u8 >= 0x80u8) by (bit_vector);
    assert(0x80u8 | (v & 0x3F) as u8 >= 0x80u8) by (bit_vector);
    assert(0x80u8 | ((v >> 6) & 0x3F) as u8 >= 0x80u8) by (bit_vector);
    assert(0x80u8 | ((v >> 12) & 0x3F) as u8 >= 0x80u8) by (bit_vector);
}

/// A text without control characters can be the value of a header.
pub proof fn lemma_printable_header_text(text: Seq<char>)
    requires
        forall|i: int| 0 <= i < text.len() ==> #[trigger] text[i] >= ' ' && text[i] != '\u{7f}',
    ensures
        is_header_text(text),
    decreases text.len(),
{
    if text.len() > 0 {
        let rest = text.drop_first();
        assert forall|i: int| 0 <= i < rest.len() implies #[trigger] rest[i] >= ' ' && rest[i]
            != '\u{7f}' by {
            assert(rest[i] == text[i + 1]);
        }
        lemma_printable_header_text(rest);
        lemma_scalar_header_bytes(text[0]);
        let first = encode_scalar(text[0] as u32);
        let all = encode_utf8(text);
        assert(all == first + encode_utf8(rest));
        assert forall|i: int| 0 <= i < all.len() implies is_header_byte(#[trigger] all[i]) by {
            if i < first.len() {
                assert(all[i] == first[i]);
            } else {
                assert(all[i] == encode_utf8(rest)[i - first.len()]);
            }
        }
    }
}

/// The keys that a response is tagged with in the cache of the CDN, each of them once.
#[derive(Debug)]
pub struct SurrogateKeys {
    keys: Vec<HeaderValue>,
}

/// What a list of header values holds.
pub open spec fn header_texts(v: Seq<HeaderValue>) -> Seq<Seq<char>> {
    v.map_values(|h: HeaderValue| h@)
}

/// The value of the header that lists keys.
pub open spec fn keys_text(keys: Seq<Seq<char>>) -> Seq<char> {
    joined(keys, " "@)
}

/// The keys with one more, which is added where it is missing.
pub open spec fn with_key(keys: Seq<Seq<char>>, key: Seq<char>) -> Seq<Seq<char>> {
    if keys.contains(key) {
        keys
    } else {
        keys.push(key)
    }
}

impl View for SurrogateKeys {
    type V = Seq<Seq<char>>;

    closed spec fn view(&self) -> Seq<Seq<char>> {
        header_texts(self.keys@)
    }
}

impl SurrogateKeys {
    #[verifier::type_invariant]
    pub open spec fn well_formed(self) -> bool {
        self@.no_duplicates()
    }

    /// No keys.
    pub fn new() -> (r: SurrogateKeys)
        ensures
            r@ == Seq::<Seq<char>>::empty(),
    {
        let keys: Vec<HeaderValue> = Vec::new();
        assert(header_texts(keys@) =~= Seq::<Seq<char>>::empty());
        SurrogateKeys { keys }
    }

    /// One key.
    pub fn from_key(key: HeaderValue) -> (r: SurrogateKeys)
        ensures
            r@ == seq![key@],
    {
        let r: SurrogateKeys = SurrogateKeys::new().with(key);
        assert(r@ =~= seq![key@]);
        r
    }

    fn holds(&self, key: &HeaderValue) -> (r: bool)
        ensures
            r == self@.contains(key@),
    {
        let n: usize = self.keys.len();
        for i in 0..n
            invariant
                n == self.keys@.len(),
                forall|j: int| 0 <= j < i ==> self.keys@[j]@ != key@,
        {
            if self.keys[i] == *key {
                assert(self@[i as int] == key@);
                return true;
            }
        }
        assert forall|j: int| 0 <= j < self@.len() implies self@[j] != key@ by {
            assert(self@[j] == self.keys@[j]@);
        }
        false
    }

    /// The keys with one more.
    pub fn with(self, key: HeaderValue) -> (r: SurrogateKeys)
        ensures
            r@ == with_key(self@, key@),
            r@.contains(key@),
    {
        proof {
            use_type_invariant(&self);
        }
        if self.holds(&key) {
            return self;
        }
        let ghost before = self@;
        let mut keys: Vec<HeaderValue> = self.keys;
        keys.push(key);
        proof {
            assert(header_texts(keys@) =~= before.push(key@));
            let all = before.push(key@);
            assert forall|i: int, j: int| 0 <= i < all.len() && 0 <= j < all.len() && i != j implies all[i]
                != all[j] by {
                if i == before.len() {
                    assert(before.contains(before[j]));
                } else if j == before.len() {
                    assert(before.contains(before[i]));
                }
            }
            assert(all[before.len() as int] == key@);
        }
        SurrogateKeys { keys }
    }

    /// The header value that lists the keys.
    pub fn to_text(&self) -> (r: String)
        ensures
            r@ == keys_text(self@),
    {
        let mut out: String = String::new();
        let n: usize = self.keys.len();
        let ghost all = self@;
        assert(all.take(0) =~= Seq::<Seq<char>>::empty());
        for i in 0..n
            invariant
                n == self.keys@.len(),
                all == header_texts(self.keys@),
                out@ == joined(all.take(i as int), " "@),
        {
            assert(all.take(i + 1).drop_last() =~= all.take(i as int));
            assert(all[i as int] == self.keys@[i as int]@);
            if i > 0 {
                out.append(" ");
            }
            out.append(self.keys[i].as_str());
            if i == 0 {
                assert(out@ =~= all[0]);
            }
        }
        assert(all.take(n as int) =~= all);
        out
    }
}

impl Clone for SurrogateKeys {
    fn clone(&self) -> (r: Self)
        ensures
            r@ == self@,
    {
        proof {
            use_type_invariant(self);
        }
        let mut keys: Vec<HeaderValue> = Vec::new();
        let n: usize = self.keys.len();
        for i in 0..n
            invariant
                n == self.keys@.len(),
                keys@.len() == i,
                forall|j: int| 0 <= j < i ==> (#[trigger] keys@[j])@ == self.keys@[j]@,
        {
            keys.push(self.keys[i].clone());
        }
        assert(header_texts(keys@) =~= header_texts(self.keys@));
        SurrogateKeys { keys }
    }
}

impl PartialEq for SurrogateKeys {
    fn eq(&self, other: &SurrogateKeys) -> (r: bool) {
        let n: usize = self.keys.len();
        let mut same: bool = n == other.keys.len();
        let mut i: usize = 0;
        assert(self@.len() == n && other@.len() == other.keys@.len());
        while same && i < n
            invariant
                n == self.keys@.len(),
                i <= n,
                same ==> n == other.keys@.len(),
                same ==> forall|j: int|
                    0 <= j < i ==> (#[trigger] self.keys@[j])@ == other.keys@[j]@,
                !same ==> self@ != other@,
            decreases n - i,
        {
            if self.keys[i] != other.keys[i] {
                assert(self@[i as int] != other@[i as int]);
                same = false;
            }
            i = i + 1;
        }
        proof {
            if same {
                assert(self@ =~= other@);
            }
        }
        same
    }
}

impl vstd::std_specs::cmp::PartialEqSpecImpl for SurrogateKeys {
    open spec fn obeys_eq_spec() -> bool {
        true
    }

    open spec fn eq_spec(&self, other: &SurrogateKeys) -> bool {
        self@ == other@
    }
}

/// The keys in a header are read as they were given, where no key has a space in it.
pub proof fn law_keys_are_told_apart(keys: Seq<Seq<char>>)
    requires
        keys.len() > 0,
        forall|i: int| 0 <= i < keys.len() ==> !(#[trigger] keys[i]).contains(' '),
    ensures
        pieces(keys_text(keys), ' ') == keys,
{
    reveal_strlit(" ");
    assert(" "@ =~= seq![' ']);
    lemma_pieces_of_joined(keys, ' ');
}

/// Adding a key keeps all others in their order, and adds it once at most.
pub proof fn law_adding_a_key_keeps_the_others(keys: Seq<Seq<char>>, key: Seq<char>)
    requires
        keys.no_duplicates(),
    ensures
        with_key(keys, key).no_duplicates(),
        with_key(keys, key).contains(key),
        keys.is_prefix_of(with_key(keys, key)),
        with_key(keys, key).len() <= keys.len() + 1,
        with_key(with_key(keys, key), key) == with_key(keys, key),
{
    let all = with_key(keys, key);
    assert(all.take(keys.len() as int) =~= keys);
    if !keys.contains(key) {
        assert(all[keys.len() as int] == key);
        assert forall|i: int, j: int| 0 <= i < all.len() && 0 <= j < all.len() && i != j implies all[i]
            != all[j] by {
            if i == keys.len() {
                assert(keys.contains(keys[j]));
            } else if j == keys.len() {
                assert(keys.contains(keys[i]));
            }
        }
    }
}

} // verus!
