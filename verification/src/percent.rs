//! Percent-encoding of URL paths.
use vstd::prelude::*;
use vstd::utf8::{
    decode_utf8, encode_scalar, encode_utf8, encode_utf8_decode_utf8, encode_utf8_valid_utf8, is_ascii_chars,
    is_ascii_chars_encode_utf8, valid_utf8,
};

verus! {

/// The digit for `n`, which is below sixteen, in upper-case hexadecimal.
pub open spec fn upper_hex(n: int) -> char {
    if n < 10 {
        (0x30 + n) as char
    } else {
        (0x37 + n) as char
    }
}

/// What the hexadecimal digit `b`, in either case, stands for.
pub open spec fn hex_value(b: u8) -> Option<int> {
    if 0x30 <= b <= 0x39 {
        Some(b - 0x30)
    } else if 0x41 <= b <= 0x46 {
        Some(b - 0x37)
    } else if 0x61 <= b <= 0x66 {
        Some(b - 0x57)
    } else {
        None
    }
}

/// A percent sign and the two hexadecimal digits of `b`.
pub open spec fn triplet(b: u8) -> Seq<char> {
    seq!['%', upper_hex(b as int / 16), upper_hex(b as int % 16)]
}

/// The bytes that do not stand for themselves in the path of a URL: the controls, everything
/// that is not ASCII, and the characters that end a path or need quoting in one.
pub open spec fn is_escaped_byte(b: u8) -> bool {
    ||| b <= 0x20
    ||| b >= 0x7f
    ||| b == 0x22  // "
    ||| b == 0x23  // #
    ||| b == 0x3c  // <
    ||| b == 0x3e  // >
    ||| b == 0x3f  // ?
    ||| b == 0x60  // `
    ||| b == 0x7b  // {
    ||| b == 0x7d  // }
}

/// What one byte becomes in a path.
pub open spec fn escaped_byte(b: u8) -> Seq<char> {
    if is_escaped_byte(b) {
        triplet(b)
    } else {
        seq![b as char]
    }
}

/// What a sequence of bytes becomes in a path.
pub open spec fn escaped_bytes(bytes: Seq<u8>) -> Seq<char>
    decreases bytes.len(),
{
    if bytes.len() == 0 {
        Seq::empty()
    } else {
        escaped_byte(bytes[0]) + escaped_bytes(bytes.drop_first())
    }
}

/// The percent-encoded form of a path.
pub open spec fn escaped_path(path: Seq<char>) -> Seq<char> {
    escaped_bytes(encode_utf8(path))
}

/// `bytes` with every percent sign that two hexadecimal digits follow replaced, together with
/// them, by the byte that they stand for.
pub open spec fn percent_decoded(bytes: Seq<u8>) -> Seq<u8>
    decreases bytes.len(),
{
    if bytes.len() == 0 {
        Seq::empty()
    } else if starts_with_escape(bytes) {
        seq![(hex_value(bytes[1]).unwrap() * 16 + hex_value(bytes[2]).unwrap()) as u8]
            + percent_decoded(bytes.skip(3))
    } else {
        seq![bytes[0]] + percent_decoded(bytes.skip(1))
    }
}

/// Whether a percent sign and two hexadecimal digits come first.
pub open spec fn starts_with_escape(bytes: Seq<u8>) -> bool {
    bytes.len() >= 3 && bytes[0] == 0x25 && hex_value(bytes[1]) is Some && hex_value(
        bytes[2],
    ) is Some
}

/// Whether a percent sign and two hexadecimal digits stand anywhere.
pub open spec fn holds_escape(bytes: Seq<u8>) -> bool {
    exists|i: int| 0 <= i < bytes.len() && #[trigger] starts_with_escape(bytes.skip(i))
}

/// `percent_encoding::percent_encode_byte` gives a percent sign followed by the byte's two
/// hexadecimal digits, in upper case.
pub assume_specification[ percent_encoding::percent_encode_byte ](byte: u8) -> (r: &'static str)
    ensures
        r@ == triplet(byte),
;

/// What `Utf8Error`'s `Display` says of bytes that are not UTF-8, which is where they stop being it.
pub uninterp spec fn utf8_error_text(bytes: Seq<u8>) -> Seq<char>;

/// `percent_encoding::percent_decode` replaces each percent sign that two hexadecimal digits
/// follow by the byte they stand for, and `decode_utf8` on its result succeeds exactly where the
/// bytes that come out are UTF-8, with the text that they hold. The words of the error are left
/// open, beyond that they are the same for the same bytes.
#[verifier::external_body]
fn percent_decode_utf8(input: &[u8]) -> (r: Result<String, String>)
    ensures
        r is Ok <==> valid_utf8(percent_decoded(input@)),
        r matches Ok(s) ==> s@ == decode_utf8(percent_decoded(input@)),
        r matches Err(e) ==> e@ == utf8_error_text(percent_decoded(input@)),
{
    let decoded = percent_encoding::percent_decode(input).decode_utf8();
    decoded.map(|s| s.into_owned()).map_err(|e| e.to_string())
}

/// Why a piece of a URL could not be decoded: the bytes that it stands for are not UTF-8.
#[derive(Debug)]
pub struct UrlDecodeError {
    /// Where they stop being UTF-8.
    pub message: String,
}

/// What a piece of a URL says, where it is percent-encoded UTF-8.
pub open spec fn url_decoded(input: Seq<char>) -> Option<Seq<char>> {
    let bytes = percent_decoded(encode_utf8(input));
    if valid_utf8(bytes) {
        Some(decode_utf8(bytes))
    } else {
        None
    }
}

/// What is reported of a piece of a URL that is not percent-encoded UTF-8.
pub open spec fn url_decode_message(input: Seq<char>) -> Seq<char> {
    utf8_error_text(percent_decoded(encode_utf8(input)))
}

/// Undoes the percent-encoding of a piece of a URL.
pub fn url_decode(input: &str) -> (r: Result<String, UrlDecodeError>)
    ensures
        r is Ok <==> url_decoded(input@) is Some,
        r matches Ok(s) ==> url_decoded(input@) == Some(s@),
        r matches Err(e) ==> e.message@ == url_decode_message(input@),
{
    match percent_decode_utf8(input.as_bytes()) {
        Ok(s) => Ok(s),
        Err(message) => Err(UrlDecodeError { message }),
    }
}

/// Whether `b` is written as an escape in a path.
fn escapes(b: u8) -> (r: bool)
    ensures
        r == is_escaped_byte(b),
{
    b <= 0x20 || b >= 0x7f || b == 0x22 || b == 0x23 || b == 0x3c || b == 0x3e || b == 0x3f || b
        == 0x60 || b == 0x7b || b == 0x7d
}

/// Percent-encodes what cannot stand in the path of a URL. A percent sign is left alone, so a
/// path that is encoded already stays as it is.
pub fn encode_url_path(path: &str) -> (r: String)
    ensures
        r@ == escaped_path(path@),
{
    let bytes: &[u8] = path.as_bytes();
    let n: usize = bytes.len();
    let mut out: String = String::new();
    assert(bytes@.skip(0) =~= bytes@);
    for i in 0..n
        invariant
            n == bytes@.len(),
            out@ + escaped_bytes(bytes@.skip(i as int)) == escaped_bytes(bytes@),
    {
        let b: u8 = bytes[i];
        let ghost before = out@;
        assert(bytes@.skip(i as int).drop_first() =~= bytes@.skip(i + 1));
        if escapes(b) {
            let t: &'static str = percent_encoding::percent_encode_byte(b);
            out = vstd::string::StringExecFns::concat(out, t);
        } else {
            out.push(b as char);
            assert(out@ =~= before + seq![b as char]);
        }
        assert(before + (escaped_byte(b) + escaped_bytes(bytes@.skip(i + 1))) =~= (before
            + escaped_byte(b)) + escaped_bytes(bytes@.skip(i + 1)));
    }
    assert(bytes@.skip(n as int) =~= Seq::<u8>::empty());
    assert(out@ + Seq::<char>::empty() =~= out@);
    out
}

/// The bytes of an escaped text are its characters.
proof fn lemma_escaped_is_ascii(bytes: Seq<u8>)
    ensures
        is_ascii_chars(escaped_bytes(bytes)),
        forall|i: int|
            0 <= i < escaped_bytes(bytes).len() ==> !is_escaped_byte(
                #[trigger] escaped_bytes(bytes)[i] as u8,
            ),
    decreases bytes.len(),
{
    if bytes.len() > 0 {
        lemma_escaped_is_ascii(bytes.drop_first());
        let f = escaped_byte(bytes[0]);
        let e = escaped_bytes(bytes);
        let rest = escaped_bytes(bytes.drop_first());
        assert forall|i: int| 0 <= i < e.len() implies 0 <= e[i] as u32 <= 0x7f && !is_escaped_byte(
            #[trigger] e[i] as u8,
        ) by {
            if i >= f.len() {
                assert(e[i] == rest[i - f.len()]);
            } else {
                assert(e[i] == f[i]);
            }
        }
    }
}

/// Escaping leaves alone what needs no escape.
proof fn lemma_nothing_to_escape(bytes: Seq<u8>)
    requires
        forall|i: int| 0 <= i < bytes.len() ==> !is_escaped_byte(#[trigger] bytes[i]),
    ensures
        escaped_bytes(bytes) == Seq::new(bytes.len(), |i: int| bytes[i] as char),
    decreases bytes.len(),
{
    if bytes.len() > 0 {
        let rest = bytes.drop_first();
        assert forall|i: int| 0 <= i < rest.len() implies !is_escaped_byte(#[trigger] rest[i]) by {
            assert(rest[i] == bytes[i + 1]);
        }
        lemma_nothing_to_escape(rest);
    }
    assert(escaped_bytes(bytes) =~= Seq::new(bytes.len(), |i: int| bytes[i] as char));
}

/// A text that begins with a slash still does when it is encoded, and one that is a lone star
/// stays as it is.
pub proof fn lemma_escaped_path(path: Seq<char>)
    ensures
        is_ascii_chars(escaped_path(path)),
        forall|i: int|
            0 <= i < escaped_path(path).len() ==> !is_escaped_byte(
                #[trigger] escaped_path(path)[i] as u8,
            ),
        escaped_path(path).len() == 0 <==> path.len() == 0,
        path.len() > 0 && path[0] == '/' ==> escaped_path(path)[0] == '/',
        path == seq!['*'] ==> escaped_path(path) == path,
{
    lemma_escaped_is_ascii(encode_utf8(path));
    if path.len() > 0 {
        let c = path[0] as u32;
        let e = encode_utf8(path);
        assert(e == encode_scalar(c) + encode_utf8(path.drop_first()));
        assert(encode_scalar(c).len() > 0);
        assert(escaped_bytes(e) == escaped_byte(e[0]) + escaped_bytes(e.drop_first()));
        if path[0] == '/' {
            assert(0x2fu32 & 0x7f == 0x2f) by (bit_vector);
            assert(e[0] == 0x2f);
        }
        if path == seq!['*'] {
            assert(0x2au32 & 0x7f == 0x2a) by (bit_vector);
            assert(path.drop_first() =~= Seq::<char>::empty());
            assert(e =~= seq![0x2au8]);
            assert(e.drop_first() =~= Seq::<u8>::empty());
            assert(escaped_path(path) =~= path);
        }
    }
}

/// A character takes at most four bytes.
pub proof fn lemma_utf8_len(s: Seq<char>)
    ensures
        encode_utf8(s).len() <= 4 * s.len(),
    decreases s.len(),
{
    if s.len() > 0 {
        lemma_utf8_len(s.drop_first());
        assert(encode_scalar(s[0] as u32).len() <= 4);
    }
}

proof fn lemma_escaped_bytes_len(bytes: Seq<u8>)
    ensures
        escaped_bytes(bytes).len() <= 3 * bytes.len(),
    decreases bytes.len(),
{
    if bytes.len() > 0 {
        lemma_escaped_bytes_len(bytes.drop_first());
    }
}

/// A character becomes at most twelve when a path is encoded.
pub proof fn lemma_escaped_len(path: Seq<char>)
    ensures
        escaped_path(path).len() <= 12 * path.len(),
{
    lemma_utf8_len(path);
    lemma_escaped_bytes_len(encode_utf8(path));
}

/// Encoding a path that was encoded already changes nothing.
pub proof fn law_escaping_is_idempotent(path: Seq<char>)
    ensures
        escaped_path(escaped_path(path)) == escaped_path(path),
{
    let e = escaped_path(path);
    lemma_escaped_is_ascii(encode_utf8(path));
    is_ascii_chars_encode_utf8(e);
    let b = encode_utf8(e);
    assert forall|i: int| 0 <= i < b.len() implies !is_escaped_byte(#[trigger] b[i]) by {
        assert(b[i] == e[i] as u8);
    }
    lemma_nothing_to_escape(b);
    assert(escaped_path(e) =~= e);
}

/// Undoing the escapes of bytes that held none gives them back.
proof fn lemma_decode_escaped(bytes: Seq<u8>)
    requires
        !holds_escape(bytes),
    ensures
        percent_decoded(escaped_bytes(bytes).map_values(|c: char| c as u8)) == bytes,
    decreases bytes.len(),
{
    let g = |c: char| c as u8;
    let e = escaped_bytes(bytes).map_values(g);
    if bytes.len() > 0 {
        let b = bytes[0];
        let rest = bytes.drop_first();
        assert forall|i: int| 0 <= i < rest.len() implies !#[trigger] starts_with_escape(
            rest.skip(i),
        ) by {
            assert(rest.skip(i) =~= bytes.skip(i + 1));
        }
        lemma_decode_escaped(rest);
        let er = escaped_bytes(rest).map_values(g);
        if is_escaped_byte(b) {
            assert(e[0] == 0x25 && e[1] == upper_hex(b as int / 16) as u8 && e[2] == upper_hex(
                b as int % 16,
            ) as u8);
            assert(hex_value(e[1]) == Some(b as int / 16));
            assert(hex_value(e[2]) == Some(b as int % 16));
            assert(e.skip(3) =~= er);
            assert(percent_decoded(e) =~= bytes);
        } else {
            assert(e.skip(1) =~= er);
            assert(e[0] == b);
            assert(!starts_with_escape(e)) by {
                if starts_with_escape(e) {
                    assert(bytes.skip(0) =~= bytes);
                    assert(!starts_with_escape(bytes.skip(0)));
                    let rest2 = rest.drop_first();
                    assert(e[1] == escaped_bytes(rest)[0] as u8);
                    assert(e[2] == escaped_bytes(rest)[1] as u8);
                    assert(rest.len() > 0);
                    assert(escaped_bytes(rest)[0] == escaped_byte(rest[0])[0]);
                    assert(!is_escaped_byte(rest[0]));
                    assert(escaped_bytes(rest)[1] == escaped_bytes(rest2)[0]);
                    assert(rest2.len() > 0);
                    assert(escaped_bytes(rest2)[0] == escaped_byte(rest2[0])[0]);
                    assert(!is_escaped_byte(rest2[0]));
                    assert(rest[0] == bytes[1] && rest2[0] == bytes[2]);
                }
            }
            assert(percent_decoded(e) =~= bytes);
        }
    } else {
        assert(e =~= Seq::<u8>::empty());
        assert(percent_decoded(e) =~= bytes);
    }
}

/// Decoding an encoded path gives it back, unless it held an escape of its own.
pub proof fn law_decoding_undoes_escaping(path: Seq<char>)
    requires
        !holds_escape(encode_utf8(path)),
    ensures
        url_decoded(escaped_path(path)) == Some(path),
{
    let e = escaped_path(path);
    lemma_escaped_is_ascii(encode_utf8(path));
    is_ascii_chars_encode_utf8(e);
    lemma_decode_escaped(encode_utf8(path));
    assert(encode_utf8(e) =~= e.map_values(|c: char| c as u8));
    encode_utf8_valid_utf8(path);
    encode_utf8_decode_utf8(path);
}

/// Encoding bytes one behind the other is encoding them together.
proof fn lemma_escaped_concat(a: Seq<u8>, b: Seq<u8>)
    ensures
        escaped_bytes(a + b) == escaped_bytes(a) + escaped_bytes(b),
    decreases a.len(),
{
    if a.len() == 0 {
        assert(a + b =~= b);
        assert(escaped_bytes(a) + escaped_bytes(b) =~= escaped_bytes(b));
    } else {
        lemma_escaped_concat(a.drop_first(), b);
        assert((a + b).drop_first() =~= a.drop_first() + b);
        assert(escaped_bytes(a + b) =~= escaped_bytes(a) + escaped_bytes(b));
    }
}

proof fn lemma_utf8_concat(a: Seq<char>, b: Seq<char>)
    ensures
        encode_utf8(a + b) == encode_utf8(a) + encode_utf8(b),
    decreases a.len(),
{
    if a.len() == 0 {
        assert(a + b =~= b);
        assert(encode_utf8(a) + encode_utf8(b) =~= encode_utf8(b));
    } else {
        lemma_utf8_concat(a.drop_first(), b);
        assert((a + b).drop_first() =~= a.drop_first() + b);
        assert(encode_utf8(a + b) =~= encode_utf8(a) + encode_utf8(b));
    }
}

/// A path is encoded character by character: what stands around a character makes no difference
/// to what becomes of it.
pub proof fn law_paths_are_encoded_piece_by_piece(a: Seq<char>, b: Seq<char>)
    ensures
        escaped_path(a + b) == escaped_path(a) + escaped_path(b),
{
    lemma_utf8_concat(a, b);
    lemma_escaped_concat(encode_utf8(a), encode_utf8(b));
}

/// Whether a character stands for itself in a path: letters, digits, a percent sign, the slash and
/// the other signs that neither end a path nor need quoting in one.
pub open spec fn stands_for_itself(c: char) -> bool {
    ||| 'a' <= c <= 'z'
    ||| 'A' <= c <= 'Z'
    ||| '0' <= c <= '9'
    ||| c == '/' || c == '%'
    ||| c == '-' || c == '_' || c == '.' || c == '~'
    ||| c == '!' || c == '$' || c == '&' || c == '\'' || c == '(' || c == ')' || c == '*'
    ||| c == '+' || c == ',' || c == ';' || c == '=' || c == ':' || c == '@'
    ||| c == '[' || c == ']' || c == '\\' || c == '^' || c == '|'
}

/// A character stays in a path exactly where it stands for itself. Every other one becomes a
/// percent sign and two hexadecimal digits for each of its bytes.
pub proof fn law_encoding_keeps_what_stands_for_itself(c: char)
    ensures
        stands_for_itself(c) ==> escaped_path(seq![c]) == seq![c],
        !stands_for_itself(c) ==> escaped_path(seq![c])[0] == '%' && escaped_path(seq![c]).len() == 3
            * encode_utf8(seq![c]).len(),
{
    let v = c as u32;
    let s = seq![c];
    assert(s.drop_first() =~= Seq::<char>::empty());
    let e = encode_utf8(s);
    assert(encode_utf8(Seq::<char>::empty()) =~= Seq::<u8>::empty());
    assert(e =~= encode_scalar(v));
    if v <= 0x7f {
        assert(v <= 0x7f ==> (v & 0x7f) as u8 == v as u8) by (bit_vector);
        assert(e =~= seq![v as u8]);
        assert(e.drop_first() =~= Seq::<u8>::empty());
        assert(escaped_bytes(Seq::<u8>::empty()) =~= Seq::<char>::empty());
        assert(e[0] == v as u8);
        assert(escaped_bytes(e) =~= escaped_byte(v as u8));
    } else {
        assert(0xC0u8 | ((v >> 6) & 0x1F) as u8 >= 0x80u8) by (bit_vector);
        assert(0xE0u8 | ((v >> 12) & 0x0F) as u8 >= 0x80u8) by (bit_vector);
        assert(0xF0u8 | ((v >> 18) & 0x7) as u8 >= 0x80u8) by (bit_vector);
        assert(0x80u8 | (v & 0x3F) as u8 >= 0x80u8) by (bit_vector);
        assert(0x80u8 | ((v >> 6) & 0x3F) as u8 >= 0x80u8) by (bit_vector);
        assert(0x80u8 | ((v >> 12) & 0x3F) as u8 >= 0x80u8) by (bit_vector);
        assert forall|i: int| 0 <= i < e.len() implies is_escaped_byte(#[trigger] e[i]) by {}
        lemma_all_escaped(e);
    }
}

proof fn lemma_all_escaped(bytes: Seq<u8>)
    requires
        forall|i: int| 0 <= i < bytes.len() ==> is_escaped_byte(#[trigger] bytes[i]),
    ensures
        escaped_bytes(bytes).len() == 3 * bytes.len(),
        bytes.len() > 0 ==> escaped_bytes(bytes)[0] == '%',
    decreases bytes.len(),
{
    if bytes.len() > 0 {
        let rest = bytes.drop_first();
        assert forall|i: int| 0 <= i < rest.len() implies is_escaped_byte(#[trigger] rest[i]) by {
            assert(rest[i] == bytes[i + 1]);
        }
        lemma_all_escaped(rest);
    }
}

} // verus!
