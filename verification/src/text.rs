//! Operations on text, stated over the sequence of characters that a string holds.
use vstd::prelude::*;
use vstd::string::{StrSliceExecFns, StringExecFns};

verus! {

/// `String::push` appends the one character that it is given.
pub assume_specification[ String::push ](s: &mut String, ch: char)
    ensures
        final(s)@ == old(s)@.push(ch),
;

/// The characters of `s`, in order.
pub fn chars_of(s: &str) -> (r: Vec<char>)
    ensures
        r@ == s@,
{
    let mut out: Vec<char> = Vec::new();
    for c in it: s.chars()
        invariant
            out@ == it.seq().take(it.index() as int),
            it.seq() == s@,
    {
        out.push(c);
    }
    assert(s@.take(s@.len() as int) =~= s@);
    out
}

/// Whether two strings hold the same text.
pub fn same_text(a: &str, b: &str) -> (r: bool)
    ensures
        r == (a@ == b@),
{
    let x: Vec<char> = chars_of(a);
    let y: Vec<char> = chars_of(b);
    if x.len() != y.len() {
        return false;
    }
    let n: usize = x.len();
    for i in 0..n
        invariant
            n == x@.len(),
            x@.len() == y@.len(),
            forall|j: int| 0 <= j < i ==> x@[j] == y@[j],
            x@ == a@,
            y@ == b@,
    {
        if x[i] != y[i] {
            assert(a@[i as int] != b@[i as int]);
            return false;
        }
    }
    assert(a@ =~= b@);
    true
}

/// `c`, in lower case where it is an ASCII letter.
pub open spec fn ascii_lower(c: char) -> char {
    if 'A' <= c <= 'Z' {
        (c as u32 + 32) as char
    } else {
        c
    }
}

/// Whether two texts differ at most in the case of ASCII letters.
pub open spec fn same_ignoring_ascii_case(a: Seq<char>, b: Seq<char>) -> bool {
    a.len() == b.len() && forall|i: int|
        0 <= i < a.len() ==> ascii_lower(#[trigger] a[i]) == ascii_lower(b[i])
}

fn same_char_ignoring_ascii_case(a: char, b: char) -> (r: bool)
    ensures
        r == (ascii_lower(a) == ascii_lower(b)),
{
    let x: u32 = if 'A' <= a && a <= 'Z' {
        a as u32 + 32
    } else {
        a as u32
    };
    let y: u32 = if 'A' <= b && b <= 'Z' {
        b as u32 + 32
    } else {
        b as u32
    };
    x == y
}

/// Compares two strings without regard to the case of ASCII letters.
pub fn eq_ignore_ascii_case(a: &str, b: &str) -> (r: bool)
    ensures
        r == same_ignoring_ascii_case(a@, b@),
{
    let x: Vec<char> = chars_of(a);
    let y: Vec<char> = chars_of(b);
    if x.len() != y.len() {
        return false;
    }
    let n: usize = x.len();
    for i in 0..n
        invariant
            n == x@.len(),
            x@.len() == y@.len(),
            forall|j: int| 0 <= j < i ==> ascii_lower(#[trigger] x@[j]) == ascii_lower(y@[j]),
            x@ == a@,
            y@ == b@,
    {
        if !same_char_ignoring_ascii_case(x[i], y[i]) {
            assert(ascii_lower(a@[i as int]) != ascii_lower(b@[i as int]));
            return false;
        }
    }
    true
}

/// The characters with Unicode's `White_Space` property.
pub open spec fn is_white_space(c: char) -> bool {
    ||| '\u{9}' <= c <= '\u{D}'
    ||| c == '\u{20}'
    ||| c == '\u{85}'
    ||| c == '\u{A0}'
    ||| c == '\u{1680}'
    ||| '\u{2000}' <= c <= '\u{200A}'
    ||| c == '\u{2028}'
    ||| c == '\u{2029}'
    ||| c == '\u{202F}'
    ||| c == '\u{205F}'
    ||| c == '\u{3000}'
}

/// Whether `c` is white space.
pub fn white_space(c: char) -> (r: bool)
    ensures
        r == is_white_space(c),
{
    ('\u{9}' <= c && c <= '\u{D}') || c == '\u{20}' || c == '\u{85}' || c == '\u{A0}' || c
        == '\u{1680}' || ('\u{2000}' <= c && c <= '\u{200A}') || c == '\u{2028}' || c == '\u{2029}'
        || c == '\u{202F}' || c == '\u{205F}' || c == '\u{3000}'
}

/// `s` without its leading white space.
pub open spec fn trimmed_start(s: Seq<char>) -> Seq<char>
    decreases s.len(),
{
    if s.len() > 0 && is_white_space(s[0]) {
        trimmed_start(s.drop_first())
    } else {
        s
    }
}

/// `s` without its trailing white space.
pub open spec fn trimmed_end(s: Seq<char>) -> Seq<char>
    decreases s.len(),
{
    if s.len() > 0 && is_white_space(s.last()) {
        trimmed_end(s.drop_last())
    } else {
        s
    }
}

/// `s` without white space on either side.
pub open spec fn trimmed(s: Seq<char>) -> Seq<char> {
    trimmed_end(trimmed_start(s))
}

/// `s` without any leading `c`.
pub open spec fn without_leading(s: Seq<char>, c: char) -> Seq<char>
    decreases s.len(),
{
    if s.len() > 0 && s[0] == c {
        without_leading(s.drop_first(), c)
    } else {
        s
    }
}

/// What is left of a text when it is trimmed has no white space on either side.
pub proof fn lemma_trimmed(s: Seq<char>)
    ensures
        trimmed(s).len() > 0 ==> !is_white_space(trimmed(s)[0]) && !is_white_space(
            trimmed(s).last(),
        ),
{
    lemma_trimmed_start(s);
    lemma_trimmed_end(trimmed_start(s));
}

proof fn lemma_trimmed_start(s: Seq<char>)
    ensures
        trimmed_start(s).len() > 0 ==> !is_white_space(trimmed_start(s)[0]),
    decreases s.len(),
{
    if s.len() > 0 && is_white_space(s[0]) {
        lemma_trimmed_start(s.drop_first());
    }
}

proof fn lemma_trimmed_end(s: Seq<char>)
    ensures
        trimmed_end(s).len() > 0 ==> !is_white_space(trimmed_end(s).last()) && trimmed_end(s)[0]
            == s[0],
        trimmed_end(s).len() <= s.len(),
    decreases s.len(),
{
    if s.len() > 0 && is_white_space(s.last()) {
        lemma_trimmed_end(s.drop_last());
    }
}

/// Trimming adds no character.
pub proof fn lemma_trimmed_chars(s: Seq<char>, c: char)
    ensures
        trimmed(s).contains(c) ==> s.contains(c),
{
    lemma_trimmed_start_chars(s, c);
    lemma_trimmed_end_chars(trimmed_start(s), c);
}

proof fn lemma_trimmed_start_chars(s: Seq<char>, c: char)
    ensures
        trimmed_start(s).contains(c) ==> s.contains(c),
    decreases s.len(),
{
    if s.len() > 0 && is_white_space(s[0]) {
        let t = s.drop_first();
        lemma_trimmed_start_chars(t, c);
        if t.contains(c) {
            let k = choose|k: int| 0 <= k < t.len() && t[k] == c;
            assert(s[k + 1] == c);
        }
    }
}

proof fn lemma_trimmed_end_chars(s: Seq<char>, c: char)
    ensures
        trimmed_end(s).contains(c) ==> s.contains(c),
    decreases s.len(),
{
    if s.len() > 0 && is_white_space(s.last()) {
        let t = s.drop_last();
        lemma_trimmed_end_chars(t, c);
        if t.contains(c) {
            let k = choose|k: int| 0 <= k < t.len() && t[k] == c;
            assert(s[k] == c);
        }
    }
}

/// Removes white space from both ends.
pub fn trim(s: &str) -> (r: &str)
    ensures
        r@ == trimmed(s@),
{
    let x: Vec<char> = chars_of(s);
    let n: usize = x.len();
    let mut i: usize = 0;
    assert(s@.skip(0) =~= s@);
    while i < n && white_space(x[i])
        invariant
            n == x@.len(),
            x@ == s@,
            i <= n,
            trimmed_start(s@) == trimmed_start(s@.skip(i as int)),
        decreases n - i,
    {
        assert(s@.skip(i as int).drop_first() =~= s@.skip(i + 1));
        i = i + 1;
    }
    assert(trimmed_start(s@) == s@.skip(i as int));
    let mut j: usize = n;
    assert(s@.subrange(i as int, n as int) =~= s@.skip(i as int));
    while i < j && white_space(x[j - 1])
        invariant
            n == x@.len(),
            x@ == s@,
            i <= j <= n,
            trimmed(s@) == trimmed_end(s@.subrange(i as int, j as int)),
        decreases j,
    {
        assert(s@.subrange(i as int, j as int).drop_last() =~= s@.subrange(i as int, j - 1));
        j = j - 1;
    }
    s.substring_char(i, j)
}

/// Removes every leading `c`.
pub fn trim_start_matches(s: &str, c: char) -> (r: &str)
    ensures
        r@ == without_leading(s@, c),
{
    let x: Vec<char> = chars_of(s);
    let n: usize = x.len();
    let mut i: usize = 0;
    assert(s@.skip(0) =~= s@);
    while i < n && x[i] == c
        invariant
            n == x@.len(),
            x@ == s@,
            i <= n,
            without_leading(s@, c) == without_leading(s@.skip(i as int), c),
        decreases n - i,
    {
        assert(s@.skip(i as int).drop_first() =~= s@.skip(i + 1));
        i = i + 1;
    }
    assert(s@.subrange(i as int, n as int) =~= s@.skip(i as int));
    s.substring_char(i, n)
}

/// The place of the first `c` in `s`.
pub open spec fn first_index(s: Seq<char>, c: char) -> Option<int>
    decreases s.len(),
{
    if s.len() == 0 {
        None
    } else if s[0] == c {
        Some(0)
    } else {
        match first_index(s.drop_first(), c) {
            Some(i) => Some(i + 1),
            None => None,
        }
    }
}

/// The place of the last `c` in `s`.
pub open spec fn last_index(s: Seq<char>, c: char) -> Option<int>
    decreases s.len(),
{
    if s.len() == 0 {
        None
    } else if s.last() == c {
        Some(s.len() - 1)
    } else {
        last_index(s.drop_last(), c)
    }
}

/// `first_index` gives the place of a `c` with none before it, and nothing only where there is none.
pub proof fn lemma_first_index(s: Seq<char>, c: char)
    ensures
        first_index(s, c) matches Some(i) ==> 0 <= i < s.len() && s[i] == c && forall|j: int|
            0 <= j < i ==> s[j] != c,
        first_index(s, c) is None <==> !s.contains(c),
    decreases s.len(),
{
    if s.len() > 0 && s[0] != c {
        let t = s.drop_first();
        lemma_first_index(t, c);
        assert forall|j: int| 1 <= j < s.len() implies s[j] == t[j - 1] by {}
        if s.contains(c) {
            let k = choose|k: int| 0 <= k < s.len() && s[k] == c;
            assert(t[k - 1] == c);
        }
        if t.contains(c) {
            let k = choose|k: int| 0 <= k < t.len() && t[k] == c;
            assert(s[k + 1] == c);
        }
    } else if s.len() > 0 {
        assert(s.contains(s[0]));
    }
}

/// `last_index` gives the place of a `c` with none behind it, and nothing only where there is none.
pub proof fn lemma_last_index(s: Seq<char>, c: char)
    ensures
        last_index(s, c) matches Some(i) ==> 0 <= i < s.len() && s[i] == c && forall|j: int|
            i < j < s.len() ==> s[j] != c,
        last_index(s, c) is None <==> !s.contains(c),
    decreases s.len(),
{
    if s.len() > 0 && s.last() != c {
        let t = s.drop_last();
        lemma_last_index(t, c);
        assert forall|j: int| 0 <= j < t.len() implies s[j] == t[j] by {}
        if s.contains(c) {
            let k = choose|k: int| 0 <= k < s.len() && s[k] == c;
            assert(t[k] == c);
        }
        if t.contains(c) {
            let k = choose|k: int| 0 <= k < t.len() && t[k] == c;
            assert(s[k] == c);
        }
    } else if s.len() > 0 {
        assert(s.contains(s.last()));
    }
}

/// A place with `c` on it and none before it is the first one.
pub proof fn lemma_first_index_is(s: Seq<char>, c: char, i: int)
    requires
        0 <= i < s.len(),
        s[i] == c,
        forall|j: int| 0 <= j < i ==> s[j] != c,
    ensures
        first_index(s, c) == Some(i),
{
    lemma_first_index(s, c);
    assert(s.contains(s[i]));
}

/// A place with `c` on it and none behind it is the last one.
pub proof fn lemma_last_index_is(s: Seq<char>, c: char, i: int)
    requires
        0 <= i < s.len(),
        s[i] == c,
        forall|j: int| i < j < s.len() ==> s[j] != c,
    ensures
        last_index(s, c) == Some(i),
{
    lemma_last_index(s, c);
    assert(s.contains(s[i]));
}

/// The place, counted in characters, of the first `c`.
pub fn find(s: &str, c: char) -> (r: Option<usize>)
    ensures
        r is Some <==> first_index(s@, c) is Some,
        r matches Some(i) ==> first_index(s@, c) == Some(i as int) && i < s@.len(),
{
    let x: Vec<char> = chars_of(s);
    let n: usize = x.len();
    for i in 0..n
        invariant
            n == x@.len(),
            x@ == s@,
            forall|j: int| 0 <= j < i ==> x@[j] != c,
    {
        if x[i] == c {
            proof {
                lemma_first_index_is(s@, c, i as int);
            }
            return Some(i);
        }
    }
    proof {
        lemma_first_index(s@, c);
    }
    None
}

/// The place, counted in characters, of the last `c`.
pub fn rfind(s: &str, c: char) -> (r: Option<usize>)
    ensures
        r is Some <==> last_index(s@, c) is Some,
        r matches Some(i) ==> last_index(s@, c) == Some(i as int) && i < s@.len(),
{
    let x: Vec<char> = chars_of(s);
    let mut i: usize = x.len();
    while i > 0
        invariant
            i <= x@.len(),
            x@ == s@,
            forall|j: int| i <= j < x@.len() ==> x@[j] != c,
        decreases i,
    {
        i = i - 1;
        if x[i] == c {
            proof {
                lemma_last_index_is(s@, c, i as int);
            }
            return Some(i);
        }
    }
    proof {
        lemma_last_index(s@, c);
    }
    None
}

/// Whether `c` occurs in `s`.
pub fn contains_char(s: &str, c: char) -> (r: bool)
    ensures
        r == s@.contains(c),
{
    proof {
        lemma_first_index(s@, c);
    }
    find(s, c).is_some()
}

/// The pieces between the occurrences of `sep`: one more than there are occurrences.
pub open spec fn pieces(s: Seq<char>, sep: char) -> Seq<Seq<char>>
    decreases s.len(),
{
    if s.len() == 0 {
        seq![Seq::empty()]
    } else if s.last() == sep {
        pieces(s.drop_last(), sep).push(Seq::empty())
    } else {
        let front = pieces(s.drop_last(), sep);
        front.drop_last().push(front.last().push(s.last()))
    }
}

/// The parts, one behind the other, with `sep` between them.
pub open spec fn joined(parts: Seq<Seq<char>>, sep: Seq<char>) -> Seq<char>
    decreases parts.len(),
{
    if parts.len() == 0 {
        Seq::empty()
    } else if parts.len() == 1 {
        parts[0]
    } else {
        joined(parts.drop_last(), sep) + sep + parts.last()
    }
}

/// What a sequence of strings holds.
pub open spec fn texts(v: Seq<&str>) -> Seq<Seq<char>> {
    v.map_values(|s: &str| s@)
}

/// What a sequence of owned strings holds.
pub open spec fn owned_texts(v: Seq<String>) -> Seq<Seq<char>> {
    v.map_values(|s: String| s@)
}

/// What an optional string holds.
pub open spec fn maybe_text(o: Option<String>) -> Option<Seq<char>> {
    match o {
        Some(s) => Some(s@),
        None => None,
    }
}

/// What an optional borrowed string holds.
pub open spec fn maybe_str(o: Option<&str>) -> Option<Seq<char>> {
    match o {
        Some(s) => Some(s@),
        None => None,
    }
}

/// Borrows an optional string.
pub fn as_deref(o: &Option<String>) -> (r: Option<&str>)
    ensures
        maybe_str(r) == maybe_text(*o),
{
    match o {
        Some(s) => Some(s.as_str()),
        None => None,
    }
}

/// Whether two optional strings hold the same text.
pub fn same_maybe_str(a: Option<&str>, b: Option<&str>) -> (r: bool)
    ensures
        r == (maybe_str(a) == maybe_str(b)),
{
    match (a, b) {
        (Some(x), Some(y)) => same_text(x, y),
        (None, None) => true,
        _ => false,
    }
}

/// Copies an optional string.
pub fn clone_text(o: &Option<String>) -> (r: Option<String>)
    ensures
        r == *o,
{
    match o {
        Some(s) => Some(s.clone()),
        None => None,
    }
}

/// Splitting yields at least one piece, no piece holds the separator, and joining the pieces
/// gives back the text.
pub proof fn lemma_pieces(s: Seq<char>, sep: char)
    ensures
        pieces(s, sep).len() >= 1,
        forall|i: int| 0 <= i < pieces(s, sep).len() ==> !(#[trigger] pieces(s, sep)[i]).contains(sep),
        joined(pieces(s, sep), seq![sep]) == s,
    decreases s.len(),
{
    let p = pieces(s, sep);
    if s.len() == 0 {
        assert(p[0] =~= Seq::<char>::empty());
        assert(joined(p, seq![sep]) =~= s);
    } else {
        let f = pieces(s.drop_last(), sep);
        lemma_pieces(s.drop_last(), sep);
        if s.last() == sep {
            assert(p.drop_last() =~= f);
            assert(joined(p, seq![sep]) =~= s.drop_last() + seq![sep] + Seq::<char>::empty());
            assert(s.drop_last() + seq![sep] + Seq::<char>::empty() =~= s);
        } else {
            assert(p.drop_last() =~= f.drop_last());
            let l = f.last().push(s.last());
            assert(p.last() == l);
            assert(!l.contains(sep)) by {
                if l.contains(sep) {
                    let k = choose|k: int| 0 <= k < l.len() && l[k] == sep;
                    assert(f.last()[k] == sep);
                    assert(f.last().contains(sep));
                    assert(f[f.len() - 1].contains(sep));
                }
            }
            assert forall|i: int| 0 <= i < p.len() implies !(#[trigger] p[i]).contains(sep) by {
                if i < p.len() - 1 {
                    assert(p[i] == f[i]);
                }
            }
            if p.len() == 1 {
                assert(joined(p, seq![sep]) =~= s);
            } else {
                let front = joined(f.drop_last(), seq![sep]) + seq![sep];
                assert(front + f.last() == s.drop_last());
                assert(front + l =~= (front + f.last()).push(s.last()));
                assert((front + f.last()).push(s.last()) =~= s);
            }
        }
    }
}

/// Splitting two texts with a separator between them gives the pieces of the one and then those of
/// the other.
pub proof fn lemma_pieces_concat(a: Seq<char>, b: Seq<char>, sep: char)
    ensures
        pieces(a.push(sep) + b, sep) == pieces(a, sep) + pieces(b, sep),
    decreases b.len(),
{
    let all = a.push(sep) + b;
    lemma_pieces(a, sep);
    lemma_pieces(b, sep);
    if b.len() == 0 {
        assert(all =~= a.push(sep));
        assert(all.drop_last() =~= a);
        assert(pieces(all, sep) =~= pieces(a, sep) + pieces(b, sep));
    } else {
        let front = b.drop_last();
        lemma_pieces_concat(a, front, sep);
        lemma_pieces(front, sep);
        assert(all.drop_last() =~= a.push(sep) + front);
        assert(all.last() == b.last());
        let p = pieces(a, sep) + pieces(front, sep);
        assert(p.last() == pieces(front, sep).last());
        assert(p.drop_last() =~= pieces(a, sep) + pieces(front, sep).drop_last());
        assert(pieces(all, sep) =~= pieces(a, sep) + pieces(b, sep));
    }
}

/// Splitting parts that were joined gives them back, where none of them holds the separator.
pub proof fn lemma_pieces_of_joined(parts: Seq<Seq<char>>, sep: char)
    requires
        parts.len() > 0,
        forall|i: int| 0 <= i < parts.len() ==> !(#[trigger] parts[i]).contains(sep),
    ensures
        pieces(joined(parts, seq![sep]), sep) == parts,
    decreases parts.len(),
{
    let last = parts.last();
    assert(!parts[parts.len() - 1].contains(sep));
    lemma_single_piece(last, sep);
    if parts.len() == 1 {
        assert(parts =~= seq![last]);
    } else {
        let front = parts.drop_last();
        assert forall|i: int| 0 <= i < front.len() implies !(#[trigger] front[i]).contains(sep) by {
            assert(front[i] == parts[i]);
        }
        lemma_pieces_of_joined(front, sep);
        lemma_pieces_concat(joined(front, seq![sep]), last, sep);
        assert(joined(front, seq![sep]) + seq![sep] + last =~= joined(front, seq![sep]).push(sep)
            + last);
        assert(front + seq![last] =~= parts);
    }
}

/// A text without the separator is its only piece.
pub proof fn lemma_single_piece(s: Seq<char>, sep: char)
    requires
        !s.contains(sep),
    ensures
        pieces(s, sep) == seq![s],
    decreases s.len(),
{
    if s.len() > 0 {
        let front = s.drop_last();
        assert(!front.contains(sep)) by {
            if front.contains(sep) {
                let k = choose|k: int| 0 <= k < front.len() && front[k] == sep;
                assert(s[k] == sep);
            }
        }
        lemma_single_piece(front, sep);
        assert(s.contains(s[s.len() - 1]));
        assert(front.push(s.last()) =~= s);
    } else {
        assert(s =~= Seq::<char>::empty());
    }
    assert(pieces(s, sep) =~= seq![s]);
}

/// Splits at every `sep`.
pub fn split<'a>(s: &'a str, sep: char) -> (r: Vec<&'a str>)
    ensures
        texts(r@) == pieces(s@, sep),
        r@.len() >= 1,
{
    let x: Vec<char> = chars_of(s);
    let n: usize = x.len();
    let mut out: Vec<&'a str> = Vec::new();
    let mut start: usize = 0;
    assert(s@.take(0) =~= Seq::<char>::empty());
    assert(texts(out@).push(s@.subrange(0, 0)) =~= pieces(s@.take(0), sep));
    for i in 0..n
        invariant
            n == x@.len(),
            x@ == s@,
            start <= i,
            texts(out@).push(s@.subrange(start as int, i as int)) == pieces(
                s@.take(i as int),
                sep,
            ),
    {
        let ghost whole = s@.take(i + 1);
        assert(whole.drop_last() =~= s@.take(i as int));
        let ghost front = pieces(s@.take(i as int), sep);
        assert(front.last() == s@.subrange(start as int, i as int));
        assert(front.drop_last() =~= texts(out@));
        if x[i] == sep {
            let ghost before = out@;
            out.push(s.substring_char(start, i));
            assert(texts(out@) =~= texts(before).push(s@.subrange(start as int, i as int)));
            start = i + 1;
            assert(s@.subrange(start as int, i + 1) =~= Seq::<char>::empty());
        } else {
            assert(s@.subrange(start as int, i + 1) =~= s@.subrange(start as int, i as int).push(
                s@[i as int],
            ));
        }
    }
    let ghost before = out@;
    assert(s@.take(n as int) =~= s@);
    out.push(s.substring_char(start, n));
    assert(texts(out@) =~= texts(before).push(s@.subrange(start as int, n as int)));
    out
}

/// Joins the parts with `sep` between them.
pub fn join(parts: &Vec<&str>, sep: &str) -> (r: String)
    ensures
        r@ == joined(texts(parts@), sep@),
{
    let mut out: String = String::new();
    let n: usize = parts.len();
    let ghost all = texts(parts@);
    assert(all.take(0) =~= Seq::<Seq<char>>::empty());
    for i in 0..n
        invariant
            n == parts@.len(),
            all == texts(parts@),
            out@ == joined(all.take(i as int), sep@),
    {
        assert(all.take(i + 1).drop_last() =~= all.take(i as int));
        if i > 0 {
            out.append(sep);
        }
        out.append(parts[i]);
        if i == 0 {
            assert(out@ =~= parts@[0]@);
        }
    }
    assert(all.take(n as int) =~= all);
    out
}

/// Joins the strings from `start` on with `sep` between them.
pub fn join_from(parts: &Vec<String>, start: usize, sep: &str) -> (r: String)
    requires
        start <= parts@.len(),
    ensures
        r@ == joined(owned_texts(parts@).skip(start as int), sep@),
{
    let mut out: String = String::new();
    let n: usize = parts.len();
    let ghost all = owned_texts(parts@).skip(start as int);
    assert(all.take(0) =~= Seq::<Seq<char>>::empty());
    for i in start..n
        invariant
            n == parts@.len(),
            start <= n,
            all == owned_texts(parts@).skip(start as int),
            out@ == joined(all.take(i - start), sep@),
    {
        assert(all.take(i + 1 - start).drop_last() =~= all.take(i - start));
        assert(all.take(i + 1 - start).last() == parts@[i as int]@);
        if i > start {
            out.append(sep);
        }
        out.append(parts[i].as_str());
        if i == start {
            assert(out@ =~= parts@[start as int]@);
        }
    }
    assert(all.take(n - start) =~= all);
    out
}

/// Whether `s` begins with `c`.
pub fn starts_with_char(s: &str, c: char) -> (r: bool)
    ensures
        r == (s@.len() > 0 && s@[0] == c),
{
    s.unicode_len() > 0 && s.get_char(0) == c
}

/// Whether `s` ends in `c`.
pub fn ends_with_char(s: &str, c: char) -> (r: bool)
    ensures
        r == (s@.len() > 0 && s@.last() == c),
{
    let n: usize = s.unicode_len();
    n > 0 && s.get_char(n - 1) == c
}

/// `s` without `suffix` at its end, where it ends in it.
pub open spec fn stripped_suffix(s: Seq<char>, suffix: Seq<char>) -> Option<Seq<char>> {
    if suffix.is_suffix_of(s) {
        Some(s.take(s.len() - suffix.len()))
    } else {
        None
    }
}

/// What `s` holds before `suffix`, where it ends in it.
pub fn strip_suffix<'a>(s: &'a str, suffix: &str) -> (r: Option<&'a str>)
    ensures
        maybe_str(r) == stripped_suffix(s@, suffix@),
{
    let n: usize = s.unicode_len();
    let m: usize = suffix.unicode_len();
    if m <= n && same_text(s.substring_char(n - m, n), suffix) {
        assert(s@.subrange(0, n - m) =~= s@.take(n - m));
        assert(s@.subrange(n - m, n as int) =~= s@.skip(n - m));
        Some(s.substring_char(0, n - m))
    } else {
        None
    }
}

/// Whether `s` ends in `suffix`.
pub fn ends_with(s: &str, suffix: &str) -> (r: bool)
    ensures
        r == suffix@.is_suffix_of(s@),
{
    strip_suffix(s, suffix).is_some()
}

/// Whether `s` begins with `prefix`.
pub fn starts_with(s: &str, prefix: &str) -> (r: bool)
    ensures
        r == prefix@.is_prefix_of(s@),
{
    let n: usize = s.unicode_len();
    let m: usize = prefix.unicode_len();
    m <= n && same_text(s.substring_char(0, m), prefix)
}

/// The place where `needle` first occurs in `s`.
pub open spec fn first_match(s: Seq<char>, needle: Seq<char>) -> Option<int>
    decreases s.len(),
{
    if needle.is_prefix_of(s) {
        Some(0)
    } else if s.len() == 0 {
        None
    } else {
        match first_match(s.drop_first(), needle) {
            Some(i) => Some(i + 1),
            None => None,
        }
    }
}

/// `first_match` gives a place where the needle stands with none before it, and nothing only
/// where it stands nowhere.
pub proof fn lemma_first_match(s: Seq<char>, needle: Seq<char>)
    ensures
        first_match(s, needle) matches Some(i) ==> 0 <= i && i + needle.len() <= s.len()
            && needle.is_prefix_of(s.skip(i)) && forall|j: int|
            0 <= j < i ==> !needle.is_prefix_of(#[trigger] s.skip(j)),
        first_match(s, needle) is None ==> forall|j: int|
            0 <= j <= s.len() ==> !needle.is_prefix_of(#[trigger] s.skip(j)),
    decreases s.len(),
{
    assert(s.skip(0) =~= s);
    if !needle.is_prefix_of(s) && s.len() > 0 {
        let t = s.drop_first();
        lemma_first_match(t, needle);
        assert forall|j: int| 1 <= j <= s.len() implies s.skip(j) == #[trigger] t.skip(j - 1) by {
            assert(s.skip(j) =~= t.skip(j - 1));
        }
        assert forall|j: int| 1 <= j <= s.len() implies #[trigger] s.skip(j) == t.skip(j - 1) by {
            assert(t.skip(j - 1) == s.skip(j));
        }
    }
}

/// The place, counted in characters, where `needle` first occurs.
pub fn find_text(s: &str, needle: &str) -> (r: Option<usize>)
    ensures
        r is Some <==> first_match(s@, needle@) is Some,
        r matches Some(i) ==> first_match(s@, needle@) == Some(i as int) && i + needle@.len()
            <= s@.len(),
{
    let n: usize = s.unicode_len();
    let mut i: usize = 0;
    assert(s@.skip(0) =~= s@);
    proof {
        lemma_first_match(s@, needle@);
    }
    while i <= n
        invariant
            n == s@.len(),
            i <= n,
            first_match(s@, needle@) == (match first_match(s@.skip(i as int), needle@) {
                Some(k) => Some(k + i),
                None => None,
            }),
        decreases n - i,
    {
        let rest: &str = s.substring_char(i, n);
        assert(rest@ =~= s@.skip(i as int));
        if starts_with(rest, needle) {
            proof {
                lemma_first_match(s@, needle@);
            }
            return Some(i);
        }
        if i == n {
            return None;
        }
        assert(s@.skip(i as int).drop_first() =~= s@.skip(i + 1));
        i = i + 1;
    }
    None
}

/// `s` behind as many spaces as it lacks to be `width` characters long.
pub open spec fn right_aligned(s: Seq<char>, width: nat) -> Seq<char> {
    if s.len() >= width {
        s
    } else {
        Seq::new((width - s.len()) as nat, |i: int| ' ') + s
    }
}

/// Puts spaces before `s` until it is `width` characters long.
pub fn align_right(s: &str, width: usize) -> (r: String)
    ensures
        r@ == right_aligned(s@, width as nat),
{
    let n: usize = s.unicode_len();
    let mut out: String = String::new();
    let missing: usize = if n < width {
        width - n
    } else {
        0
    };
    for i in 0..missing
        invariant
            out@ == Seq::new(i as nat, |j: int| ' '),
    {
        out.push(' ');
        assert(out@ =~= Seq::new((i + 1) as nat, |j: int| ' '));
    }
    out.append(s);
    assert(out@ =~= right_aligned(s@, width as nat));
    out
}

/// A text that is made of characters of one kind and then of something that begins with another
/// kind is made so in one way only.
pub proof fn lemma_split_is_unique(
    a: Seq<char>,
    rest_of_a: Seq<char>,
    b: Seq<char>,
    rest_of_b: Seq<char>,
    kind: spec_fn(char) -> bool,
)
    requires
        a + rest_of_a == b + rest_of_b,
        forall|i: int| 0 <= i < a.len() ==> kind(#[trigger] a[i]),
        forall|i: int| 0 <= i < b.len() ==> kind(#[trigger] b[i]),
        rest_of_a.len() > 0 ==> !kind(rest_of_a[0]),
        rest_of_b.len() > 0 ==> !kind(rest_of_b[0]),
    ensures
        a == b,
        rest_of_a == rest_of_b,
{
    let s = a + rest_of_a;
    let t = b + rest_of_b;
    if a.len() < b.len() {
        assert(s[a.len() as int] == rest_of_a[0]);
        assert(t[a.len() as int] == b[a.len() as int]);
        assert(kind(b[a.len() as int]));
    } else if b.len() < a.len() {
        assert(t[b.len() as int] == rest_of_b[0]);
        assert(s[b.len() as int] == a[b.len() as int]);
        assert(kind(a[b.len() as int]));
    }
    assert(a =~= s.take(a.len() as int));
    assert(b =~= t.take(b.len() as int));
    assert(rest_of_a =~= s.skip(a.len() as int));
    assert(rest_of_b =~= t.skip(b.len() as int));
}

/// Every character of a text is the separator or a character of some piece.
pub proof fn lemma_chars_of_pieces(s: Seq<char>, sep: char, kind: spec_fn(char) -> bool)
    requires
        forall|i: int, j: int|
            0 <= i < pieces(s, sep).len() && 0 <= j < pieces(s, sep)[i].len() ==> kind(
                #[trigger] pieces(s, sep)[i][j],
            ),
    ensures
        forall|i: int| 0 <= i < s.len() ==> #[trigger] s[i] == sep || kind(s[i]),
    decreases s.len(),
{
    if s.len() > 0 {
        let front = s.drop_last();
        let p = pieces(s, sep);
        let f = pieces(front, sep);
        lemma_pieces(front, sep);
        assert forall|i: int, j: int| 0 <= i < f.len() && 0 <= j < f[i].len() implies kind(
            #[trigger] f[i][j],
        ) by {
            if s.last() == sep || i < f.len() - 1 {
                assert(p[i] == f[i]);
                assert(kind(p[i][j]));
            } else {
                assert(p[i] == f[i].push(s.last()));
                assert(kind(p[i][j]));
            }
        }
        lemma_chars_of_pieces(front, sep, kind);
        if s.last() != sep {
            let last = p[p.len() - 1];
            assert(last == f.last().push(s.last()));
            assert(kind(p[p.len() - 1][last.len() - 1]));
        }
        assert forall|i: int| 0 <= i < s.len() implies #[trigger] s[i] == sep || kind(s[i]) by {
            if i < front.len() {
                assert(s[i] == front[i]);
            }
        }
    }
}

/// Joining parts begins with the first of them.
pub proof fn lemma_joined_first(parts: Seq<Seq<char>>, sep: Seq<char>)
    requires
        parts.len() > 1,
    ensures
        joined(parts, sep) == parts[0] + sep + joined(parts.skip(1), sep),
    decreases parts.len(),
{
    let rest = parts.skip(1);
    let front = parts.drop_last();
    if parts.len() == 2 {
        assert(joined(front, sep) == parts[0]);
        assert(joined(rest, sep) == parts[1]);
    } else {
        lemma_joined_first(front, sep);
        assert(front.skip(1) =~= rest.drop_last());
        assert(joined(parts, sep) =~= parts[0] + sep + joined(rest, sep));
    }
}

/// Joining parts ends in the last of them.
pub proof fn lemma_joined_last(parts: Seq<Seq<char>>, sep: Seq<char>)
    requires
        parts.len() > 0,
    ensures
        parts.last().is_suffix_of(joined(parts, sep)),
{
    let all = joined(parts, sep);
    assert(all.skip(all.len() - parts.last().len()) =~= parts.last());
}

/// Trimming takes white space from both ends and nothing else.
pub proof fn law_trimming_takes_white_space_only(s: Seq<char>)
    ensures
        exists|i: int, j: int|
            #![trigger s.subrange(i, j)]
            0 <= i <= j <= s.len() && trimmed(s) == s.subrange(i, j) && (forall|k: int|
                0 <= k < i ==> is_white_space(s[k])) && (forall|k: int|
                j <= k < s.len() ==> is_white_space(s[k])),
        trimmed(s).len() > 0 ==> !is_white_space(trimmed(s)[0]) && !is_white_space(
            trimmed(s).last(),
        ),
        trimmed(trimmed(s)) == trimmed(s),
{
    lemma_trimmed(s);
    let i = lemma_trimmed_start_is_skip(s);
    let t = trimmed_start(s);
    let n = lemma_trimmed_end_is_take(t);
    assert(trimmed(s) =~= s.subrange(i, i + n));
    assert forall|k: int| i + n <= k < s.len() implies is_white_space(s[k]) by {
        assert(t[k - i] == s[k]);
    }
}

proof fn lemma_trimmed_start_is_skip(s: Seq<char>) -> (i: int)
    ensures
        0 <= i <= s.len(),
        trimmed_start(s) == s.skip(i),
        forall|k: int| 0 <= k < i ==> is_white_space(s[k]),
    decreases s.len(),
{
    if s.len() > 0 && is_white_space(s[0]) {
        let j = lemma_trimmed_start_is_skip(s.drop_first());
        assert(s.drop_first().skip(j) =~= s.skip(j + 1));
        assert forall|k: int| 0 <= k < j + 1 implies is_white_space(s[k]) by {
            if k > 0 {
                assert(s.drop_first()[k - 1] == s[k]);
            }
        }
        j + 1
    } else {
        assert(s.skip(0) =~= s);
        0
    }
}

proof fn lemma_trimmed_end_is_take(s: Seq<char>) -> (n: int)
    ensures
        0 <= n <= s.len(),
        trimmed_end(s) == s.take(n),
        forall|k: int| n <= k < s.len() ==> is_white_space(s[k]),
    decreases s.len(),
{
    if s.len() > 0 && is_white_space(s.last()) {
        let n = lemma_trimmed_end_is_take(s.drop_last());
        assert(s.drop_last().take(n) =~= s.take(n));
        assert forall|k: int| n <= k < s.len() implies is_white_space(s[k]) by {
            if k < s.len() - 1 {
                assert(s.drop_last()[k] == s[k]);
            }
        }
        n
    } else {
        assert(s.take(s.len() as int) =~= s);
        s.len() as int
    }
}

/// Aligning a text puts spaces before it, as many as it lacks and no more.
pub proof fn law_aligned_text_ends_in_the_text(s: Seq<char>, width: nat)
    ensures
        s.is_suffix_of(right_aligned(s, width)),
        right_aligned(s, width).len() == if s.len() < width {
            width
        } else {
            s.len()
        },
        forall|i: int|
            0 <= i < right_aligned(s, width).len() - s.len() ==> right_aligned(s, width)[i] == ' ',
{
    let r = right_aligned(s, width);
    assert(r.skip(r.len() - s.len()) =~= s);
}

/// Of two characters, only the upper and the lower case of one ASCII letter are taken for the same.
pub proof fn law_only_the_case_of_letters_is_ignored(a: char, b: char)
    ensures
        same_ignoring_ascii_case(seq![a], seq![b]) <==> a == b || ('A' <= a <= 'Z' && b as int == a
            as int + 32) || ('A' <= b <= 'Z' && a as int == b as int + 32),
{
    let x = seq![a];
    let y = seq![b];
    assert(x[0] == a && y[0] == b);
    if ascii_lower(a) == ascii_lower(b) {
        assert(same_ignoring_ascii_case(x, y));
    }
}

/// Taking a character from the start of a text takes it as often as it stands there, and takes
/// nothing else.
pub proof fn law_leading_characters_are_taken(s: Seq<char>, c: char)
    ensures
        without_leading(s, c).len() > 0 ==> without_leading(s, c)[0] != c,
        without_leading(s, c).is_suffix_of(s),
        without_leading(seq![c] + s, c) == without_leading(s, c),
        s.len() > 0 && s[0] != c ==> without_leading(s, c) == s,
    decreases s.len(),
{
    assert((seq![c] + s).drop_first() =~= s);
    if s.len() > 0 && s[0] == c {
        let t = s.drop_first();
        law_leading_characters_are_taken(t, c);
        let r = without_leading(t, c);
        assert(r == t.skip(t.len() - r.len()));
        assert(s.skip(s.len() - r.len()) =~= t.skip(t.len() - r.len()));
    } else {
        assert(s.skip(0) =~= s);
    }
}

} // verus!
