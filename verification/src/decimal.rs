//! Numbers in decimal notation.
use vstd::prelude::*;

verus! {

/// The decimal digit for `n`, which is below ten.
pub open spec fn digit(n: nat) -> char {
    (0x30 + n) as char
}

/// `n` in decimal, without leading zeros.
pub open spec fn decimal(n: nat) -> Seq<char>
    decreases n,
{
    if n < 10 {
        seq![digit(n)]
    } else {
        decimal(n / 10).push(digit(n % 10))
    }
}

fn push_digit(out: &mut String, n: u8)
    requires
        n < 10,
    ensures
        final(out)@ == old(out)@.push(digit(n as nat)),
{
    out.push((0x30 + n) as char);
}

/// Writes `n` in decimal.
pub fn to_decimal(n: u64) -> (r: String)
    ensures
        r@ == decimal(n as nat),
    decreases n,
{
    if n < 10 {
        let mut out: String = String::new();
        push_digit(&mut out, n as u8);
        assert(out@ =~= seq![digit(n as nat)]);
        out
    } else {
        let mut out: String = to_decimal(n / 10);
        push_digit(&mut out, (n % 10) as u8);
        out
    }
}

/// `n` in decimal, with a minus sign before it where it is negative.
pub open spec fn signed_decimal(n: int) -> Seq<char> {
    if n < 0 {
        seq!['-'] + decimal((-n) as nat)
    } else {
        decimal(n as nat)
    }
}

/// Writes `n` in decimal.
pub fn to_signed_decimal(n: i32) -> (r: String)
    ensures
        r@ == signed_decimal(n as int),
{
    if n < 0 {
        let mut out: String = String::new();
        out.push('-');
        assert(out@ =~= seq!['-']);
        let magnitude: i64 = 0 - (n as i64);
        vstd::string::StringExecFns::concat(out, to_decimal(magnitude as u64).as_str())
    } else {
        to_decimal(n as u64)
    }
}

/// A number in decimal is made of digits, of which there is at least one.
pub proof fn lemma_decimal_digits(n: nat)
    ensures
        decimal(n).len() > 0,
        forall|i: int| 0 <= i < decimal(n).len() ==> '0' <= #[trigger] decimal(n)[i] <= '9',
    decreases n,
{
    if n >= 10 {
        lemma_decimal_digits(n / 10);
        let front = decimal(n / 10);
        assert forall|i: int| 0 <= i < decimal(n).len() implies '0' <= #[trigger] decimal(n)[i]
            <= '9' by {
            if i < front.len() {
                assert(decimal(n)[i] == front[i]);
            }
        }
    }
}

/// The number that decimal digits stand for.
pub open spec fn digits_value(s: Seq<char>) -> nat
    decreases s.len(),
{
    if s.len() == 0 {
        0
    } else {
        digits_value(s.drop_last()) * 10 + (s.last() as u32 - '0' as u32) as nat
    }
}

/// A number that is written in decimal is read as that number, so that two numbers are never
/// written alike. Only zero begins with a zero.
pub proof fn law_decimal_reads_back(n: nat)
    ensures
        digits_value(decimal(n)) == n,
        decimal(n)[0] == '0' ==> n == 0,
    decreases n,
{
    lemma_decimal_digits(n);
    let d = decimal(n);
    if n >= 10 {
        law_decimal_reads_back(n / 10);
        lemma_decimal_digits(n / 10);
        assert(d.drop_last() =~= decimal(n / 10));
        assert(d[0] == decimal(n / 10)[0]);
    } else {
        assert(d.drop_last() =~= Seq::<char>::empty());
        assert(digits_value(Seq::<char>::empty()) == 0);
    }
}

/// A number with a sign is read as that number: a minus sign stands before exactly the negative
/// ones, and what follows it is the magnitude.
pub proof fn law_signed_decimal_reads_back(n: int)
    ensures
        (signed_decimal(n)[0] == '-') == (n < 0),
        n < 0 ==> digits_value(signed_decimal(n).skip(1)) == -n,
        n >= 0 ==> digits_value(signed_decimal(n)) == n,
{
    if n < 0 {
        law_decimal_reads_back((-n) as nat);
        assert(signed_decimal(n).skip(1) =~= decimal((-n) as nat));
    } else {
        law_decimal_reads_back(n as nat);
        lemma_decimal_digits(n as nat);
    }
}

} // verus!
