use vstd::prelude::*;
use crate::text::words::append_chars;

verus! {

/// The character of a decimal digit.
pub open spec fn digit_char(d: nat) -> char {
    (0x30 + d) as char
}

/// The decimal numeral of `n`, without leading zeros.
pub open spec fn decimal_spec(n: nat) -> Seq<char>
    decreases n,
{
    if n < 10 {
        seq![digit_char(n)]
    } else {
        decimal_spec(n / 10).push(digit_char(n % 10))
    }
}

/// `count` zeros.
pub open spec fn zeros(count: nat) -> Seq<char> {
    Seq::new(count, |i: int| '0')
}

/// The decimal numeral of `n`, filled with leading zeros to `width` characters.
pub open spec fn padded_decimal_spec(n: nat, width: nat) -> Seq<char> {
    if decimal_spec(n).len() >= width {
        decimal_spec(n)
    } else {
        zeros((width - decimal_spec(n).len()) as nat) + decimal_spec(n)
    }
}

/// The decimal numeral of an integer, with a minus sign for a negative one.
pub open spec fn signed_decimal_spec(n: int) -> Seq<char> {
    if n < 0 {
        seq!['-'] + decimal_spec((-n) as nat)
    } else {
        decimal_spec(n as nat)
    }
}

/// The character of a decimal digit.
fn digit_of(d: u8) -> (c: char)
    requires
        d < 10,
    ensures
        c == digit_char(d as nat),
{
    (0x30u8 + d) as char
}

/// Writes the decimal numeral of `n`.
pub fn decimal(n: u128) -> (out: Vec<char>)
    ensures
        out@ == decimal_spec(n as nat),
        out@.len() >= 1,
{
    let mut out: Vec<char> = Vec::new();
    let mut m: u128 = n;
    assert(decimal_spec(m as nat) + out@ =~= decimal_spec(n as nat));
    while m >= 10
        invariant
            decimal_spec(n as nat) == decimal_spec(m as nat) + out@,
        decreases m,
    {
        let ghost before = out@;
        let d: char = digit_of((m % 10) as u8);
        out.insert(0, d);
        assert(decimal_spec((m / 10) as nat).push(d) + before =~= decimal_spec((m / 10) as nat)
            + out@);
        m = m / 10;
    }
    let ghost before = out@;
    out.insert(0, digit_of(m as u8));
    assert(seq![digit_char(m as nat)] + before =~= out@);
    out
}

/// Writes the decimal numeral of `n`, filled with leading zeros to `width` characters.
pub fn padded_decimal(n: u128, width: usize) -> (out: Vec<char>)
    ensures
        out@ == padded_decimal_spec(n as nat, width as nat),
{
    let digits = decimal(n);
    let mut out: Vec<char> = Vec::new();
    if digits.len() < width {
        let missing: usize = width - digits.len();
        let mut i: usize = 0;
        while i < missing
            invariant
                i <= missing,
                out@ == zeros(i as nat),
            decreases missing - i,
        {
            out.push('0');
            assert(out@ =~= zeros((i + 1) as nat));
            i += 1;
        }
    } else {
        assert(out@ + digits@ =~= digits@);
    }
    append_chars(&mut out, digits.as_slice());
    out
}

/// Writes the decimal numeral of an integer.
pub fn signed_decimal(n: i64) -> (out: Vec<char>)
    ensures
        out@ == signed_decimal_spec(n as int),
{
    if n < 0 {
        let magnitude: u128 = (-(n as i128)) as u128;
        let digits = decimal(magnitude);
        let mut out: Vec<char> = vec!['-'];
        assert(out@ =~= seq!['-']);
        append_chars(&mut out, digits.as_slice());
        out
    } else {
        decimal(n as u128)
    }
}

} // verus!
