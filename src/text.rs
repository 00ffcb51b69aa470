//! Decimal numbers in text: rendering unsigned integers and parsing them.
use vstd::prelude::*;
use vstd::string::*;

verus! {

/// The character of a decimal digit.
pub open spec fn digit_char(d: nat) -> char {
    if d == 0 { '0' }
    else if d == 1 { '1' }
    else if d == 2 { '2' }
    else if d == 3 { '3' }
    else if d == 4 { '4' }
    else if d == 5 { '5' }
    else if d == 6 { '6' }
    else if d == 7 { '7' }
    else if d == 8 { '8' }
    else { '9' }
}

/// The decimal notation of `n`, without leading zeros ("0" for zero).
pub open spec fn dec_digits(n: nat) -> Seq<char>
    decreases n,
{
    if n < 10 {
        seq![digit_char(n)]
    } else {
        dec_digits(n / 10) + seq![digit_char(n % 10)]
    }
}

/// The one-character string of a decimal digit.
pub fn digit_str(d: u64) -> (r: &'static str)
    requires
        d < 10,
    ensures
        r@ == seq![digit_char(d as nat)],
{
    proof {
        reveal_strlit("0");
        reveal_strlit("1");
        reveal_strlit("2");
        reveal_strlit("3");
        reveal_strlit("4");
        reveal_strlit("5");
        reveal_strlit("6");
        reveal_strlit("7");
        reveal_strlit("8");
        reveal_strlit("9");
    }
    let r = if d == 0 { "0" }
    else if d == 1 { "1" }
    else if d == 2 { "2" }
    else if d == 3 { "3" }
    else if d == 4 { "4" }
    else if d == 5 { "5" }
    else if d == 6 { "6" }
    else if d == 7 { "7" }
    else if d == 8 { "8" }
    else { "9" };
    assert(r@ =~= seq![digit_char(d as nat)]);
    r
}

/// Appends the decimal notation of `n` to `s`.
pub fn append_decimal(s: &mut String, n: u64)
    ensures
        final(s)@ == old(s)@ + dec_digits(n as nat),
    decreases n,
{
    if n >= 10 {
        append_decimal(s, n / 10);
    }
    s.append(digit_str(n % 10));
    assert(s@ =~= old(s)@ + dec_digits(n as nat));
}

pub open spec fn is_digit(c: char) -> bool {
    '0' <= c && c <= '9'
}

/// The number written by a sequence of decimal digits.
pub open spec fn digits_value(d: Seq<char>) -> nat
    decreases d.len(),
{
    if d.len() == 0 {
        0
    } else {
        digits_value(d.drop_last()) * 10 + ((d.last() as int - '0' as int) as nat)
    }
}

/// `p` without one leading `'+'`.
pub open spec fn unsigned_digits(p: Seq<char>) -> Seq<char> {
    if p.len() > 0 && p[0] == '+' { p.drop_first() } else { p }
}

/// An unsigned 32-bit number in decimal: an optional `'+'`, then at least one digit,
/// with a value that fits in 32 bits.
pub open spec fn parse_u32(p: Seq<char>) -> Option<u32> {
    let d = unsigned_digits(p);
    if d.len() > 0 && (forall|i: int| 0 <= i < d.len() ==> is_digit(#[trigger] d[i]))
        && digits_value(d) <= u32::MAX {
        Some(digits_value(d) as u32)
    } else {
        None
    }
}

/// Parses an unsigned 32-bit decimal number as `u32::from_str` does.
pub fn parse_u32_text(p: &str) -> (r: Option<u32>)
    ensures
        r == parse_u32(p@),
{
    let n = p.unicode_len();
    let start: usize = if n > 0 && p.get_char(0) == '+' { 1 } else { 0 };
    let ghost d = unsigned_digits(p@);
    assert(d =~= p@.subrange(start as int, n as int));
    if start == n {
        return None;
    }
    let big: u64 = 0x1_0000_0000;
    let mut value: u64 = 0;
    let mut i: usize = start;
    while i < n
        invariant
            start <= i <= n,
            n == p@.len(),
            d == p@.subrange(start as int, n as int),
            d == unsigned_digits(p@),
            forall|j: int| start <= j < i ==> is_digit(#[trigger] p@[j]),
            big == 0x1_0000_0000u64,
            value <= big,
            value == if digits_value(p@.subrange(start as int, i as int)) < big {
                digits_value(p@.subrange(start as int, i as int))
            } else {
                big as nat
            },
        decreases n - i,
    {
        let c = p.get_char(i);
        if !('0' <= c && c <= '9') {
            assert(d[i - start] == p@[i as int]);
            assert(!is_digit(d[i - start]));
            assert(!(forall|j: int| 0 <= j < d.len() ==> is_digit(#[trigger] d[j])));
            return None;
        }
        let ghost prev = digits_value(p@.subrange(start as int, i as int));
        assert(p@.subrange(start as int, i + 1).drop_last() =~= p@.subrange(start as int, i as int));
        let digit = (c as u32 - '0' as u32) as u64;
        let next = value * 10 + digit;
        assert(digits_value(p@.subrange(start as int, i + 1)) == prev * 10 + digit);
        value = if next < big { next } else { big };
        assert(value == if prev * 10 + digit < big { prev * 10 + digit } else { big as int })
            by (nonlinear_arith)
            requires
                value == if next < big { next } else { big },
                next == (if prev < big { prev as int } else { big as int }) * 10 + digit,
                big == 0x1_0000_0000u64,
        ;
        i = i + 1;
    }
    assert(p@.subrange(start as int, n as int) == d);
    if value < big {
        Some(value as u32)
    } else {
        None
    }
}

} // verus!
