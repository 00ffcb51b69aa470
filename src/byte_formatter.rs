use vstd::prelude::*;
use vstd::string::*;
use crate::text::{append_decimal, dec_digits, digit_char, digit_str};

verus! {

/// 1024 to the power `k`.
pub open spec fn pow1024(k: nat) -> nat
    decreases k,
{
    if k == 0 { 1 } else { 1024 * pow1024((k - 1) as nat) }
}

/// Index into B, KB, MB, GB: the largest unit, at most GB, that `bytes` reaches.
pub open spec fn unit_index(bytes: nat) -> nat {
    if bytes < pow1024(1) { 0 }
    else if bytes < pow1024(2) { 1 }
    else if bytes < pow1024(3) { 2 }
    else { 3 }
}

pub open spec fn unit_name(k: nat) -> Seq<char> {
    if k == 0 { seq!['B'] }
    else if k == 1 { seq!['K', 'B'] }
    else if k == 2 { seq!['M', 'B'] }
    else { seq!['G', 'B'] }
}

/// `num / den` rounded to the nearest integer, an exact half going to the even neighbour.
pub open spec fn round_half_even(num: nat, den: nat) -> nat
    recommends den > 0,
{
    let q = num / den;
    let r = num % den;
    if 2 * r > den || (2 * r == den && q % 2 == 1) { q + 1 } else { q }
}

/// The human-readable size: whole bytes below 1 KB ("512 B"); otherwise the value
/// in the largest unit reached, up to GB, with one decimal ("1.5 KB").
pub open spec fn byte_text(bytes: nat) -> Seq<char> {
    let k = unit_index(bytes);
    if k == 0 {
        dec_digits(bytes) + seq![' '] + unit_name(0)
    } else {
        let tenths = round_half_even(bytes * 10, pow1024(k));
        dec_digits(tenths / 10) + seq!['.', digit_char(tenths % 10), ' '] + unit_name(k)
    }
}

fn unit_str(k: u64) -> (r: &'static str)
    requires
        k <= 3,
    ensures
        r@ == seq![' '] + unit_name(k as nat),
{
    proof {
        reveal_strlit(" B");
        reveal_strlit(" KB");
        reveal_strlit(" MB");
        reveal_strlit(" GB");
    }
    let r = if k == 0 { " B" } else if k == 1 { " KB" } else if k == 2 { " MB" } else { " GB" };
    assert(r@ =~= seq![' '] + unit_name(k as nat));
    r
}

/// Formats a byte count with binary units (B, KB, MB, GB).
pub fn format_bytes(bytes: u64) -> (r: String)
    ensures
        r@ == byte_text(bytes as nat),
{
    assert(pow1024(0) == 1);
    assert(pow1024(1) == 1024);
    assert(pow1024(2) == 1048576);
    assert(pow1024(3) == 1073741824);
    let k: u64 = if bytes < 1024 { 0 } else if bytes < 1048576 { 1 } else if bytes < 1073741824 { 2 } else { 3 };
    let mut s = String::new();
    if k == 0 {
        append_decimal(&mut s, bytes);
        s.append(unit_str(0));
        assert(s@ =~= byte_text(bytes as nat));
        return s;
    }
    let den: u128 = if k == 1 { 1024 } else if k == 2 { 1048576 } else { 1073741824 };
    let num: u128 = bytes as u128 * 10;
    let q: u128 = num / den;
    let rem: u128 = num % den;
    let tenths: u128 = if 2 * rem > den || (2 * rem == den && q % 2 == 1) { q + 1 } else { q };
    assert(tenths == round_half_even(bytes as nat * 10, pow1024(k as nat)));
    assert(tenths <= 0xffff_ffff_ffff_ffff_ffffu128) by (nonlinear_arith)
        requires q == num / den, den >= 1024, num <= 0xffff_ffff_ffff_ffffu128 * 10, tenths <= q + 1;
    append_decimal(&mut s, (tenths / 10) as u64);
    proof { reveal_strlit("."); }
    s.append(".");
    s.append(digit_str((tenths % 10) as u64));
    s.append(unit_str(k));
    assert(s@ =~= byte_text(bytes as nat));
    s
}

} // verus!
