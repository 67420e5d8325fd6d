//! Small verified string helpers: decimal rendering of integers, literal
//! matching, and deal identifier strings.

use vstd::prelude::*;

verus! {

/// The single decimal digit character sequence for `d` in `0..10`.
pub open spec fn dec_digit(d: int) -> Seq<char> {
    if d == 0 {
        "0"@
    } else if d == 1 {
        "1"@
    } else if d == 2 {
        "2"@
    } else if d == 3 {
        "3"@
    } else if d == 4 {
        "4"@
    } else if d == 5 {
        "5"@
    } else if d == 6 {
        "6"@
    } else if d == 7 {
        "7"@
    } else if d == 8 {
        "8"@
    } else {
        "9"@
    }
}

/// Decimal rendering of a non-negative integer, most significant digit
/// first, with no leading zeros.
pub open spec fn dec_str(n: int) -> Seq<char>
    recommends
        n >= 0,
    decreases n,
{
    if n < 10 {
        dec_digit(n)
    } else {
        dec_str(n / 10) + dec_digit(n % 10)
    }
}

/// Literal slice for one decimal digit.
pub fn digit_str(d: u64) -> (r: &'static str)
    requires
        d < 10,
    ensures
        r@ == dec_digit(d as int),
{
    if d == 0 {
        "0"
    } else if d == 1 {
        "1"
    } else if d == 2 {
        "2"
    } else if d == 3 {
        "3"
    } else if d == 4 {
        "4"
    } else if d == 5 {
        "5"
    } else if d == 6 {
        "6"
    } else if d == 7 {
        "7"
    } else if d == 8 {
        "8"
    } else {
        "9"
    }
}

/// Decimal rendering of `n` as an owned string.
pub fn dec_string(n: u64) -> (r: String)
    ensures
        r@ == dec_str(n as int),
    decreases n,
{
    if n < 10 {
        digit_str(n).to_owned()
    } else {
        let mut s = dec_string(n / 10);
        s.append(digit_str(n % 10));
        s
    }
}

/// Whether the string equals the given literal, stated over views.
pub fn str_matches(s: &String, lit: &str) -> (r: bool)
    ensures
        r == (s@ == lit@),
{
    s.eq(&lit.to_owned())
}

/// View of the identifier string assigned to the deal opened with counter
/// value `k`.
pub open spec fn deal_id_chars(k: u64) -> Seq<char> {
    "deal_"@ + dec_str(k as int)
}

/// Identifier string assigned to the deal opened with counter value `k`.
pub fn deal_id_string(k: u64) -> (r: String)
    ensures
        r@ == deal_id_chars(k),
{
    let mut s = "deal_".to_owned();
    let d = dec_string(k);
    s.append(d.as_str());
    s
}

} // verus!
