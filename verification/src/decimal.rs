//! Decimal numerals as character sequences, and a verified rendering of
//! `u8` values into their decimal digit strings.

use vstd::prelude::*;
use vstd::string::StringExecFns;

verus! {

/// The single digit character for `d`, meaningful for `d < 10`.
pub open spec fn digit_seq(d: nat) -> Seq<char>
    recommends
        d < 10,
{
    if d == 0 {
        "0"@
    } else if d == 1 {
        "1"@
    } else if d == 2 {
        "2"@
    } else if d == 3 {
        "3"@
    } else if d == 4 {
        "4"@
    } else if d == 5 {
        "5"@
    } else if d == 6 {
        "6"@
    } else if d == 7 {
        "7"@
    } else if d == 8 {
        "8"@
    } else {
        "9"@
    }
}

/// The decimal numeral for `n`: most significant digit first, no sign,
/// no leading zeros.
pub open spec fn decimal_seq(n: nat) -> Seq<char>
    decreases n,
{
    if n < 10 {
        digit_seq(n)
    } else {
        decimal_seq(n / 10) + digit_seq(n % 10)
    }
}

fn digit_str(d: u8) -> (r: &'static str)
    requires
        d < 10,
    ensures
        r@ == digit_seq(d as nat),
{
    match d {
        0 => "0",
        1 => "1",
        2 => "2",
        3 => "3",
        4 => "4",
        5 => "5",
        6 => "6",
        7 => "7",
        8 => "8",
        _ => "9",
    }
}

/// Renders `n` as its decimal numeral.
pub fn decimal_string(n: u8) -> (r: String)
    ensures
        r@ == decimal_seq(n as nat),
{
    if n < 10 {
        digit_str(n).to_owned()
    } else if n < 100 {
        let q: u8 = n / 10;
        let mut s = digit_str(q).to_owned();
        s.append(digit_str(n % 10));
        proof {
            assert(q < 10);
            assert(q as nat == n as nat / 10);
            assert((n % 10) as nat == n as nat % 10);
            assert(decimal_seq(q as nat) == digit_seq(q as nat));
            assert(decimal_seq(n as nat) == decimal_seq(n as nat / 10) + digit_seq(n as nat % 10));
        }
        s
    } else {
        let q: u8 = n / 10;
        let mut s = digit_str(q / 10).to_owned();
        s.append(digit_str(q % 10));
        s.append(digit_str(n % 10));
        proof {
            assert(10 <= q < 26);
            assert(q as nat == n as nat / 10);
            assert(decimal_seq((q / 10) as nat) == digit_seq((q / 10) as nat));
            assert(decimal_seq(q as nat) == decimal_seq(q as nat / 10) + digit_seq(q as nat % 10));
            assert(decimal_seq(n as nat) == decimal_seq(n as nat / 10) + digit_seq(n as nat % 10));
            assert(s@ =~= decimal_seq(n as nat));
        }
        s
    }
}

} // verus!
