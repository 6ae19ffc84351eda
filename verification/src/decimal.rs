//! Decimal rendering of integers, used for timestamps in log lines.

use vstd::prelude::*;

verus! {

/// The character for one decimal digit value.
pub open spec fn dec_digit(d: nat) -> char
    recommends
        d < 10,
{
    ((48 + d) as u8) as char
}

/// The decimal digits of a natural number, most significant first.
pub open spec fn dec_digits(n: nat) -> Seq<char>
    decreases n,
{
    if n < 10 {
        seq![dec_digit(n)]
    } else {
        dec_digits(n / 10).push(dec_digit(n % 10))
    }
}

/// The decimal rendering of an integer, with a leading minus sign when
/// negative.
pub open spec fn dec_chars(v: int) -> Seq<char> {
    if v < 0 {
        seq!['-'] + dec_digits((-v) as nat)
    } else {
        dec_digits(v as nat)
    }
}

fn digit_str(d: u64) -> (s: &'static str)
    requires
        d < 10,
    ensures
        s@ == seq![dec_digit(d as nat)],
{
    proof {
        reveal_strlit("0");
        reveal_strlit("1");
        reveal_strlit("2");
        reveal_strlit("3");
        reveal_strlit("4");
        reveal_strlit("5");
        reveal_strlit("6");
        reveal_strlit("7");
        reveal_strlit("8");
        reveal_strlit("9");
    }
    match d {
        0 => "0",
        1 => "1",
        2 => "2",
        3 => "3",
        4 => "4",
        5 => "5",
        6 => "6",
        7 => "7",
        8 => "8",
        _ => "9",
    }
}

fn push_digits(s: &mut String, n: u64)
    ensures
        final(s)@ == old(s)@ + dec_digits(n as nat),
    decreases n,
{
    if n >= 10 {
        push_digits(s, n / 10);
    }
    s.append(digit_str(n % 10));
    proof {
        if n >= 10 {
            assert(final(s)@ =~= old(s)@ + dec_digits(n as nat));
        } else {
            assert(final(s)@ =~= old(s)@ + dec_digits(n as nat));
        }
    }
}

/// The decimal text of `n`.
pub fn format_i64(n: i64) -> (s: String)
    ensures
        s@ == dec_chars(n as int),
{
    let mut s = String::new();
    if n < 0 {
        s.append("-");
        let m: u64 = (-(n as i128)) as u64;
        push_digits(&mut s, m);
        proof {
            reveal_strlit("-");
            assert("-"@ =~= seq!['-']);
            assert(m as nat == (-(n as int)) as nat);
            assert(s@ =~= dec_chars(n as int));
        }
    } else {
        push_digits(&mut s, n as u64);
        proof {
            assert(s@ =~= dec_chars(n as int));
        }
    }
    s
}

} // verus!
