//! Decimal rendering of numbers, used when a number is interpolated into a
//! string.

use vstd::prelude::*;

verus! {

/// The character of a single decimal digit.
pub open spec fn digit_char(d: nat) -> char
    recommends
        d < 10,
{
    ((48 + d) as u8) as char
}

/// The decimal digits of a non-negative number, most significant first.
pub open spec fn dec_str(n: nat) -> Seq<char>
    decreases n,
{
    if n < 10 {
        seq![digit_char(n)]
    } else {
        dec_str(n / 10).push(digit_char(n % 10))
    }
}

/// The decimal rendering of a number: a minus sign for negative numbers,
/// then the digits.
pub open spec fn num_str(n: int) -> Seq<char> {
    if n < 0 {
        seq!['-'] + dec_str((-n) as nat)
    } else {
        dec_str(n as nat)
    }
}

fn digit_str(d: u64) -> (r: &'static str)
    requires
        d < 10,
    ensures
        r@ == seq![digit_char(d as nat)],
{
    proof {
        reveal_strlit("0");
        reveal_strlit("1");
        reveal_strlit("2");
        reveal_strlit("3");
        reveal_strlit("4");
        reveal_strlit("5");
        reveal_strlit("6");
        reveal_strlit("7");
        reveal_strlit("8");
        reveal_strlit("9");
    }
    let r = match d {
        0 => "0",
        1 => "1",
        2 => "2",
        3 => "3",
        4 => "4",
        5 => "5",
        6 => "6",
        7 => "7",
        8 => "8",
        _ => "9",
    };
    proof {
        assert(r@ =~= seq![digit_char(d as nat)]);
    }
    r
}

fn push_dec(s: &mut String, m: u64)
    ensures
        final(s)@ == old(s)@ + dec_str(m as nat),
    decreases m,
{
    if m < 10 {
        s.append(digit_str(m));
        proof {
            assert(s@ =~= old(s)@ + dec_str(m as nat));
        }
    } else {
        push_dec(s, m / 10);
        s.append(digit_str(m % 10));
        proof {
            assert(s@ =~= old(s)@ + dec_str(m as nat));
        }
    }
}

/// Renders a number in decimal, with a leading minus sign when negative.
pub fn num_to_string(n: i64) -> (r: String)
    ensures
        r@ == num_str(n as int),
{
    let mut s = String::new();
    if n < 0 {
        proof {
            reveal_strlit("-");
        }
        s.append("-");
        let m: u64 = ((-(n as i128)) as u64);
        push_dec(&mut s, m);
        proof {
            assert(s@ =~= num_str(n as int));
        }
    } else {
        let m: u64 = n as u64;
        push_dec(&mut s, m);
        proof {
            assert(s@ =~= num_str(n as int));
        }
    }
    s
}

} // verus!
