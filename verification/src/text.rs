//! Decimal text: rendering integers as decimal strings and parsing decimal
//! strings back into integers, the two directions the route handlers need.

use vstd::prelude::*;

verus! {

/// A cube, as the handlers compute it.
pub open spec fn cube(n: int) -> int {
    n * n * n
}

/// Cube a 32-bit integer without losing precision.
pub fn cube_i32(n: i32) -> (r: i128)
    ensures
        r == cube(n as int),
        i128::MIN < r < i128::MAX,
{
    proof {
        let ni = n as int;
        assert(0 <= ni * ni <= 0x80000000 * 0x80000000) by (nonlinear_arith)
            requires
                -0x80000000 <= ni <= 0x7fffffff,
        ;
        assert(-0x80000000 * 0x80000000 * 0x80000000 <= ni * ni * ni <= 0x80000000 * 0x80000000
            * 0x80000000) by (nonlinear_arith)
            requires
                -0x80000000 <= ni <= 0x7fffffff,
        ;
    }
    let w: i128 = n as i128;
    w * w * w
}

/// The character for one decimal digit.
pub open spec fn digit_char(d: int) -> char {
    if d == 0 {
        '0'
    } else if d == 1 {
        '1'
    } else if d == 2 {
        '2'
    } else if d == 3 {
        '3'
    } else if d == 4 {
        '4'
    } else if d == 5 {
        '5'
    } else if d == 6 {
        '6'
    } else if d == 7 {
        '7'
    } else if d == 8 {
        '8'
    } else {
        '9'
    }
}

/// The decimal digits of `n`, most significant first, with no sign and no
/// leading zero (except for `n == 0`, which is the single digit `0`).
pub open spec fn digits_of(n: nat) -> Seq<char>
    decreases n,
{
    if n < 10 {
        seq![digit_char(n as int)]
    } else {
        digits_of(n / 10) + seq![digit_char((n % 10) as int)]
    }
}

/// The decimal rendering of a (possibly negative) integer.
pub open spec fn int_string(v: int) -> Seq<char> {
    if v >= 0 {
        digits_of(v as nat)
    } else {
        seq!['-'] + digits_of((-v) as nat)
    }
}

/// One decimal digit as a string slice.
fn digit_str(d: u8) -> (r: &'static str)
    requires
        d < 10,
    ensures
        r@ == seq![digit_char(d as int)],
{
    proof {
        reveal_strlit("0");
        reveal_strlit("1");
        reveal_strlit("2");
        reveal_strlit("3");
        reveal_strlit("4");
        reveal_strlit("5");
        reveal_strlit("6");
        reveal_strlit("7");
        reveal_strlit("8");
        reveal_strlit("9");
        assert("0"@ =~= seq!['0']);
        assert("1"@ =~= seq!['1']);
        assert("2"@ =~= seq!['2']);
        assert("3"@ =~= seq!['3']);
        assert("4"@ =~= seq!['4']);
        assert("5"@ =~= seq!['5']);
        assert("6"@ =~= seq!['6']);
        assert("7"@ =~= seq!['7']);
        assert("8"@ =~= seq!['8']);
        assert("9"@ =~= seq!['9']);
    }
    if d == 0 {
        "0"
    } else if d == 1 {
        "1"
    } else if d == 2 {
        "2"
    } else if d == 3 {
        "3"
    } else if d == 4 {
        "4"
    } else if d == 5 {
        "5"
    } else if d == 6 {
        "6"
    } else if d == 7 {
        "7"
    } else if d == 8 {
        "8"
    } else {
        "9"
    }
}

/// Append the decimal digits of `n` to `s`.
pub fn push_digits(s: &mut String, n: u128)
    ensures
        final(s)@ == old(s)@ + digits_of(n as nat),
    decreases n,
{
    if n >= 10 {
        push_digits(s, n / 10);
    }
    let d = digit_str((n % 10) as u8);
    s.append(d);
    proof {
        assert(s@ =~= old(s)@ + digits_of(n as nat));
    }
}

/// Render an unsigned integer in decimal.
pub fn u128_to_string(n: u128) -> (r: String)
    ensures
        r@ == digits_of(n as nat),
{
    let mut s = String::new();
    push_digits(&mut s, n);
    proof {
        assert(s@ =~= digits_of(n as nat));
    }
    s
}

/// Render a signed integer in decimal, minus sign first.
pub fn i128_to_string(v: i128) -> (r: String)
    requires
        v != i128::MIN,
    ensures
        r@ == int_string(v as int),
{
    if v >= 0 {
        u128_to_string(v as u128)
    } else {
        proof {
            reveal_strlit("-");
            assert("-"@ =~= seq!['-']);
        }
        let mut s = String::from_str("-");
        push_digits(&mut s, (-v) as u128);
        proof {
            assert(s@ =~= int_string(v as int));
        }
        s
    }
}

} // verus!
