//! The number routes: cubes of path parameters, and the sled-id route that
//! splits a trailing path on `/`, parses every piece as a 32-bit integer,
//! folds the pieces together with XOR and cubes the result.

use crate::AppError;
use crate::text::{cube, cube_i32, i128_to_string, int_string};
use vstd::prelude::*;

verus! {

/// ASCII `+`.
pub const PLUS: u8 = 43;

/// ASCII `-`.
pub const MINUS: u8 = 45;

/// ASCII `/`.
pub const SLASH: u8 = 47;

/// ASCII `0`.
pub const DIGIT_0: u8 = 48;

/// ASCII `9`.
pub const DIGIT_9: u8 = 57;

/// An ASCII decimal digit.
pub open spec fn is_ascii_digit(b: u8) -> bool {
    DIGIT_0 <= b && b <= DIGIT_9
}

/// Every byte of `s` is a decimal digit.
pub open spec fn all_digits(s: Seq<u8>) -> bool {
    forall|i: int| 0 <= i < s.len() ==> is_ascii_digit(#[trigger] s[i])
}

/// The number that a run of decimal digits denotes, most significant first.
pub open spec fn digits_value(s: Seq<u8>) -> int
    decreases s.len(),
{
    if s.len() == 0 {
        0
    } else {
        digits_value(s.drop_last()) * 10 + (s.last() - DIGIT_0)
    }
}

/// What a run of digits parses to, given the sign read before it: the denoted
/// number when all bytes are digits, there is at least one, and the signed
/// value fits a 32-bit integer; nothing otherwise.
pub open spec fn parse_digits(s: Seq<u8>, neg: bool) -> Option<i32> {
    if s.len() == 0 || !all_digits(s) {
        Option::None
    } else if neg {
        if digits_value(s) <= 0x8000_0000 {
            Option::Some((-digits_value(s)) as i32)
        } else {
            Option::None
        }
    } else {
        if digits_value(s) <= 0x7fff_ffff {
            Option::Some(digits_value(s) as i32)
        } else {
            Option::None
        }
    }
}

/// What a byte string parses to as a signed 32-bit integer: an optional `+`
/// or `-` sign followed by at least one decimal digit, the value in range.
pub open spec fn parse_i32_spec(s: Seq<u8>) -> Option<i32> {
    if s.len() > 0 && (s[0] == PLUS || s[0] == MINUS) {
        parse_digits(s.subrange(1, s.len() as int), s[0] == MINUS)
    } else {
        parse_digits(s, false)
    }
}

proof fn lemma_digits_value_nonneg(s: Seq<u8>)
    requires
        all_digits(s),
    ensures
        digits_value(s) >= 0,
    decreases s.len(),
{
    if s.len() > 0 {
        assert(all_digits(s.drop_last())) by {
            assert(forall|i: int|
                0 <= i < s.len() - 1 ==> s.drop_last()[i] == #[trigger] s[i]);
        }
        lemma_digits_value_nonneg(s.drop_last());
    }
}

proof fn lemma_digits_value_grows(s: Seq<u8>, i: int)
    requires
        0 <= i <= s.len(),
        all_digits(s),
    ensures
        digits_value(s.subrange(0, i)) <= digits_value(s),
    decreases s.len() - i,
{
    if i == s.len() {
        assert(s.subrange(0, i) =~= s);
    } else {
        let p = s.subrange(0, i);
        let q = s.subrange(0, i + 1);
        assert(q.drop_last() =~= p);
        assert(all_digits(p)) by {
            assert(forall|k: int| 0 <= k < i ==> p[k] == #[trigger] s[k]);
        }
        lemma_digits_value_nonneg(p);
        assert(digits_value(q) == digits_value(p) * 10 + (s[i] - DIGIT_0));
        lemma_digits_value_grows(s, i + 1);
    }
}

/// Parse a byte string as a signed 32-bit decimal integer, exactly as
/// `parse_i32_spec` describes.
pub fn parse_i32(s: &[u8]) -> (r: Option<i32>)
    ensures
        r == parse_i32_spec(s@),
{
    let len = s.len();
    let (neg, start): (bool, usize) = if len > 0 && (s[0] == PLUS || s[0] == MINUS) {
        (s[0] == MINUS, 1)
    } else {
        (false, 0)
    };
    let ghost t = s@.subrange(start as int, s@.len() as int);
    proof {
        if start == 0 {
            assert(t =~= s@);
        }
        assert(parse_i32_spec(s@) == parse_digits(t, neg));
    }
    if start >= len {
        return Option::None;
    }
    let mut i = start;
    let mut acc: u64 = 0;
    while i < len
        invariant
            start <= i <= len,
            len == s@.len(),
            start <= len,
            t == s@.subrange(start as int, s@.len() as int),
            all_digits(s@.subrange(start as int, i as int)),
            acc == digits_value(s@.subrange(start as int, i as int)),
            acc <= 0x8000_0000,
            parse_i32_spec(s@) == parse_digits(t, neg),
        decreases len - i,
    {
        let b = s[i];
        if !(DIGIT_0 <= b && b <= DIGIT_9) {
            proof {
                assert(t[i - start] == s@[i as int]);
                assert(!all_digits(t));
            }
            return Option::None;
        }
        let d = (b - DIGIT_0) as u64;
        let ghost p = s@.subrange(start as int, i as int);
        let ghost q = s@.subrange(start as int, i + 1 as int);
        proof {
            assert(q.drop_last() =~= p);
            assert(all_digits(q)) by {
                assert(forall|k: int|
                    start <= k < i + 1 ==> q[k - start] == #[trigger] s@[k]);
            }
        }
        let next = acc * 10 + d;
        if next > 0x8000_0000 {
            proof {
                if all_digits(t) {
                    assert(t.subrange(0, i + 1 - start as int) =~= q);
                    lemma_digits_value_grows(t, i + 1 - start as int);
                    assert(digits_value(t) > 0x8000_0000);
                }
            }
            return Option::None;
        }
        acc = next;
        i += 1;
    }
    proof {
        assert(s@.subrange(start as int, i as int) =~= t);
    }
    if neg {
        let v = -(acc as i64);
        Option::Some(v as i32)
    } else if acc > 0x7fff_ffff {
        Option::None
    } else {
        Option::Some(acc as i32)
    }
}

/// The position of the first `/` at or after `i`, or the length when there
/// is none.
pub open spec fn find_slash(s: Seq<u8>, i: int) -> int
    decreases s.len() - i,
{
    if i < 0 {
        0
    } else if i >= s.len() {
        s.len() as int
    } else if s[i] == SLASH {
        i
    } else {
        find_slash(s, i + 1)
    }
}

/// The segments of a byte string split on `/`: always one more segment than
/// there are slashes, so an empty string yields one empty segment.
pub open spec fn split_slashes(s: Seq<u8>) -> Seq<Seq<u8>>
    decreases s.len(),
{
    let j = find_slash(s, 0);
    if 0 <= j < s.len() {
        seq![s.subrange(0, j)] + split_slashes(s.subrange(j + 1, s.len() as int))
    } else {
        seq![s]
    }
}

proof fn lemma_find_slash(s: Seq<u8>, i: int, r: int)
    requires
        0 <= i <= r <= s.len(),
        forall|k: int| i <= k < r ==> s[k] != SLASH,
        r == s.len() || s[r] == SLASH,
    ensures
        find_slash(s, i) == r,
    decreases r - i,
{
    if i < r {
        lemma_find_slash(s, i + 1, r);
    }
}

/// Every segment parses as a 32-bit integer.
pub open spec fn parsed_segments_ok(parts: Seq<Seq<u8>>) -> bool {
    forall|k: int| 0 <= k < parts.len() ==> (#[trigger] parse_i32_spec(parts[k])) is Some
}

/// The parsed value of each segment.
pub open spec fn parsed_values(parts: Seq<Seq<u8>>) -> Seq<i32> {
    parts.map_values(|p: Seq<u8>| parse_i32_spec(p).unwrap())
}

/// The XOR of all elements, combined left to right starting from zero.
pub open spec fn xor_fold(s: Seq<i32>) -> i32
    decreases s.len(),
{
    if s.len() == 0 {
        0i32
    } else {
        xor_fold(s.drop_last()) ^ s.last()
    }
}

/// The full list of sled numbers: the two leading path parameters followed
/// by the parsed trailing segments.
pub open spec fn sled_values(num1: i32, num2: i32, rest: Seq<u8>) -> Seq<i32> {
    seq![num1, num2] + parsed_values(split_slashes(rest))
}

/// The cube of one path parameter, as decimal text.
pub fn pow_three(num1: i32) -> (r: String)
    ensures
        r@ == int_string(cube(num1 as int)),
{
    let c = cube_i32(num1);
    i128_to_string(c)
}

/// The cube of the XOR of two path parameters, as decimal text.
pub fn xor_pow_three(num1: i32, num2: i32) -> (r: String)
    ensures
        r@ == int_string(cube((num1 ^ num2) as int)),
{
    pow_three(num1 ^ num2)
}

/// The sled-id route: split the trailing path on `/`, parse every segment as
/// a 32-bit integer, XOR the two leading parameters with all segment values,
/// and cube the result. An unparsable segment is reported as an error rather
/// than a crash.
pub fn sled_id(num1: i32, num2: i32, rest: &[u8]) -> (r: Result<String, AppError>)
    ensures
        r is Ok <==> parsed_segments_ok(split_slashes(rest@)),
        r is Ok ==> r->Ok_0@ == int_string(cube(xor_fold(sled_values(num1, num2, rest@)) as int)),
{
    let ghost parts = split_slashes(rest@);
    let mut vals: Vec<i32> = Vec::new();
    vals.push(num1);
    vals.push(num2);
    let ghost mut done: Seq<Seq<u8>> = Seq::empty();
    let len = rest.len();
    let mut p: usize = 0;
    proof {
        assert(rest@.subrange(0, len as int) =~= rest@);
        assert(done + split_slashes(rest@) =~= split_slashes(rest@));
    }
    loop
        invariant_except_break
            parts == done + split_slashes(rest@.subrange(p as int, len as int)),
        invariant
            p <= len,
            len == rest@.len(),
            parts == split_slashes(rest@),
            parsed_segments_ok(done),
            vals@ == seq![num1, num2] + parsed_values(done),
        ensures
            done == parts,
        decreases len - p,
    {
        let mut j = p;
        while j < len && rest[j] != SLASH
            invariant
                p <= j <= len,
                len == rest@.len(),
                forall|k: int| p <= k < j ==> rest@[k] != SLASH,
            decreases len - j,
        {
            j += 1;
        }
        let ghost t = rest@.subrange(p as int, len as int);
        proof {
            assert(forall|k: int| 0 <= k < len - p ==> t[k] == #[trigger] rest@[k + p]);
            if j < len {
                assert(t[j - p] == SLASH);
            }
            lemma_find_slash(t, 0, j - p);
        }
        let seg: &[u8] = &rest[p..j];
        proof {
            assert(seg@ =~= t.subrange(0, j - p));
            if j < len {
                assert(split_slashes(t) == seq![t.subrange(0, j - p)] + split_slashes(
                    t.subrange(j - p + 1, t.len() as int)));
                assert(t.subrange(j - p + 1, t.len() as int) =~= rest@.subrange(
                    j + 1 as int, len as int));
            } else {
                assert(t.subrange(0, j - p) =~= t);
                assert(split_slashes(t) == seq![t]);
            }
        }
        match parse_i32(seg) {
            Option::None => {
                proof {
                    assert(parts[done.len() as int] == seg@);
                    assert(!parsed_segments_ok(parts));
                }
                return Result::Err(AppError::new());
            },
            Option::Some(v) => {
                vals.push(v);
                proof {
                    let prev = done;
                    done = done + seq![seg@];
                    assert(parsed_segments_ok(done)) by {
                        assert(forall|k: int|
                            0 <= k < prev.len() ==> done[k] == #[trigger] prev[k]);
                    }
                    assert(parsed_values(done) =~= parsed_values(prev) + seq![v]);
                    assert(vals@ =~= seq![num1, num2] + parsed_values(done));
                }
            },
        }
        if j >= len {
            break ;
        }
        p = j + 1;
    }
    let mut acc: i32 = 0;
    let mut k: usize = 0;
    while k < vals.len()
        invariant
            k <= vals@.len(),
            acc == xor_fold(vals@.subrange(0, k as int)),
        decreases vals@.len() - k,
    {
        proof {
            assert(vals@.subrange(0, k + 1 as int).drop_last() =~= vals@.subrange(0, k as int));
        }
        acc = acc ^ vals[k];
        k += 1;
    }
    proof {
        assert(vals@.subrange(0, vals@.len() as int) =~= vals@);
    }
    let c = cube_i32(acc);
    Result::Ok(i128_to_string(c))
}

} // verus!
