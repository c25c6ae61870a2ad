//! Decimal rendering of integers, with a complete functional specification.
//!
//! `dec_nat` and `dec_int` say, character by character, what the decimal
//! form of a number is; the executable functions are proved to produce
//! exactly that sequence.

use vstd::prelude::*;

verus! {

/// The decimal digit character for `d` (0 through 9).
pub open spec fn digit_char(d: int) -> char {
    if d == 0 {
        '0'
    } else if d == 1 {
        '1'
    } else if d == 2 {
        '2'
    } else if d == 3 {
        '3'
    } else if d == 4 {
        '4'
    } else if d == 5 {
        '5'
    } else if d == 6 {
        '6'
    } else if d == 7 {
        '7'
    } else if d == 8 {
        '8'
    } else {
        '9'
    }
}

/// Decimal form of a natural number, most significant digit first,
/// without leading zeros (except for the number 0 itself).
pub open spec fn dec_nat(n: nat) -> Seq<char>
    decreases n,
{
    if n < 10 {
        seq![digit_char(n as int)]
    } else {
        dec_nat(n / 10) + seq![digit_char((n % 10) as int)]
    }
}

/// Decimal form of an integer: a leading '-' for negative numbers.
pub open spec fn dec_int(n: int) -> Seq<char> {
    if n < 0 {
        seq!['-'] + dec_nat((-n) as nat)
    } else {
        dec_nat(n as nat)
    }
}

fn digit_to_char(d: u64) -> (c: char)
    requires
        d < 10,
    ensures
        c == digit_char(d as int),
{
    if d == 0 {
        '0'
    } else if d == 1 {
        '1'
    } else if d == 2 {
        '2'
    } else if d == 3 {
        '3'
    } else if d == 4 {
        '4'
    } else if d == 5 {
        '5'
    } else if d == 6 {
        '6'
    } else if d == 7 {
        '7'
    } else if d == 8 {
        '8'
    } else {
        '9'
    }
}

/// Collecting a vector of characters into a `String` yields the string of
/// exactly those characters.
///
/// Relies on `String: FromIterator<char>`: `collect` concatenates the
/// characters of the iterator in order.
#[verifier::external_body]
pub(crate) fn chars_to_string(v: &Vec<char>) -> (r: String)
    ensures
        r@ == v@,
{
    v.iter().collect()
}

/// The decimal form of `n`, as specified by `dec_nat`.
pub fn u64_to_string(n: u64) -> (r: String)
    ensures
        r@ == dec_nat(n as nat),
{
    let mut digits: Vec<char> = Vec::new();
    let mut m: u64 = n;
    while m >= 10
        invariant
            dec_nat(n as nat) =~= dec_nat(m as nat) + digits@.reverse(),
        decreases m,
    {
        let d = m % 10;
        digits.push(digit_to_char(d));
        proof {
            assert(digits@.reverse() =~= seq![digit_char(d as int)] + digits@.drop_last().reverse());
            assert(dec_nat(m as nat) =~= dec_nat((m as nat) / 10) + seq![
                digit_char(((m as nat) % 10) as int),
            ]);
            assert(dec_nat(n as nat) =~= dec_nat(((m / 10) as u64) as nat) + digits@.reverse());
        }
        m = m / 10;
    }
    digits.push(digit_to_char(m));
    proof {
        assert(digits@.reverse() =~= seq![digit_char(m as int)] + digits@.drop_last().reverse());
        assert(digits@.reverse() =~= dec_nat(n as nat));
    }
    let mut out: Vec<char> = Vec::new();
    let mut k: usize = 0;
    let count = digits.len();
    while k < count
        invariant
            count == digits@.len(),
            k <= count,
            out@.len() == k,
            forall|t: int| 0 <= t < k ==> out@[t] == digits@[count - 1 - t],
        decreases count - k,
    {
        out.push(digits[count - 1 - k]);
        k = k + 1;
    }
    assert(out@ =~= digits@.reverse());
    chars_to_string(&out)
}

/// The decimal form of `n`, as specified by `dec_int`.
pub fn i32_to_string(n: i32) -> (r: String)
    ensures
        r@ == dec_int(n as int),
{
    if n >= 0 {
        u64_to_string(n as u64)
    } else {
        let magnitude: u64 = if n == i32::MIN {
            2147483648u64
        } else {
            (-n) as u64
        };
        let mut r = String::from_str("-");
        proof {
            reveal_strlit("-");
        }
        let digits = u64_to_string(magnitude);
        r.append(digits.as_str());
        assert(r@ =~= dec_int(n as int));
        r
    }
}

/// Every character of a decimal rendering is a digit.
pub proof fn lemma_dec_nat_digits(n: nat)
    ensures
        forall|k: int| 0 <= k < dec_nat(n).len() ==> '0' <= #[trigger] dec_nat(n)[k] <= '9',
    decreases n,
{
    if n < 10 {
        assert(dec_nat(n) =~= seq![digit_char(n as int)]);
    } else {
        lemma_dec_nat_digits(n / 10);
        assert forall|k: int| 0 <= k < dec_nat(n).len() implies '0' <= #[trigger] dec_nat(n)[k]
            <= '9' by {
            if k < dec_nat(n / 10).len() {
                assert(dec_nat(n)[k] == dec_nat(n / 10)[k]);
            } else {
                assert(dec_nat(n)[k] == digit_char((n % 10) as int));
            }
        }
    }
}

/// A decimal rendering is never empty, and has at least two digits from 10
/// upwards.
pub proof fn lemma_dec_nat_len(n: nat)
    ensures
        dec_nat(n).len() >= 1,
        n >= 10 ==> dec_nat(n).len() >= 2,
    decreases n,
{
    if n >= 10 {
        lemma_dec_nat_len(n / 10);
    }
}

/// Decimal renderings are unambiguous: equal renderings mean equal numbers.
pub proof fn lemma_dec_nat_injective(a: nat, b: nat)
    requires
        dec_nat(a) == dec_nat(b),
    ensures
        a == b,
    decreases a,
{
    lemma_dec_nat_len(a);
    lemma_dec_nat_len(b);
    if a < 10 && b < 10 {
        assert(dec_nat(a)[0] == digit_char(a as int));
        assert(dec_nat(b)[0] == digit_char(b as int));
        assert(a == b);
    } else if a < 10 {
        assert(dec_nat(a).len() == 1);
        assert(false);
    } else if b < 10 {
        assert(dec_nat(b).len() == 1);
        assert(false);
    } else {
        let s1 = dec_nat(a / 10);
        let s2 = dec_nat(b / 10);
        let last = dec_nat(a).len() - 1;
        assert(dec_nat(a)[last] == digit_char((a % 10) as int));
        assert(dec_nat(b)[last] == digit_char((b % 10) as int));
        assert(a % 10 == b % 10);
        assert(s1 =~= s2) by {
            assert(s1.len() == s2.len());
            assert forall|k: int| 0 <= k < s1.len() implies s1[k] == s2[k] by {
                assert(dec_nat(a)[k] == s1[k]);
                assert(dec_nat(b)[k] == s2[k]);
            }
        }
        lemma_dec_nat_injective(a / 10, b / 10);
    }
}

} // verus!
