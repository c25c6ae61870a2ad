//! Input validation: email shape, username shape, password strength.
//!
//! The email check implements the shape
//! `[A-Za-z0-9._%+-]+ '@' [A-Za-z0-9.-]+ '.' [A-Za-z]{2,}` directly on
//! characters; `valid_email` is its exact statement. The username and
//! password checks measure lengths in bytes and classify characters per
//! Unicode, through the named classifications of `crate::unicode`.

use vstd::prelude::*;
use vstd::string::{StrSliceExecFns, StringSliceAdditionalSpecFns};
use vstd::utf8::encode_utf8;
use crate::unicode::{
    unicode_alphanumeric, unicode_uppercase, unicode_lowercase, unicode_numeric,
    is_alphanumeric_char, is_uppercase_char, is_lowercase_char, is_numeric_char,
};

verus! {

pub open spec fn is_ascii_alpha(c: char) -> bool {
    ('a' <= c && c <= 'z') || ('A' <= c && c <= 'Z')
}

pub open spec fn is_ascii_digit(c: char) -> bool {
    '0' <= c && c <= '9'
}

/// A character allowed in an email's local part.
pub open spec fn is_local_char(c: char) -> bool {
    is_ascii_alpha(c) || is_ascii_digit(c) || c == '.' || c == '_' || c == '%' || c == '+' || c
        == '-'
}

/// A character allowed in an email's domain part.
pub open spec fn is_domain_char(c: char) -> bool {
    is_ascii_alpha(c) || is_ascii_digit(c) || c == '.' || c == '-'
}

/// `s` splits into an email at the '@' in position `at` and the final dot
/// in position `dot`: a non-empty local part of local characters, a
/// non-empty domain of domain characters, and at least two letters after
/// the dot.
pub open spec fn email_split(s: Seq<char>, at: int, dot: int) -> bool {
    &&& 1 <= at
    &&& at + 2 <= dot
    &&& dot + 3 <= s.len()
    &&& s[at] == '@'
    &&& s[dot] == '.'
    &&& forall|k: int| 0 <= k < at ==> is_local_char(#[trigger] s[k])
    &&& forall|k: int| at < k < dot ==> is_domain_char(#[trigger] s[k])
    &&& forall|k: int| dot < k < s.len() ==> is_ascii_alpha(#[trigger] s[k])
}

/// `s` has the email shape.
pub open spec fn valid_email(s: Seq<char>) -> bool {
    exists|at: int, dot: int| email_split(s, at, dot)
}

fn is_local_char_exec(c: char) -> (r: bool)
    ensures
        r == is_local_char(c),
{
    (c >= 'a' && c <= 'z') || (c >= 'A' && c <= 'Z') || (c >= '0' && c <= '9') || c == '.' || c
        == '_' || c == '%' || c == '+' || c == '-'
}

fn is_domain_char_exec(c: char) -> (r: bool)
    ensures
        r == is_domain_char(c),
{
    (c >= 'a' && c <= 'z') || (c >= 'A' && c <= 'Z') || (c >= '0' && c <= '9') || c == '.' || c
        == '-'
}

fn is_alpha_exec(c: char) -> (r: bool)
    ensures
        r == is_ascii_alpha(c),
{
    (c >= 'a' && c <= 'z') || (c >= 'A' && c <= 'Z')
}

/// Validate email format.
pub fn is_valid_email(email: &str) -> (r: bool)
    ensures
        r == valid_email(email@),
{
    let ghost s = email@;
    let n = email.unicode_len();

    // The local part: everything before the first '@' must be a local
    // character, and must be non-empty.
    let mut at: usize = 0;
    while at < n && email.get_char(at) != '@'
        invariant
            s == email@,
            n == s.len(),
            at <= n,
            forall|k: int| 0 <= k < at ==> s[k] != '@' && is_local_char(#[trigger] s[k]),
        decreases n - at,
    {
        if !is_local_char_exec(email.get_char(at)) {
            // A character before any '@' is outside the local class.
            proof {
                let bad = at as int;
                if valid_email(s) {
                    let (a, d) = choose|a: int, d: int| email_split(s, a, d);
                    assert(s[a] == '@');
                    assert(a > bad);
                    assert(is_local_char(s[bad]));
                }
            }
            return false;
        }
        at = at + 1;
    }
    if at == n || at == 0 {
        // No '@' at all, or an empty local part.
        proof {
            if valid_email(s) {
                let (a, d) = choose|a: int, d: int| email_split(s, a, d);
                if at == n {
                    assert(s[a] == '@');
                } else {
                    assert(is_local_char(s[0]));
                }
            }
        }
        return false;
    }
    assert(s[at as int] == '@');

    // The final dot: scan backwards, over the trailing letters.
    let mut dot: usize = n;
    while dot > at + 1 && email.get_char(dot - 1) != '.'
        invariant
            s == email@,
            n == s.len(),
            at + 1 <= dot <= n,
            forall|k: int| dot <= k < n ==> s[k] != '.',
        decreases dot,
    {
        dot = dot - 1;
    }
    if dot == at + 1 {
        // No '.' after the '@'.
        proof {
            if valid_email(s) {
                let (a, d) = choose|a: int, d: int| email_split(s, a, d);
                assert(a == at) by {
                    if a < at {
                        assert(s[a] != '@');
                    }
                    if at < a {
                        assert(is_local_char(s[at as int]));
                    }
                }
                assert(s[d] == '.');
                assert(d > at + 1);
            }
        }
        return false;
    }
    let dot = dot - 1;
    assert(s[dot as int] == '.');
    assert(forall|k: int| dot < k < n ==> s[k] != '.');

    // With the split pinned, check each remaining condition.
    if dot < at + 2 || n - dot < 3 {
        proof {
            if valid_email(s) {
                let (a, d) = choose|a: int, d: int| email_split(s, a, d);
                assert(a == at) by {
                    if a < at {
                        assert(s[a] != '@');
                    }
                    if at < a {
                        assert(is_local_char(s[at as int]));
                    }
                }
                assert(d == dot) by {
                    if d < dot {
                        assert(is_ascii_alpha(s[dot as int]));
                    }
                    if dot < d {
                        assert(s[d] != '.');
                    }
                }
            }
        }
        return false;
    }
    let mut k: usize = at + 1;
    while k < dot
        invariant
            s == email@,
            n == s.len(),
            at + 1 <= k <= dot < n,
            s[at as int] == '@',
            s[dot as int] == '.',
            forall|t: int| at < t < k ==> is_domain_char(#[trigger] s[t]),
        decreases dot - k,
    {
        if !is_domain_char_exec(email.get_char(k)) {
            proof {
                let bad = k as int;
                if valid_email(s) {
                    let (a, d) = choose|a: int, d: int| email_split(s, a, d);
                    assert(a == at) by {
                        if a < at {
                            assert(s[a] != '@');
                        }
                        if at < a {
                            assert(is_local_char(s[at as int]));
                        }
                    }
                    assert(d >= dot) by {
                        if d < dot {
                            assert(is_ascii_alpha(s[dot as int]));
                        }
                    }
                    assert(is_domain_char(s[bad]));
                }
            }
            return false;
        }
        k = k + 1;
    }
    let mut t: usize = dot + 1;
    while t < n
        invariant
            s == email@,
            n == s.len(),
            dot + 1 <= t <= n,
            at < dot < n,
            s[at as int] == '@',
            s[dot as int] == '.',
            forall|k: int| dot < k < n ==> s[k] != '.',
            forall|u: int| dot < u < t ==> is_ascii_alpha(#[trigger] s[u]),
        decreases n - t,
    {
        if !is_alpha_exec(email.get_char(t)) {
            proof {
                let bad = t as int;
                if valid_email(s) {
                    let (a, d) = choose|a: int, d: int| email_split(s, a, d);
                    assert(a == at) by {
                        if a < at {
                            assert(s[a] != '@');
                        }
                        if at < a {
                            assert(is_local_char(s[at as int]));
                        }
                    }
                    assert(d == dot) by {
                        if d < dot {
                            assert(is_ascii_alpha(s[dot as int]));
                        }
                        if dot < d {
                            assert(s[d] != '.');
                        }
                    }
                    assert(is_ascii_alpha(s[bad]));
                }
            }
            return false;
        }
        t = t + 1;
    }
    proof {
        assert(email_split(s, at as int, dot as int));
    }
    true
}

/// A character allowed in a username.
pub open spec fn is_username_char(c: char) -> bool {
    is_ascii_alpha(c) || is_ascii_digit(c) || c == '_'
}

/// The username shape: 3 to 20 bytes, each character a Unicode
/// alphanumeric or an underscore.
pub open spec fn valid_username(s: Seq<char>) -> bool {
    &&& 3 <= encode_utf8(s).len() <= 20
    &&& forall|k: int|
        0 <= k < s.len() ==> unicode_alphanumeric(#[trigger] s[k]) || s[k] == '_'
}

/// Validate username (alphanumeric and underscores, 3-20 bytes).
pub fn is_valid_username(username: &str) -> (r: bool)
    requires
        encode_utf8(username@).len() <= usize::MAX,
    ensures
        r == valid_username(username@),
{
    let len = username.len();
    proof {
        assert(username.spec_bytes() == encode_utf8(username@));
    }
    if len < 3 || len > 20 {
        return false;
    }
    let n = username.unicode_len();
    let mut i: usize = 0;
    while i < n
        invariant
            n == username@.len(),
            i <= n,
            3 <= encode_utf8(username@).len() <= 20,
            forall|k: int|
                0 <= k < i ==> unicode_alphanumeric(#[trigger] username@[k]) || username@[k]
                    == '_',
        decreases n - i,
    {
        let c = username.get_char(i);
        if !(is_alphanumeric_char(c) || c == '_') {
            return false;
        }
        i = i + 1;
    }
    true
}

/// The password-strength condition: at least 8 bytes, with an upper-case
/// character, a lower-case character and a numeric character, each per
/// its Unicode classification.
pub open spec fn strong_password(s: Seq<char>) -> bool {
    &&& encode_utf8(s).len() >= 8
    &&& exists|k: int| 0 <= k < s.len() && unicode_uppercase(#[trigger] s[k])
    &&& exists|k: int| 0 <= k < s.len() && unicode_lowercase(#[trigger] s[k])
    &&& exists|k: int| 0 <= k < s.len() && unicode_numeric(#[trigger] s[k])
}

/// Validate password strength.
pub fn is_strong_password(password: &str) -> (r: bool)
    requires
        encode_utf8(password@).len() <= usize::MAX,
    ensures
        r == strong_password(password@),
{
    proof {
        assert(password.spec_bytes() == encode_utf8(password@));
    }
    if password.len() < 8 {
        return false;
    }
    let n = password.unicode_len();
    let mut has_upper = false;
    let mut has_lower = false;
    let mut has_digit = false;
    let mut i: usize = 0;
    while i < n
        invariant
            n == password@.len(),
            i <= n,
            has_upper == exists|k: int| 0 <= k < i && unicode_uppercase(#[trigger] password@[k]),
            has_lower == exists|k: int| 0 <= k < i && unicode_lowercase(#[trigger] password@[k]),
            has_digit == exists|k: int| 0 <= k < i && unicode_numeric(#[trigger] password@[k]),
        decreases n - i,
    {
        let c = password.get_char(i);
        if is_uppercase_char(c) {
            has_upper = true;
        }
        if is_lowercase_char(c) {
            has_lower = true;
        }
        if is_numeric_char(c) {
            has_digit = true;
        }
        i = i + 1;
    }
    proof {
        if has_upper {
            assert(exists|k: int|
                0 <= k < password@.len() && unicode_uppercase(#[trigger] password@[k]));
        }
        if has_lower {
            assert(exists|k: int|
                0 <= k < password@.len() && unicode_lowercase(#[trigger] password@[k]));
        }
        if has_digit {
            assert(exists|k: int|
                0 <= k < password@.len() && unicode_numeric(#[trigger] password@[k]));
        }
    }
    has_upper && has_lower && has_digit
}

} // verus!
