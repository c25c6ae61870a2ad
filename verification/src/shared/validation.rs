//! Field validation returning operator-readable error messages.
//!
//! Each check states exactly on which inputs it succeeds and, when it
//! fails, exactly which message it returns.

use vstd::prelude::*;
use vstd::string::{StrSliceExecFns, StringSliceAdditionalSpecFns};
use vstd::utf8::encode_utf8;
use crate::numerals::{dec_nat, dec_int, u64_to_string, i32_to_string};
use crate::unicode::{unicode_whitespace, is_whitespace_char};
use crate::validation::{valid_email, is_username_char, is_valid_email};

verus! {

/// Every character of `s` is Unicode whitespace (an empty `s` counts):
/// exactly the strings `str::trim` reduces to nothing.
pub open spec fn all_blank(s: Seq<char>) -> bool {
    forall|k: int| 0 <= k < s.len() ==> unicode_whitespace(#[trigger] s[k])
}

/// The username shape this layer accepts: 3 to 50 characters, letters,
/// digits and underscores only.
pub open spec fn username_shape(s: Seq<char>) -> bool {
    3 <= s.len() <= 50 && forall|k: int| 0 <= k < s.len() ==> is_username_char(#[trigger] s[k])
}

/// Validate email format.
pub fn validate_email(email: &str) -> (r: Result<(), String>)
    ensures
        match r {
            Ok(_) => email@.len() > 0 && valid_email(email@),
            Err(m) => {
                if email@.len() == 0 {
                    m@ == "Email cannot be empty"@
                } else {
                    !valid_email(email@) && m@ == "Invalid email format"@
                }
            },
        },
{
    if email.unicode_len() == 0 {
        return Err(String::from_str("Email cannot be empty"));
    }
    if !is_valid_email(email) {
        return Err(String::from_str("Invalid email format"));
    }
    Ok(())
}

/// Validate username format.
pub fn validate_username(username: &str) -> (r: Result<(), String>)
    ensures
        match r {
            Ok(_) => username@.len() > 0 && username_shape(username@),
            Err(m) => {
                if username@.len() == 0 {
                    m@ == "Username cannot be empty"@
                } else {
                    !username_shape(username@) && m@
                        == "Username must be 3-50 characters long and contain only letters, numbers, and underscores"@
                }
            },
        },
{
    let n = username.unicode_len();
    if n == 0 {
        return Err(String::from_str("Username cannot be empty"));
    }
    if n < 3 || n > 50 {
        return Err(
            String::from_str(
                "Username must be 3-50 characters long and contain only letters, numbers, and underscores",
            ),
        );
    }
    let mut i: usize = 0;
    while i < n
        invariant
            n == username@.len(),
            i <= n,
            forall|k: int| 0 <= k < i ==> is_username_char(#[trigger] username@[k]),
        decreases n - i,
    {
        let c = username.get_char(i);
        if !((c >= 'a' && c <= 'z') || (c >= 'A' && c <= 'Z') || (c >= '0' && c <= '9') || c
            == '_') {
            return Err(
                String::from_str(
                    "Username must be 3-50 characters long and contain only letters, numbers, and underscores",
                ),
            );
        }
        i = i + 1;
    }
    Ok(())
}

/// The message `validate_length` returns on a violation.
pub open spec fn length_message(field: Seq<char>, min: nat, max: nat) -> Seq<char> {
    field + " must be between "@ + dec_nat(min) + " and "@ + dec_nat(max) + " characters"@
}

/// Validate string length in bytes.
pub fn validate_length(value: &str, field_name: &str, min: usize, max: usize) -> (r: Result<
    (),
    String,
>)
    requires
        encode_utf8(value@).len() <= usize::MAX,
    ensures
        match r {
            Ok(_) => min <= encode_utf8(value@).len() <= max,
            Err(m) => (encode_utf8(value@).len() < min || encode_utf8(value@).len() > max) && m@
                == length_message(field_name@, min as nat, max as nat),
        },
{
    proof {
        assert(value.spec_bytes() == encode_utf8(value@));
    }
    let len = value.len();
    if len < min || len > max {
        let mut m = field_name.to_owned();
        m.append(" must be between ");
        let min_digits = u64_to_string(min as u64);
        m.append(min_digits.as_str());
        m.append(" and ");
        let max_digits = u64_to_string(max as u64);
        m.append(max_digits.as_str());
        m.append(" characters");
        return Err(m);
    }
    Ok(())
}

/// Validate that a string holds something besides whitespace.
pub fn validate_not_empty(value: &str, field_name: &str) -> (r: Result<(), String>)
    ensures
        match r {
            Ok(_) => !all_blank(value@),
            Err(m) => all_blank(value@) && m@ == field_name@ + " cannot be empty"@,
        },
{
    let n = value.unicode_len();
    let mut i: usize = 0;
    while i < n
        invariant
            n == value@.len(),
            i <= n,
            forall|k: int| 0 <= k < i ==> unicode_whitespace(#[trigger] value@[k]),
        decreases n - i,
    {
        let c = value.get_char(i);
        if !is_whitespace_char(c) {
            return Ok(());
        }
        i = i + 1;
    }
    let mut m = field_name.to_owned();
    m.append(" cannot be empty");
    Err(m)
}

/// Validate that a number is positive.
pub fn validate_positive(value: i32, field_name: &str) -> (r: Result<(), String>)
    ensures
        match r {
            Ok(_) => value > 0,
            Err(m) => value <= 0 && m@ == field_name@ + " must be positive"@,
        },
{
    if value <= 0 {
        let mut m = field_name.to_owned();
        m.append(" must be positive");
        return Err(m);
    }
    Ok(())
}

/// The message `validate_range` returns on a violation.
pub open spec fn range_message(field: Seq<char>, min: int, max: int) -> Seq<char> {
    field + " must be between "@ + dec_int(min) + " and "@ + dec_int(max)
}

/// Validate that a number lies in an inclusive range.
pub fn validate_range(value: i32, field_name: &str, min: i32, max: i32) -> (r: Result<(), String>)
    ensures
        match r {
            Ok(_) => min <= value <= max,
            Err(m) => (value < min || value > max) && m@ == range_message(
                field_name@,
                min as int,
                max as int,
            ),
        },
{
    if value < min || value > max {
        let mut m = field_name.to_owned();
        m.append(" must be between ");
        let min_digits = i32_to_string(min);
        m.append(min_digits.as_str());
        m.append(" and ");
        let max_digits = i32_to_string(max);
        m.append(max_digits.as_str());
        return Err(m);
    }
    Ok(())
}

} // verus!
