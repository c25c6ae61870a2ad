//! Case conversion and truncation for identifier-style strings.
//!
//! Upper-case detection and case folding follow the Unicode
//! classifications and mappings, through the named functions of
//! `crate::unicode`; truncation measures bytes.

use vstd::prelude::*;
use vstd::string::{StrSliceExecFns, StringSliceAdditionalSpecFns};
use vstd::utf8::{encode_utf8, is_char_boundary};
use crate::numerals::chars_to_string;
use crate::unicode::{
    unicode_uppercase, lower_first, upper_first, is_uppercase_char, lower_first_char,
    upper_first_char,
};

verus! {

/// The tail of the snake_case conversion from position `i` on, where
/// `prev_upper` says whether the previous character was upper-case: an
/// upper-case character is folded to lower case, and preceded by '_' when
/// it follows a character that was not upper-case.
pub open spec fn snake_tail(s: Seq<char>, i: int, prev_upper: bool) -> Seq<char>
    decreases s.len() - i when 0 <= i <= s.len()
{
    if i >= s.len() {
        Seq::empty()
    } else if unicode_uppercase(s[i]) {
        (if i > 0 && !prev_upper {
            seq!['_']
        } else {
            Seq::empty()
        }) + seq![lower_first(s[i])] + snake_tail(s, i + 1, true)
    } else {
        seq![s[i]] + snake_tail(s, i + 1, false)
    }
}

/// The snake_case form of `s`.
pub open spec fn snake_case_of(s: Seq<char>) -> Seq<char> {
    snake_tail(s, 0, false)
}

/// Convert a string to snake_case.
pub fn to_snake_case(s: &str) -> (r: String)
    ensures
        r@ == snake_case_of(s@),
{
    let n = s.unicode_len();
    let mut out: Vec<char> = Vec::new();
    let mut prev_upper = false;
    let mut i: usize = 0;
    while i < n
        invariant
            n == s@.len(),
            i <= n,
            snake_case_of(s@) =~= out@ + snake_tail(s@, i as int, prev_upper),
        decreases n - i,
    {
        let c = s.get_char(i);
        if is_uppercase_char(c) {
            if i > 0 && !prev_upper {
                out.push('_');
            }
            out.push(lower_first_char(c));
            prev_upper = true;
        } else {
            out.push(c);
            prev_upper = false;
        }
        proof {
            assert(snake_case_of(s@) =~= out@ + snake_tail(s@, i + 1, prev_upper));
        }
        i = i + 1;
    }
    proof {
        assert(snake_tail(s@, n as int, prev_upper) =~= Seq::<char>::empty());
        assert(out@ =~= snake_case_of(s@));
    }
    chars_to_string(&out)
}

/// The tail of the camelCase conversion from position `i` on, where
/// `cap_next` says whether the next letter starts a new word: '_' and '-'
/// are dropped and capitalize what follows; the first character is folded
/// to lower case.
pub open spec fn camel_tail(s: Seq<char>, i: int, cap_next: bool) -> Seq<char>
    decreases s.len() - i when 0 <= i <= s.len()
{
    if i >= s.len() {
        Seq::empty()
    } else if s[i] == '_' || s[i] == '-' {
        camel_tail(s, i + 1, true)
    } else if i == 0 {
        seq![lower_first(s[i])] + camel_tail(s, i + 1, cap_next)
    } else if cap_next {
        seq![upper_first(s[i])] + camel_tail(s, i + 1, false)
    } else {
        seq![s[i]] + camel_tail(s, i + 1, false)
    }
}

/// The camelCase form of `s`.
pub open spec fn camel_case_of(s: Seq<char>) -> Seq<char> {
    camel_tail(s, 0, false)
}

/// Convert a string to camelCase.
pub fn to_camel_case(s: &str) -> (r: String)
    ensures
        r@ == camel_case_of(s@),
{
    let n = s.unicode_len();
    let mut out: Vec<char> = Vec::new();
    let mut cap_next = false;
    let mut i: usize = 0;
    while i < n
        invariant
            n == s@.len(),
            i <= n,
            camel_case_of(s@) =~= out@ + camel_tail(s@, i as int, cap_next),
        decreases n - i,
    {
        let c = s.get_char(i);
        if c == '_' || c == '-' {
            cap_next = true;
        } else if i == 0 {
            out.push(lower_first_char(c));
        } else if cap_next {
            out.push(upper_first_char(c));
            cap_next = false;
        } else {
            out.push(c);
        }
        proof {
            assert(camel_case_of(s@) =~= out@ + camel_tail(s@, i + 1, cap_next));
        }
        i = i + 1;
    }
    proof {
        assert(camel_tail(s@, n as int, cap_next) =~= Seq::<char>::empty());
        assert(out@ =~= camel_case_of(s@));
    }
    chars_to_string(&out)
}

/// Where a string longer than `max_len` bytes is cut: three bytes short of
/// the limit, to make room for "...".
pub open spec fn cut_point(max_len: int) -> int {
    if max_len >= 3 {
        max_len - 3
    } else {
        0
    }
}

/// Truncate a string to a maximum byte length, marking the cut with "...".
/// A longer string keeps the characters of its first `max_len - 3` bytes;
/// that byte index must fall on a character boundary.
pub fn truncate(s: &str, max_len: usize) -> (r: String)
    requires
        encode_utf8(s@).len() <= usize::MAX,
        encode_utf8(s@).len() > max_len ==> is_char_boundary(
            encode_utf8(s@),
            cut_point(max_len as int),
        ),
    ensures
        encode_utf8(s@).len() <= max_len ==> r@ == s@,
        encode_utf8(s@).len() > max_len ==> exists|head: Seq<char>|
            encode_utf8(head) == encode_utf8(s@).subrange(0, cut_point(max_len as int)) && r@
                == head + "..."@,
{
    proof {
        assert(s.spec_bytes() == encode_utf8(s@));
    }
    let len = s.len();
    if len <= max_len {
        s.to_owned()
    } else {
        let keep: usize = if max_len >= 3 {
            max_len - 3
        } else {
            0
        };
        let pieces = s.split_at(keep);
        let ghost head_chars = pieces.0@;
        let mut out = pieces.0.to_owned();
        out.append("...");
        proof {
            assert(encode_utf8(head_chars) == encode_utf8(s@).subrange(
                0,
                cut_point(max_len as int),
            ));
            assert(out@ == head_chars + "..."@);
        }
        out
    }
}

} // verus!
