//! Text clean-up helpers: truncation, sanitising, slugs.
//!
//! Character classes and case folding follow the Unicode classifications,
//! through the named functions of `crate::unicode`; truncation measures
//! bytes.

use vstd::prelude::*;
use vstd::string::{StrSliceExecFns, StringSliceAdditionalSpecFns};
use vstd::utf8::{encode_utf8, is_char_boundary};
use crate::numerals::chars_to_string;
use crate::unicode::{
    unicode_alphanumeric, unicode_whitespace, unicode_lower, is_alphanumeric_char,
    is_whitespace_char, to_lowercase_str,
};

verus! {

/// Truncate string to a maximum byte length, marking the cut with "...".
/// A longer string keeps the characters of its first `max_len` bytes;
/// that byte index must fall on a character boundary.
pub fn truncate(s: &str, max_len: usize) -> (r: String)
    requires
        encode_utf8(s@).len() <= usize::MAX,
        encode_utf8(s@).len() > max_len ==> is_char_boundary(encode_utf8(s@), max_len as int),
    ensures
        encode_utf8(s@).len() <= max_len ==> r@ == s@,
        encode_utf8(s@).len() > max_len ==> exists|head: Seq<char>|
            encode_utf8(head) == encode_utf8(s@).subrange(0, max_len as int) && r@ == head
                + "..."@,
{
    proof {
        assert(s.spec_bytes() == encode_utf8(s@));
    }
    let len = s.len();
    if len <= max_len {
        s.to_owned()
    } else {
        let pieces = s.split_at(max_len);
        let ghost head_chars = pieces.0@;
        let mut out = pieces.0.to_owned();
        out.append("...");
        proof {
            assert(encode_utf8(head_chars) == encode_utf8(s@).subrange(0, max_len as int));
            assert(out@ == head_chars + "..."@);
        }
        out
    }
}

/// A character that `sanitize` keeps: alphanumerics, whitespace, '_' and
/// '-', per the Unicode classifications.
pub open spec fn keeps(c: char) -> bool {
    unicode_alphanumeric(c) || unicode_whitespace(c) || c == '_' || c == '-'
}

/// `s` with everything but the kept characters removed.
pub open spec fn sanitized(s: Seq<char>) -> Seq<char> {
    s.filter(|c: char| keeps(c))
}

/// Sanitize string (remove special characters).
pub fn sanitize(s: &str) -> (r: String)
    ensures
        r@ == sanitized(s@),
{
    let n = s.unicode_len();
    let mut out: Vec<char> = Vec::new();
    let mut i: usize = 0;
    while i < n
        invariant
            n == s@.len(),
            i <= n,
            out@ == sanitized(s@.take(i as int)),
        decreases n - i,
    {
        let c = s.get_char(i);
        if is_alphanumeric_char(c) || is_whitespace_char(c) || c == '_' || c == '-' {
            out.push(c);
        }
        proof {
            reveal(Seq::filter);
            let t = s@.take(i + 1);
            assert(t.drop_last() =~= s@.take(i as int));
            assert(t.last() == s@[i as int]);
            assert(sanitized(t) == if keeps(t.last()) {
                sanitized(t.drop_last()).push(t.last())
            } else {
                sanitized(t.drop_last())
            });
        }
        i = i + 1;
    }
    proof {
        assert(s@.take(n as int) =~= s@);
    }
    chars_to_string(&out)
}

/// The tail of the slug construction from position `i` of the already
/// lower-cased text: alphanumerics are kept; every other character
/// separates words; one '-' stands between consecutive words. `emitted`
/// says whether a word character was emitted before `i`, `prev_word`
/// whether position `i - 1` held a word character.
pub open spec fn slug_tail(lowered: Seq<char>, i: int, emitted: bool, prev_word: bool) -> Seq<
    char,
>
    decreases lowered.len() - i when 0 <= i <= lowered.len()
{
    if i >= lowered.len() {
        Seq::empty()
    } else if unicode_alphanumeric(lowered[i]) {
        (if emitted && !prev_word {
            seq!['-']
        } else {
            Seq::empty()
        }) + seq![lowered[i]] + slug_tail(lowered, i + 1, true, true)
    } else {
        slug_tail(lowered, i + 1, emitted, false)
    }
}

/// The slug form of `s`: the words of its Unicode lowercase mapping,
/// joined by single dashes.
pub open spec fn slug_of(s: Seq<char>) -> Seq<char> {
    slug_tail(unicode_lower(s), 0, false, false)
}

/// Convert to slug format.
pub fn to_slug(s: &str) -> (r: String)
    ensures
        r@ == slug_of(s@),
{
    let lowered = to_lowercase_str(s);
    let ghost low = lowered@;
    let folded = lowered.as_str();
    let n = folded.unicode_len();
    let mut out: Vec<char> = Vec::new();
    let mut emitted = false;
    let mut prev_word = false;
    let mut i: usize = 0;
    while i < n
        invariant
            folded@ == low,
            low == unicode_lower(s@),
            n == low.len(),
            i <= n,
            slug_of(s@) =~= out@ + slug_tail(low, i as int, emitted, prev_word),
        decreases n - i,
    {
        let c = folded.get_char(i);
        if is_alphanumeric_char(c) {
            if emitted && !prev_word {
                out.push('-');
            }
            out.push(c);
            emitted = true;
            prev_word = true;
        } else {
            prev_word = false;
        }
        proof {
            assert(slug_of(s@) =~= out@ + slug_tail(low, i + 1, emitted, prev_word));
        }
        i = i + 1;
    }
    proof {
        assert(slug_tail(low, n as int, emitted, prev_word) =~= Seq::<char>::empty());
        assert(out@ =~= slug_of(s@));
    }
    chars_to_string(&out)
}

} // verus!
