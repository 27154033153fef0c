//! The request parser: method/path routing by prefix, extraction of the
//! path-segment identifier and of the body after the first blank-line
//! separator, and decimal parsing of the identifier.
//!
//! Whitespace for trimming and token splitting is the Unicode White_Space
//! set, as the standard library's trimming and whitespace splitting use.

use vstd::prelude::*;

use crate::user::{is_space, is_space_char};

verus! {

/// Whether `p` is a prefix of `s`.
pub open spec fn has_prefix(s: Seq<char>, p: Seq<char>) -> bool {
    p.len() <= s.len() && s.subrange(0, p.len() as int) == p
}

/// Whether `s` carries the blank-line separator (CR LF CR LF) at `i`.
pub open spec fn sep_at(s: Seq<char>, i: int) -> bool {
    &&& 0 <= i
    &&& i + 4 <= s.len()
    &&& s[i] == '\r'
    &&& s[i + 1] == '\n'
    &&& s[i + 2] == '\r'
    &&& s[i + 3] == '\n'
}

/// The first index at or after `i` holding the character `c`, or the length
/// of `s` when there is none.
pub open spec fn find_from(s: Seq<char>, c: char, i: int) -> int
    decreases s.len() - i,
{
    if i < 0 || i >= s.len() {
        s.len() as int
    } else if s[i] == c {
        i
    } else {
        find_from(s, c, i + 1)
    }
}

/// The first index at or after `i` holding whitespace, or the length of `s`.
pub open spec fn find_ws_from(s: Seq<char>, i: int) -> int
    decreases s.len() - i,
{
    if i < 0 || i >= s.len() {
        s.len() as int
    } else if is_space(s[i]) {
        i
    } else {
        find_ws_from(s, i + 1)
    }
}

/// The first index at or after `i` holding something other than whitespace,
/// or the length of `s`.
pub open spec fn skip_ws_from(s: Seq<char>, i: int) -> int
    decreases s.len() - i,
{
    if i < 0 || i >= s.len() {
        s.len() as int
    } else if is_space(s[i]) {
        skip_ws_from(s, i + 1)
    } else {
        i
    }
}

/// The first index at or after `i` where the blank-line separator starts,
/// or the length of `s` when there is none.
pub open spec fn find_sep_from(s: Seq<char>, i: int) -> int
    decreases s.len() - i,
{
    if i < 0 || i + 4 > s.len() {
        s.len() as int
    } else if sep_at(s, i) {
        i
    } else {
        find_sep_from(s, i + 1)
    }
}

/// The first index at or after `i` holding a non-digit character, or the
/// length of `s`.
pub open spec fn digits_end_from(s: Seq<char>, i: int) -> int
    decreases s.len() - i,
{
    if i < 0 || i >= s.len() {
        s.len() as int
    } else if is_digit_c(s[i]) {
        digits_end_from(s, i + 1)
    } else {
        i
    }
}

/// The first whitespace-delimited token of `s`: leading whitespace is
/// skipped, the token ends before the next whitespace; empty when `s` holds
/// only whitespace.
pub open spec fn token_of(s: Seq<char>) -> Seq<char> {
    let a = skip_ws_from(s, 0);
    let b = find_ws_from(s, a);
    s.subrange(a, b)
}

/// The path-segment identifier of a raw request: the text between the second
/// and third `/` (to the end when there is no third), truncated to its first
/// whitespace-delimited token; empty when the path has no such segment.
pub open spec fn id_text_of(s: Seq<char>) -> Seq<char> {
    let p1 = find_from(s, '/', 0);
    if p1 == s.len() {
        Seq::empty()
    } else {
        let p2 = find_from(s, '/', p1 + 1);
        if p2 == s.len() {
            Seq::empty()
        } else {
            let p3 = find_from(s, '/', p2 + 1);
            token_of(s.subrange(p2 + 1, p3))
        }
    }
}

/// The body of a raw request: everything after the first blank-line
/// separator; empty when there is none.
pub open spec fn body_of(s: Seq<char>) -> Seq<char> {
    let p = find_sep_from(s, 0);
    if p == s.len() {
        Seq::empty()
    } else {
        s.subrange(p + 4, s.len() as int)
    }
}

/// Whether `p` is a prefix of `s`, checked character by character.
pub fn str_has_prefix(s: &str, p: &str) -> (r: bool)
    ensures
        r == has_prefix(s@, p@),
{
    let n = s.unicode_len();
    let m = p.unicode_len();
    if m > n {
        return false;
    }
    let mut i: usize = 0;
    while i < m
        invariant
            0 <= i <= m,
            m == p@.len(),
            n == s@.len(),
            m <= n,
            forall|j: int| 0 <= j < i ==> s@[j] == p@[j],
        decreases m - i,
    {
        if s.get_char(i) != p.get_char(i) {
            proof {
                assert(s@.subrange(0, p@.len() as int)[i as int] == s@[i as int]);
            }
            return false;
        }
        i += 1;
    }
    proof {
        assert(s@.subrange(0, p@.len() as int) =~= p@);
    }
    true
}

/// The first index at or after `i` holding `c`, or the length of `s`.
fn find_char_at(s: &str, c: char, i: usize) -> (r: usize)
    requires
        i <= s@.len(),
    ensures
        r == find_from(s@, c, i as int),
        i <= r <= s@.len(),
    decreases s@.len() - i,
{
    let n = s.unicode_len();
    if i >= n {
        n
    } else if s.get_char(i) == c {
        i
    } else {
        find_char_at(s, c, i + 1)
    }
}

/// The first index at or after `i` holding whitespace, or the length of `s`.
fn find_ws_at(s: &str, i: usize) -> (r: usize)
    requires
        i <= s@.len(),
    ensures
        r == find_ws_from(s@, i as int),
        i <= r <= s@.len(),
    decreases s@.len() - i,
{
    let n = s.unicode_len();
    if i >= n {
        n
    } else {
        if is_space_char(s.get_char(i)) {
            i
        } else {
            find_ws_at(s, i + 1)
        }
    }
}

/// The first index at or after `i` holding something other than whitespace,
/// or the length of `s`.
pub fn skip_ws_at(s: &str, i: usize) -> (r: usize)
    requires
        i <= s@.len(),
    ensures
        r == skip_ws_from(s@, i as int),
        i <= r <= s@.len(),
    decreases s@.len() - i,
{
    let n = s.unicode_len();
    if i >= n {
        n
    } else {
        if is_space_char(s.get_char(i)) {
            skip_ws_at(s, i + 1)
        } else {
            i
        }
    }
}

/// The first index at or after `i` where the blank-line separator starts,
/// or the length of `s`.
fn find_sep_at(s: &str, i: usize) -> (r: usize)
    requires
        i <= s@.len(),
    ensures
        r == find_sep_from(s@, i as int),
        i <= r <= s@.len(),
        r < s@.len() ==> r + 4 <= s@.len(),
    decreases s@.len() - i,
{
    let n = s.unicode_len();
    if i >= n || n - i < 4 {
        n
    } else if s.get_char(i) == '\r' && s.get_char(i + 1) == '\n' && s.get_char(i + 2) == '\r'
        && s.get_char(i + 3) == '\n' {
        i
    } else {
        find_sep_at(s, i + 1)
    }
}

/// The path-segment identifier of the raw request, as raw text; numeric
/// parsing and range checks are the router's job, not the parser's.
pub fn get_id_from_request(request: &str) -> (r: &str)
    ensures
        r@ == id_text_of(request@),
{
    let n = request.unicode_len();
    let p1 = find_char_at(request, '/', 0);
    if p1 == n {
        return request.substring_char(0, 0);
    }
    let p2 = find_char_at(request, '/', p1 + 1);
    if p2 == n {
        return request.substring_char(0, 0);
    }
    let p3 = find_char_at(request, '/', p2 + 1);
    let raw = request.substring_char(p2 + 1, p3);
    let a = skip_ws_at(raw, 0);
    let b = find_ws_at(raw, a);
    raw.substring_char(a, b)
}

/// The body of the raw request: everything after the first blank-line
/// separator, empty when there is none.
pub fn request_body(request: &str) -> (r: &str)
    ensures
        r@ == body_of(request@),
{
    let n = request.unicode_len();
    let p = find_sep_at(request, 0);
    if p == n {
        request.substring_char(0, 0)
    } else {
        request.substring_char(p + 4, n)
    }
}

/// Whether `c` is a decimal digit.
pub open spec fn is_digit_c(c: char) -> bool {
    48 <= c as int <= 57
}

/// The numeric value of a decimal digit.
pub open spec fn digit_val(c: char) -> int {
    c as int - 48
}

/// Whether every character of `s` is a decimal digit.
pub open spec fn all_digits(s: Seq<char>) -> bool {
    forall|i: int| 0 <= i < s.len() ==> is_digit_c(#[trigger] s[i])
}

/// The value of a sequence of decimal digits, most significant first.
pub open spec fn digits_val(s: Seq<char>) -> int
    decreases s.len(),
{
    if s.len() == 0 {
        0
    } else {
        digits_val(s.drop_last()) * 10 + digit_val(s.last())
    }
}

/// A digit string has a non-negative value.
pub proof fn lemma_digits_val_nonneg(s: Seq<char>)
    requires
        all_digits(s),
    ensures
        digits_val(s) >= 0,
    decreases s.len(),
{
    if s.len() > 0 {
        assert(all_digits(s.drop_last()));
        lemma_digits_val_nonneg(s.drop_last());
    }
}

/// Extending a digit string never lowers its value.
pub proof fn lemma_digits_val_take_le(s: Seq<char>, k: int)
    requires
        all_digits(s),
        0 <= k <= s.len(),
    ensures
        digits_val(s.take(k)) <= digits_val(s),
    decreases s.len() - k,
{
    if k < s.len() {
        lemma_digits_val_take_le(s, k + 1);
        assert(s.take(k + 1).drop_last() =~= s.take(k));
        assert(all_digits(s.take(k)));
        lemma_digits_val_nonneg(s.take(k));
        assert(digits_val(s.take(k + 1)) == digits_val(s.take(k)) * 10 + digit_val(s[k]));
    } else {
        assert(s.take(k) =~= s);
    }
}

/// The signed 32-bit reading of a decimal token: an optional sign, then one
/// or more digits, nothing else, and a value within the type's range.
pub open spec fn spec_parse_i32(s: Seq<char>) -> Option<i32> {
    if s.len() == 0 {
        None
    } else {
        let neg = s[0] == '-';
        let signed = s[0] == '-' || s[0] == '+';
        let ds = if signed {
            s.subrange(1, s.len() as int)
        } else {
            s
        };
        if ds.len() == 0 || !all_digits(ds) {
            None
        } else {
            let v = digits_val(ds);
            if neg {
                if v <= 0x8000_0000 {
                    Some((-v) as i32)
                } else {
                    None
                }
            } else {
                if v <= 0x7fff_ffff {
                    Some(v as i32)
                } else {
                    None
                }
            }
        }
    }
}

/// Parse a decimal token as an `i32`, exactly as `spec_parse_i32` reads it.
pub fn parse_i32(s: &str) -> (r: Option<i32>)
    ensures
        r == spec_parse_i32(s@),
{
    let n = s.unicode_len();
    if n == 0 {
        return None;
    }
    let c0 = s.get_char(0);
    let neg = c0 == '-';
    let start: usize = if c0 == '-' || c0 == '+' {
        1
    } else {
        0
    };
    let ghost ds = if start == 1 {
        s@.subrange(1, s@.len() as int)
    } else {
        s@
    };
    if start >= n {
        return None;
    }
    let mut i: usize = start;
    let mut acc: u64 = 0;
    while i < n
        invariant
            start <= i <= n,
            n == s@.len(),
            start < n,
            start == (if s@[0] == '-' || s@[0] == '+' { 1int } else { 0int }),
            neg == (s@[0] == '-'),
            ds == if start == 1 {
                s@.subrange(1, s@.len() as int)
            } else {
                s@
            },
            ds.len() == n - start,
            forall|j: int| 0 <= j < i - start ==> is_digit_c(#[trigger] ds[j]),
            acc == digits_val(ds.take(i - start)),
            acc <= 0x8000_0000,
        decreases n - i,
    {
        let c = s.get_char(i);
        let u = c as u32;
        proof {
            assert(ds[i - start] == s@[i as int]);
        }
        if u < 48 || u > 57 {
            proof {
                assert(!is_digit_c(ds[i - start]));
                assert(!all_digits(ds));
            }
            return None;
        }
        let d: u64 = (u - 48) as u64;
        acc = acc * 10 + d;
        proof {
            assert(ds.take(i - start + 1).drop_last() =~= ds.take(i - start));
            assert(ds.take(i - start + 1).last() == ds[i - start]);
            assert(acc == digits_val(ds.take(i - start + 1)));
        }
        if acc > 0x8000_0000 {
            proof {
                if all_digits(ds) {
                    lemma_digits_val_take_le(ds, i - start + 1);
                    assert(digits_val(ds) > 0x8000_0000);
                    assert(spec_parse_i32(s@) is None);
                } else {
                    assert(spec_parse_i32(s@) is None);
                }
            }
            return None;
        }
        i += 1;
    }
    proof {
        assert(ds.take(n - start) =~= ds);
        assert(all_digits(ds));
        assert(acc == digits_val(ds));
    }
    if neg {
        if acc == 0x8000_0000 {
            Some(i32::MIN)
        } else {
            Some(0i32 - (acc as i32))
        }
    } else {
        if acc > 0x7fff_ffff {
            None
        } else {
            Some(acc as i32)
        }
    }
}

} // verus!
