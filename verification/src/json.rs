//! The JSON codec for the wire shape of a user:
//! `{"id": integer|null, "name": string, "email": string}`.
//!
//! The reader takes the three members in any order, each at most once, with
//! optional whitespace between tokens; the `id` member is optional (absent
//! and `null` both mean "no identifier"), and string literals carry the
//! short escapes and `\u` escapes of basic-plane code points. The writer
//! emits the shape with no whitespace, `id` first, with the short escapes
//! and a `\u00..` escape for every other control character, so everything
//! it writes the reader takes back.

use vstd::prelude::*;

use crate::parse::{
    all_digits, body_of, digits_val, digits_end_from, is_digit_c, lemma_digits_val_take_le,
    request_body,
};
use crate::user::{User, UserView};

verus! {

/// JSON whitespace: space, tab, newline, carriage return — narrower than
/// the Unicode set the request parser trims by.
pub open spec fn is_json_ws(c: char) -> bool {
    c == ' ' || c == '\t' || c == '\n' || c == '\r'
}

/// The first index at or after `i` holding something other than JSON
/// whitespace, or the length of `s`.
pub open spec fn skip_json_ws(s: Seq<char>, i: int) -> int
    decreases s.len() - i,
{
    if i < 0 || i >= s.len() {
        s.len() as int
    } else if is_json_ws(s[i]) {
        skip_json_ws(s, i + 1)
    } else {
        i
    }
}

/// The executable JSON whitespace skip.
fn skip_json_ws_at(s: &str, i: usize) -> (r: usize)
    requires
        i <= s@.len(),
    ensures
        r == skip_json_ws(s@, i as int),
        i <= r <= s@.len(),
    decreases s@.len() - i,
{
    let n = s.unicode_len();
    if i >= n {
        n
    } else {
        let c = s.get_char(i);
        if c == ' ' || c == '\t' || c == '\n' || c == '\r' {
            skip_json_ws_at(s, i + 1)
        } else {
            i
        }
    }
}

// ------------------------------------------------------------------
// Writing
// ------------------------------------------------------------------

/// The decimal digit character for a value in 0..=9.
pub open spec fn digit_char(d: int) -> char {
    if d == 0 {
        '0'
    } else if d == 1 {
        '1'
    } else if d == 2 {
        '2'
    } else if d == 3 {
        '3'
    } else if d == 4 {
        '4'
    } else if d == 5 {
        '5'
    } else if d == 6 {
        '6'
    } else if d == 7 {
        '7'
    } else if d == 8 {
        '8'
    } else {
        '9'
    }
}

/// The decimal text of a non-negative number, most significant digit first.
pub open spec fn dec_str(n: int) -> Seq<char>
    decreases n,
{
    if n < 10 {
        seq![digit_char(n)]
    } else {
        dec_str(n / 10).push(digit_char(n % 10))
    }
}

/// The decimal text of a number, with a leading `-` when negative.
pub open spec fn int_str(n: int) -> Seq<char> {
    if n < 0 {
        seq!['-'] + dec_str(-n)
    } else {
        dec_str(n)
    }
}

/// The lower-case hexadecimal digit character for a value in 0..=15.
pub open spec fn hex_char(d: int) -> char {
    if d < 10 {
        digit_char(d)
    } else if d == 10 {
        'a'
    } else if d == 11 {
        'b'
    } else if d == 12 {
        'c'
    } else if d == 13 {
        'd'
    } else if d == 14 {
        'e'
    } else {
        'f'
    }
}

/// The JSON text of one character inside a string literal: the named short
/// escapes, a `\u00..` escape for every other control character, and the
/// character itself otherwise.
pub open spec fn esc_char(c: char) -> Seq<char> {
    if c == '"' {
        seq!['\\', '"']
    } else if c == '\\' {
        seq!['\\', '\\']
    } else if c == '\n' {
        seq!['\\', 'n']
    } else if c == '\r' {
        seq!['\\', 'r']
    } else if c == '\t' {
        seq!['\\', 't']
    } else if c == '\u{0008}' {
        seq!['\\', 'b']
    } else if c == '\u{000C}' {
        seq!['\\', 'f']
    } else if (c as int) < 0x20 {
        seq!['\\', 'u', '0', '0', hex_char(c as int / 16), hex_char(c as int % 16)]
    } else {
        seq![c]
    }
}

/// The JSON text of a string's characters.
pub open spec fn json_escaped(s: Seq<char>) -> Seq<char>
    decreases s.len(),
{
    if s.len() == 0 {
        Seq::empty()
    } else {
        json_escaped(s.drop_last()) + esc_char(s.last())
    }
}

/// The JSON text of one user.
pub open spec fn user_json(u: UserView) -> Seq<char> {
    seq!['{', '"', 'i', 'd', '"', ':'] + (match u.id {
        Some(n) => int_str(n),
        None => seq!['n', 'u', 'l', 'l'],
    }) + seq![',', '"', 'n', 'a', 'm', 'e', '"', ':', '"'] + json_escaped(u.name) + seq![
        '"',
        ',',
        '"',
        'e',
        'm',
        'a',
        'i',
        'l',
        '"',
        ':',
        '"',
    ] + json_escaped(u.email) + seq!['"', '}']
}

/// The JSON texts of a row of users, comma-separated.
pub open spec fn users_json_items(rows: Seq<UserView>) -> Seq<char>
    decreases rows.len(),
{
    if rows.len() == 0 {
        Seq::empty()
    } else if rows.len() == 1 {
        user_json(rows[0])
    } else {
        users_json_items(rows.drop_last()) + seq![','] + user_json(rows.last())
    }
}

/// The JSON text of a sequence of users, as an array.
pub open spec fn users_json(rows: Seq<UserView>) -> Seq<char> {
    seq!['['] + users_json_items(rows) + seq![']']
}

/// Append one decimal digit.
fn push_digit(out: &mut String, d: u64)
    requires
        d < 10,
    ensures
        final(out)@ == old(out)@ + seq![digit_char(d as int)],
{
    if d == 0 {
        out.append("0");
        proof {
            reveal_strlit("0");
            assert("0"@ =~= seq![digit_char(0)]);
        }
    } else if d == 1 {
        out.append("1");
        proof {
            reveal_strlit("1");
            assert("1"@ =~= seq![digit_char(1)]);
        }
    } else if d == 2 {
        out.append("2");
        proof {
            reveal_strlit("2");
            assert("2"@ =~= seq![digit_char(2)]);
        }
    } else if d == 3 {
        out.append("3");
        proof {
            reveal_strlit("3");
            assert("3"@ =~= seq![digit_char(3)]);
        }
    } else if d == 4 {
        out.append("4");
        proof {
            reveal_strlit("4");
            assert("4"@ =~= seq![digit_char(4)]);
        }
    } else if d == 5 {
        out.append("5");
        proof {
            reveal_strlit("5");
            assert("5"@ =~= seq![digit_char(5)]);
        }
    } else if d == 6 {
        out.append("6");
        proof {
            reveal_strlit("6");
            assert("6"@ =~= seq![digit_char(6)]);
        }
    } else if d == 7 {
        out.append("7");
        proof {
            reveal_strlit("7");
            assert("7"@ =~= seq![digit_char(7)]);
        }
    } else if d == 8 {
        out.append("8");
        proof {
            reveal_strlit("8");
            assert("8"@ =~= seq![digit_char(8)]);
        }
    } else {
        out.append("9");
        proof {
            reveal_strlit("9");
            assert("9"@ =~= seq![digit_char(9)]);
        }
    }
}

/// Append one lower-case hexadecimal digit.
fn push_hex(out: &mut String, d: u32)
    requires
        d < 16,
    ensures
        final(out)@ == old(out)@ + seq![hex_char(d as int)],
{
    if d < 10 {
        push_digit(out, d as u64);
    } else if d == 10 {
        out.append("a");
        proof {
            reveal_strlit("a");
            assert("a"@ =~= seq![hex_char(10)]);
        }
    } else if d == 11 {
        out.append("b");
        proof {
            reveal_strlit("b");
            assert("b"@ =~= seq![hex_char(11)]);
        }
    } else if d == 12 {
        out.append("c");
        proof {
            reveal_strlit("c");
            assert("c"@ =~= seq![hex_char(12)]);
        }
    } else if d == 13 {
        out.append("d");
        proof {
            reveal_strlit("d");
            assert("d"@ =~= seq![hex_char(13)]);
        }
    } else if d == 14 {
        out.append("e");
        proof {
            reveal_strlit("e");
            assert("e"@ =~= seq![hex_char(14)]);
        }
    } else {
        out.append("f");
        proof {
            reveal_strlit("f");
            assert("f"@ =~= seq![hex_char(15)]);
        }
    }
}

/// Append the decimal text of a non-negative number.
fn push_dec(out: &mut String, n: u64)
    ensures
        final(out)@ == old(out)@ + dec_str(n as int),
    decreases n,
{
    if n < 10 {
        push_digit(out, n);
    } else {
        let q = n / 10;
        let d = n % 10;
        push_dec(out, q);
        push_digit(out, d);
        proof {
            assert(dec_str(n as int) == dec_str(n as int / 10).push(digit_char(n as int % 10)));
            assert(dec_str(q as int).push(digit_char(d as int)) =~= dec_str(q as int) + seq![
                digit_char(d as int),
            ]);
        }
    }
}

/// Append the decimal text of a signed number.
fn push_i32(out: &mut String, n: i32)
    ensures
        final(out)@ == old(out)@ + int_str(n as int),
{
    if n < 0 {
        out.append("-");
        proof {
            reveal_strlit("-");
            assert("-"@ =~= seq!['-']);
        }
        let m: u64 = (-(n as i64)) as u64;
        push_dec(out, m);
    } else {
        push_dec(out, n as u64);
    }
}

/// Append a string's characters in their JSON form.
fn push_escaped(out: &mut String, s: &str)
    ensures
        final(out)@ == old(out)@ + json_escaped(s@),
{
    let n = s.unicode_len();
    let mut i: usize = 0;
    proof {
        assert(s@.take(0) =~= Seq::<char>::empty());
    }
    while i < n
        invariant
            0 <= i <= n,
            n == s@.len(),
            out@ == old(out)@ + json_escaped(s@.take(i as int)),
        decreases n - i,
    {
        let c = s.get_char(i);
        if c == '"' {
            out.append("\\\"");
            proof {
                reveal_strlit("\\\"");
                assert("\\\""@ =~= esc_char('"'));
            }
        } else if c == '\\' {
            out.append("\\\\");
            proof {
                reveal_strlit("\\\\");
                assert("\\\\"@ =~= esc_char('\\'));
            }
        } else if c == '\n' {
            out.append("\\n");
            proof {
                reveal_strlit("\\n");
                assert("\\n"@ =~= esc_char('\n'));
            }
        } else if c == '\r' {
            out.append("\\r");
            proof {
                reveal_strlit("\\r");
                assert("\\r"@ =~= esc_char('\r'));
            }
        } else if c == '\t' {
            out.append("\\t");
            proof {
                reveal_strlit("\\t");
                assert("\\t"@ =~= esc_char('\t'));
            }
        } else if c == '\u{0008}' {
            out.append("\\b");
            proof {
                reveal_strlit("\\b");
                assert("\\b"@ =~= esc_char('\u{0008}'));
            }
        } else if c == '\u{000C}' {
            out.append("\\f");
            proof {
                reveal_strlit("\\f");
                assert("\\f"@ =~= esc_char('\u{000C}'));
            }
        } else if (c as u32) < 0x20 {
            let u = c as u32;
            let ghost before = out@;
            out.append("\\u00");
            push_hex(out, u / 16);
            push_hex(out, u % 16);
            proof {
                reveal_strlit("\\u00");
                assert("\\u00"@ =~= seq!['\\', 'u', '0', '0']);
                assert(out@ =~= before + esc_char(s@[i as int]));
            }
        } else {
            let piece = s.substring_char(i, i + 1);
            out.append(piece);
            proof {
                assert(piece@ =~= esc_char(s@[i as int]));
            }
        }
        proof {
            assert(s@.take(i + 1).drop_last() =~= s@.take(i as int));
            assert(s@.take(i + 1).last() == s@[i as int]);
            assert(json_escaped(s@.take(i + 1)) == json_escaped(s@.take(i as int)) + esc_char(
                s@[i as int],
            ));
        }
        i += 1;
    }
    proof {
        assert(s@.take(n as int) =~= s@);
    }
}

/// The JSON text of one user, exactly `user_json` of its view.
pub fn user_to_json(u: &User) -> (r: String)
    ensures
        r@ == user_json(u@),
{
    let mut out = String::new();
    out.append("{\"id\":");
    proof {
        reveal_strlit("{\"id\":");
        assert("{\"id\":"@ =~= seq!['{', '"', 'i', 'd', '"', ':']);
    }
    match u.id {
        Some(n) => push_i32(&mut out, n),
        None => {
            out.append("null");
            proof {
                reveal_strlit("null");
                assert("null"@ =~= seq!['n', 'u', 'l', 'l']);
            }
        },
    }
    out.append(",\"name\":\"");
    proof {
        reveal_strlit(",\"name\":\"");
        assert(",\"name\":\""@ =~= seq![',', '"', 'n', 'a', 'm', 'e', '"', ':', '"']);
    }
    push_escaped(&mut out, u.name.as_str());
    out.append("\",\"email\":\"");
    proof {
        reveal_strlit("\",\"email\":\"");
        assert("\",\"email\":\""@ =~= seq![
            '"',
            ',',
            '"',
            'e',
            'm',
            'a',
            'i',
            'l',
            '"',
            ':',
            '"',
        ]);
    }
    push_escaped(&mut out, u.email.as_str());
    out.append("\"}");
    proof {
        reveal_strlit("\"}");
        assert("\"}"@ =~= seq!['"', '}']);
    }
    out
}

/// The JSON text of a sequence of users, exactly `users_json` of their
/// views: an array, empty when there are no rows.
pub fn users_to_json(users: &Vec<User>) -> (r: String)
    ensures
        r@ == users_json(crate::repository::views_of(users@)),
{
    let ghost w = crate::repository::views_of(users@);
    let mut out = String::new();
    out.append("[");
    proof {
        reveal_strlit("[");
        assert("["@ =~= seq!['[']);
        assert(w.take(0) =~= Seq::<UserView>::empty());
    }
    let n = users.len();
    let mut i: usize = 0;
    while i < n
        invariant
            0 <= i <= n,
            n == users@.len(),
            w == crate::repository::views_of(users@),
            w.len() == n,
            out@ == seq!['['] + users_json_items(w.take(i as int)),
        decreases n - i,
    {
        if i > 0 {
            out.append(",");
            proof {
                reveal_strlit(",");
                assert(","@ =~= seq![',']);
            }
        }
        let piece = user_to_json(&users[i]);
        out.append(piece.as_str());
        proof {
            assert(w.take(i + 1).drop_last() =~= w.take(i as int));
            assert(w.take(i + 1).last() == w[i as int]);
            assert(piece@ == user_json(w[i as int]));
            if i == 0 {
                assert(users_json_items(w.take(1)) == user_json(w.take(1)[0]));
                assert(w.take(1)[0] == w[0]);
            } else {
                assert(users_json_items(w.take(i + 1)) == users_json_items(w.take(i as int))
                    + seq![','] + user_json(w[i as int]));
            }
        }
        i += 1;
    }
    out.append("]");
    proof {
        reveal_strlit("]");
        assert("]"@ =~= seq![']']);
        assert(w.take(n as int) =~= w);
    }
    out
}

// ------------------------------------------------------------------
// Reading
// ------------------------------------------------------------------

/// A hexadecimal digit, either case.
pub open spec fn is_hex_digit(c: char) -> bool {
    let u = c as int;
    (48 <= u && u <= 57) || (97 <= u && u <= 102) || (65 <= u && u <= 70)
}

/// The value of a hexadecimal digit.
pub open spec fn hex_val(c: char) -> int {
    let u = c as int;
    if 48 <= u && u <= 57 {
        u - 48
    } else if 97 <= u && u <= 102 {
        u - 87
    } else {
        u - 55
    }
}

/// The code point named by the four hexadecimal digits at `i`.
pub open spec fn hex4_val(s: Seq<char>, i: int) -> int {
    hex_val(s[i]) * 0x1000 + hex_val(s[i + 1]) * 0x100 + hex_val(s[i + 2]) * 16 + hex_val(
        s[i + 3],
    )
}

/// Whether four hexadecimal digits at `i` name a code point a `\u` escape
/// may carry here: any basic-plane value that is not a surrogate half
/// (surrogate pairs are not taken).
pub open spec fn valid_u_escape(s: Seq<char>, i: int) -> bool {
    &&& i + 4 <= s.len()
    &&& is_hex_digit(s[i])
    &&& is_hex_digit(s[i + 1])
    &&& is_hex_digit(s[i + 2])
    &&& is_hex_digit(s[i + 3])
    &&& !(0xD800 <= hex4_val(s, i) < 0xE000)
}

/// The short escape codes a string literal may carry after a backslash.
pub open spec fn is_escape_code(c: char) -> bool {
    c == '"' || c == '\\' || c == '/' || c == 'n' || c == 't' || c == 'r' || c == 'b' || c == 'f'
}

/// The character an escape code stands for.
pub open spec fn esc_decode(c: char) -> char {
    if c == 'n' {
        '\n'
    } else if c == 't' {
        '\t'
    } else if c == 'r' {
        '\r'
    } else if c == 'b' {
        '\u{0008}'
    } else if c == 'f' {
        '\u{000C}'
    } else {
        c
    }
}

/// The index of the quote closing a string literal's characters, scanning
/// from `i`: escapes (short or `\u` with four hexadecimal digits) are
/// stepped over whole; an unknown or surrogate escape, a raw control
/// character or a missing quote is a failure.
pub open spec fn str_body_end(s: Seq<char>, i: int) -> Option<int>
    decreases s.len() - i,
{
    if i < 0 || i >= s.len() {
        None
    } else if s[i] == '"' {
        Some(i)
    } else if s[i] == '\\' {
        if i + 1 < s.len() && s[i + 1] == 'u' {
            if i + 6 <= s.len() && valid_u_escape(s, i + 2) {
                str_body_end(s, i + 6)
            } else {
                None
            }
        } else if i + 1 < s.len() && is_escape_code(s[i + 1]) {
            str_body_end(s, i + 2)
        } else {
            None
        }
    } else if (s[i] as int) < 0x20 {
        None
    } else {
        str_body_end(s, i + 1)
    }
}

/// Where the closing quote is found, it lies within the text, at or after
/// the scan's start.
pub proof fn lemma_str_body_end(s: Seq<char>, i: int)
    ensures
        str_body_end(s, i) matches Some(e) ==> i <= e < s.len() && s[e] == '"',
    decreases s.len() - i,
{
    if 0 <= i < s.len() && s[i] != '"' {
        if s[i] == '\\' {
            if i + 1 < s.len() && s[i + 1] == 'u' {
                if i + 6 <= s.len() && valid_u_escape(s, i + 2) {
                    lemma_str_body_end(s, i + 6);
                }
            } else if i + 1 < s.len() && is_escape_code(s[i + 1]) {
                lemma_str_body_end(s, i + 2);
            }
        } else if (s[i] as int) >= 0x20 {
            lemma_str_body_end(s, i + 1);
        }
    }
}

/// The characters a string literal's body `[i, e)` stands for, escapes
/// decoded.
pub open spec fn decoded(s: Seq<char>, i: int, e: int) -> Seq<char>
    decreases e - i,
{
    if i >= e {
        Seq::empty()
    } else if s[i] == '\\' && i + 1 < e && s[i + 1] == 'u' && i + 6 <= e {
        seq![hex4_val(s, i + 2) as char] + decoded(s, i + 6, e)
    } else if s[i] == '\\' && i + 2 <= e {
        seq![esc_decode(s[i + 1])] + decoded(s, i + 2, e)
    } else {
        seq![s[i]] + decoded(s, i + 1, e)
    }
}

/// A string literal at `i`: an opening quote, characters with the usual
/// short escapes, and a closing quote; the result is the decoded characters
/// and the index just past the closing quote.
pub open spec fn parse_str_lit(s: Seq<char>, i: int) -> Option<(Seq<char>, int)> {
    if 0 <= i < s.len() && s[i] == '"' {
        match str_body_end(s, i + 1) {
            Some(e) => Some((decoded(s, i + 1, e), e + 1)),
            None => None,
        }
    } else {
        None
    }
}


/// The index just past `t` when `s` carries the token `t` at `i`.
pub open spec fn expect_at(s: Seq<char>, i: int, t: Seq<char>) -> Option<int> {
    if 0 <= i && i + t.len() <= s.len() && s.subrange(i, i + t.len() as int) == t {
        Some(i + t.len() as int)
    } else {
        None
    }
}


/// An integer literal at `i`: an optional `-`, then one or more digits
/// without a leading zero, with a value in the signed 32-bit range; the
/// result is the value and the index just past the digits.
pub open spec fn parse_int_lit(s: Seq<char>, i: int) -> Option<(int, int)> {
    if !(0 <= i < s.len()) {
        None
    } else {
        let neg = s[i] == '-';
        let d0 = if neg {
            i + 1
        } else {
            i
        };
        let e = digits_end_from(s, d0);
        if e == d0 {
            None
        } else if s[d0] == '0' && e > d0 + 1 {
            None
        } else {
            let v = digits_val(s.subrange(d0, e));
            let sv = if neg {
                -v
            } else {
                v
            };
            if -0x8000_0000 <= sv <= 0x7fff_ffff {
                Some((sv, e))
            } else {
                None
            }
        }
    }
}

/// A user record while its members are being read: which members have
/// appeared, and their values.
pub ghost struct PartialUser {
    pub id_seen: bool,
    pub id: Option<int>,
    pub name: Option<Seq<char>>,
    pub email: Option<Seq<char>>,
}

/// The value part of a text member: optional whitespace, `:`, optional
/// whitespace, a string literal.
pub open spec fn member_string_value(s: Seq<char>, i: int) -> Option<(Seq<char>, int)> {
    let j1 = skip_json_ws(s, i);
    match expect_at(s, j1, seq![':']) {
        None => None,
        Some(j2) => parse_str_lit(s, skip_json_ws(s, j2)),
    }
}

/// One member at `i` (whitespace already skipped): one of the three known
/// keys, in any order but each at most once, with its typed value (`id`
/// takes an integer or `null`); an unknown or repeated key is a failure.
pub open spec fn parse_member(s: Seq<char>, i: int, acc: PartialUser) -> Option<
    (PartialUser, int),
> {
    match expect_at(s, i, seq!['"', 'i', 'd', '"']) {
        Some(j) => {
            if acc.id_seen {
                None
            } else {
                let j1 = skip_json_ws(s, j);
                match expect_at(s, j1, seq![':']) {
                    None => None,
                    Some(j2) => {
                        let j3 = skip_json_ws(s, j2);
                        match expect_at(s, j3, seq!['n', 'u', 'l', 'l']) {
                            Some(j4) => Some(
                                (
                                    PartialUser {
                                        id_seen: true,
                                        id: None,
                                        name: acc.name,
                                        email: acc.email,
                                    },
                                    j4,
                                ),
                            ),
                            None => match parse_int_lit(s, j3) {
                                Some(p) => Some(
                                    (
                                        PartialUser {
                                            id_seen: true,
                                            id: Some(p.0),
                                            name: acc.name,
                                            email: acc.email,
                                        },
                                        p.1,
                                    ),
                                ),
                                None => None,
                            },
                        }
                    },
                }
            }
        },
        None => match expect_at(s, i, seq!['"', 'n', 'a', 'm', 'e', '"']) {
            Some(j) => {
                if acc.name is Some {
                    None
                } else {
                    match member_string_value(s, j) {
                        Some(p) => Some(
                            (
                                PartialUser {
                                    id_seen: acc.id_seen,
                                    id: acc.id,
                                    name: Some(p.0),
                                    email: acc.email,
                                },
                                p.1,
                            ),
                        ),
                        None => None,
                    }
                }
            },
            None => match expect_at(s, i, seq!['"', 'e', 'm', 'a', 'i', 'l', '"']) {
                Some(j) => {
                    if acc.email is Some {
                        None
                    } else {
                        match member_string_value(s, j) {
                            Some(p) => Some(
                                (
                                    PartialUser {
                                        id_seen: acc.id_seen,
                                        id: acc.id,
                                        name: acc.name,
                                        email: Some(p.0),
                                    },
                                    p.1,
                                ),
                            ),
                            None => None,
                        }
                    }
                },
                None => None,
            },
        },
    }
}

/// After a member's value: optional whitespace, then a comma before another
/// member, or the closing brace.
pub open spec fn member_sep(s: Seq<char>, i: int) -> Option<(bool, int)> {
    let j = skip_json_ws(s, i);
    match expect_at(s, j, seq![',']) {
        Some(j2) => Some((true, skip_json_ws(s, j2))),
        None => match expect_at(s, j, seq!['}']) {
            Some(j2) => Some((false, j2)),
            None => None,
        },
    }
}

/// After the closing brace at `i`: only whitespace may follow, and the
/// required members must have appeared.
pub open spec fn finish_user(s: Seq<char>, i: int, acc: PartialUser) -> Option<UserView> {
    if skip_json_ws(s, i) == s.len() {
        match (acc.name, acc.email) {
            (Some(nm), Some(em)) => Some(UserView { id: acc.id, name: nm, email: em }),
            _ => None,
        }
    } else {
        None
    }
}

/// The wire shape of a user: an object whose members are `name` and `email`
/// (strings, required) and `id` (integer or `null`, optional), in any
/// order, each at most once, with nothing but whitespace around them. Three
/// members at most can appear, so the member list is read as up to three
/// member/separator steps.
pub open spec fn parse_user_text(s: Seq<char>) -> Option<UserView> {
    let i0 = skip_json_ws(s, 0);
    match expect_at(s, i0, seq!['{']) {
        None => None,
        Some(i1) => {
            let i2 = skip_json_ws(s, i1);
            let acc0 = PartialUser { id_seen: false, id: None, name: None, email: None };
            match parse_member(s, i2, acc0) {
                None => None,
                Some(p1) => match member_sep(s, p1.1) {
                    None => None,
                    Some(s1) => {
                        if !s1.0 {
                            finish_user(s, s1.1, p1.0)
                        } else {
                            match parse_member(s, s1.1, p1.0) {
                                None => None,
                                Some(p2) => match member_sep(s, p2.1) {
                                    None => None,
                                    Some(s2) => {
                                        if !s2.0 {
                                            finish_user(s, s2.1, p2.0)
                                        } else {
                                            match parse_member(s, s2.1, p2.0) {
                                                None => None,
                                                Some(p3) => match member_sep(s, p3.1) {
                                                    None => None,
                                                    Some(s3) => {
                                                        if !s3.0 {
                                                            finish_user(s, s3.1, p3.0)
                                                        } else {
                                                            None
                                                        }
                                                    },
                                                },
                                            }
                                        }
                                    },
                                },
                            }
                        }
                    },
                },
            }
        },
    }
}


/// The index just past `t` when `s` carries the token `t` at `i`.
fn expect_lit(s: &str, i: usize, t: &str) -> (r: Option<usize>)
    requires
        i <= s@.len(),
    ensures
        (r is Some) == (expect_at(s@, i as int, t@) is Some),
        r matches Some(j) ==> expect_at(s@, i as int, t@) == Some(j as int) && i <= j <= s@.len(),
{
    let n = s.unicode_len();
    let m = t.unicode_len();
    if m > n - i {
        return None;
    }
    let mut k: usize = 0;
    while k < m
        invariant
            0 <= k <= m,
            m == t@.len(),
            n == s@.len(),
            i + m <= n,
            forall|j: int| 0 <= j < k ==> s@[i + j] == t@[j],
        decreases m - k,
    {
        if s.get_char(i + k) != t.get_char(k) {
            proof {
                assert(s@.subrange(i as int, i + t@.len() as int)[k as int] == s@[i + k]);
            }
            return None;
        }
        k += 1;
    }
    proof {
        assert(s@.subrange(i as int, i + t@.len() as int) =~= t@);
    }
    Some(i + m)
}


/// `s`; everything before it from `i` on is a digit.
fn digits_end_at(s: &str, i: usize) -> (r: usize)
    requires
        i <= s@.len(),
    ensures
        r == digits_end_from(s@, i as int),
        i <= r <= s@.len(),
        forall|j: int| i <= j < r ==> is_digit_c(#[trigger] s@[j]),
    decreases s@.len() - i,
{
    let n = s.unicode_len();
    if i >= n {
        n
    } else {
        let u = s.get_char(i) as u32;
        if u >= 48 && u <= 57 {
            digits_end_at(s, i + 1)
        } else {
            i
        }
    }
}


/// An integer literal at `i`, exactly as `parse_int_lit` reads it.
fn parse_int_at(s: &str, i: usize) -> (r: Option<(i32, usize)>)
    requires
        i <= s@.len(),
    ensures
        (r is Some) == (parse_int_lit(s@, i as int) is Some),
        r matches Some(p) ==> parse_int_lit(s@, i as int) == Some((p.0 as int, p.1 as int)) && p.1
            <= s@.len(),
{
    let n = s.unicode_len();
    if i >= n {
        return None;
    }
    let neg = s.get_char(i) == '-';
    let d0: usize = if neg {
        i + 1
    } else {
        i
    };
    let e = digits_end_at(s, d0);
    if e == d0 {
        return None;
    }
    if e > d0 + 1 && s.get_char(d0) == '0' {
        return None;
    }
    let ghost ds = s@.subrange(d0 as int, e as int);
    proof {
        assert forall|j: int| 0 <= j < ds.len() implies is_digit_c(#[trigger] ds[j]) by {
            assert(ds[j] == s@[d0 + j]);
        }
        assert(all_digits(ds));
    }
    let mut k: usize = d0;
    let mut acc: u64 = 0;
    while k < e
        invariant
            d0 <= k <= e <= n,
            n == s@.len(),
            i < n,
            neg == (s@[i as int] == '-'),
            d0 == if neg { i + 1int } else { i as int },
            e == digits_end_from(s@, d0 as int),
            e > d0,
            ds == s@.subrange(d0 as int, e as int),
            all_digits(ds),
            ds.len() == e - d0,
            acc == digits_val(ds.take(k - d0)),
            acc <= 0x8000_0000,
        decreases e - k,
    {
        let u = s.get_char(k) as u32;
        proof {
            assert(ds[k - d0] == s@[k as int]);
            assert(is_digit_c(ds[k - d0]));
        }
        let d: u64 = (u - 48) as u64;
        acc = acc * 10 + d;
        proof {
            assert(ds.take(k - d0 + 1).drop_last() =~= ds.take(k - d0));
            assert(ds.take(k - d0 + 1).last() == ds[k - d0]);
            assert(acc == digits_val(ds.take(k - d0 + 1)));
        }
        if acc > 0x8000_0000 {
            proof {
                lemma_digits_val_take_le(ds, k - d0 + 1);
                assert(digits_val(ds) > 0x8000_0000);
            }
            return None;
        }
        k += 1;
    }
    proof {
        assert(ds.take(e - d0) =~= ds);
        assert(acc == digits_val(ds));
    }
    if neg {
        if acc == 0x8000_0000 {
            Some((i32::MIN, e))
        } else {
            Some((0i32 - (acc as i32), e))
        }
    } else {
        if acc > 0x7fff_ffff {
            return None;
        }
        Some((acc as i32, e))
    }
}

/// Relies on String::push: appends exactly the given character.
#[verifier::external_body]
fn push_char(out: &mut String, c: char)
    ensures
        final(out)@ == old(out)@ + seq![c],
{
    out.push(c);
}

/// Relies on char::from_u32: the character of a code point, for every value
/// that is not a surrogate half and lies within the character set's bound.
#[verifier::external_body]
fn char_of_code(v: u32) -> (r: Option<char>)
    ensures
        (r is Some) == (v < 0xD800 || (0xE000 <= v && v <= 0x10FFFF)),
        r matches Some(c) ==> c as u32 == v && c == v as char,
{
    char::from_u32(v)
}

/// The value of the hexadecimal digit at `i`, if it is one.
fn hex_digit_at(s: &str, i: usize) -> (r: Option<u32>)
    requires
        i < s@.len(),
    ensures
        (r is Some) == is_hex_digit(s@[i as int]),
        r matches Some(v) ==> v == hex_val(s@[i as int]) && v < 16,
{
    let u = s.get_char(i) as u32;
    if u >= 48 && u <= 57 {
        Some(u - 48)
    } else if u >= 97 && u <= 102 {
        Some(u - 87)
    } else if u >= 65 && u <= 70 {
        Some(u - 55)
    } else {
        None
    }
}

/// A string literal at `i`, exactly as `parse_str_lit` reads it.
fn parse_string_at(s: &str, i: usize) -> (r: Option<(String, usize)>)
    requires
        i <= s@.len(),
    ensures
        (r is Some) == (parse_str_lit(s@, i as int) is Some),
        r matches Some(p) ==> parse_str_lit(s@, i as int) == Some((p.0@, p.1 as int)) && p.1
            <= s@.len(),
{
    let n = s.unicode_len();
    if i >= n {
        return None;
    }
    if s.get_char(i) != '"' {
        return None;
    }
    let mut k: usize = i + 1;
    let mut out = String::new();
    proof {
        if str_body_end(s@, i + 1) is Some {
            let e = str_body_end(s@, i + 1)->0;
            assert(out@ + decoded(s@, i + 1, e) =~= decoded(s@, i + 1, e));
        }
    }
    while k < n
        invariant
            n == s@.len(),
            i < n,
            s@[i as int] == '"',
            i + 1 <= k <= n,
            str_body_end(s@, i + 1) == str_body_end(s@, k as int),
            str_body_end(s@, k as int) matches Some(e) ==> out@ + decoded(s@, k as int, e)
                == decoded(s@, i + 1, e),
        decreases n - k,
    {
        let c = s.get_char(k);
        if c == '"' {
            proof {
                assert(str_body_end(s@, k as int) == Some(k as int));
                assert(out@ + decoded(s@, k as int, k as int) =~= out@);
            }
            return Some((out, k + 1));
        }
        if c == '\\' {
            if k + 1 >= n {
                return None;
            }
            let d = s.get_char(k + 1);
            if d == 'u' {
                if n - k < 6 {
                    return None;
                }
                let v1 = match hex_digit_at(s, k + 2) {
                    Some(v) => v,
                    None => {
                        proof {
                            assert(!valid_u_escape(s@, k + 2));
                        }
                        return None;
                    },
                };
                let v2 = match hex_digit_at(s, k + 3) {
                    Some(v) => v,
                    None => {
                        proof {
                            assert(!valid_u_escape(s@, k + 2));
                        }
                        return None;
                    },
                };
                let v3 = match hex_digit_at(s, k + 4) {
                    Some(v) => v,
                    None => {
                        proof {
                            assert(!valid_u_escape(s@, k + 2));
                        }
                        return None;
                    },
                };
                let v4 = match hex_digit_at(s, k + 5) {
                    Some(v) => v,
                    None => {
                        proof {
                            assert(!valid_u_escape(s@, k + 2));
                        }
                        return None;
                    },
                };
                let v: u32 = v1 * 4096 + v2 * 256 + v3 * 16 + v4;
                proof {
                    assert(v == hex4_val(s@, k + 2));
                }
                if v >= 0xD800 && v < 0xE000 {
                    proof {
                        assert(!valid_u_escape(s@, k + 2));
                    }
                    return None;
                }
                let ch = match char_of_code(v) {
                    Some(c) => c,
                    None => {
                        proof {
                            assert(false);
                        }
                        return None;
                    },
                };
                push_char(&mut out, ch);
                proof {
                    assert(ch == hex4_val(s@, k + 2) as char);
                    assert(valid_u_escape(s@, k + 2));
                    assert(str_body_end(s@, k as int) == str_body_end(s@, k + 6));
                    if str_body_end(s@, k + 6) is Some {
                        let e = str_body_end(s@, k + 6)->0;
                        lemma_str_body_end(s@, k + 6);
                        assert(decoded(s@, k as int, e) == seq![hex4_val(s@, k + 2) as char]
                            + decoded(s@, k + 6, e));
                        assert(out@ + decoded(s@, k + 6, e) =~= decoded(s@, i + 1, e));
                    }
                }
                k = k + 6;
                continue;
            }
            if d == '"' {
                out.append("\"");
                proof {
                    reveal_strlit("\"");
                    assert("\""@ =~= seq![esc_decode('"')]);
                }
            } else if d == '\\' {
                out.append("\\");
                proof {
                    reveal_strlit("\\");
                    assert("\\"@ =~= seq![esc_decode('\\')]);
                }
            } else if d == '/' {
                out.append("/");
                proof {
                    reveal_strlit("/");
                    assert("/"@ =~= seq![esc_decode('/')]);
                }
            } else if d == 'n' {
                out.append("\n");
                proof {
                    reveal_strlit("\n");
                    assert("\n"@ =~= seq![esc_decode('n')]);
                }
            } else if d == 't' {
                out.append("\t");
                proof {
                    reveal_strlit("\t");
                    assert("\t"@ =~= seq![esc_decode('t')]);
                }
            } else if d == 'r' {
                out.append("\r");
                proof {
                    reveal_strlit("\r");
                    assert("\r"@ =~= seq![esc_decode('r')]);
                }
            } else if d == 'b' {
                out.append("\u{0008}");
                proof {
                    reveal_strlit("\u{0008}");
                    assert("\u{0008}"@ =~= seq![esc_decode('b')]);
                }
            } else if d == 'f' {
                out.append("\u{000C}");
                proof {
                    reveal_strlit("\u{000C}");
                    assert("\u{000C}"@ =~= seq![esc_decode('f')]);
                }
            } else {
                proof {
                    assert(!is_escape_code(s@[k + 1]));
                }
                return None;
            }
            proof {
                assert(str_body_end(s@, k as int) == str_body_end(s@, k + 2));
                if str_body_end(s@, k + 2) is Some {
                    let e = str_body_end(s@, k + 2)->0;
                    lemma_str_body_end(s@, k + 2);
                    assert(decoded(s@, k as int, e) == seq![esc_decode(s@[k + 1])] + decoded(
                        s@,
                        k + 2,
                        e,
                    ));
                    assert(out@ + decoded(s@, k + 2, e) =~= decoded(s@, i + 1, e));
                }
            }
            k = k + 2;
        } else {
            let u = c as u32;
            if u < 0x20 {
                return None;
            }
            let piece = s.substring_char(k, k + 1);
            out.append(piece);
            proof {
                assert(piece@ =~= seq![s@[k as int]]);
                assert(str_body_end(s@, k as int) == str_body_end(s@, k + 1));
                if str_body_end(s@, k + 1) is Some {
                    let e = str_body_end(s@, k + 1)->0;
                    lemma_str_body_end(s@, k + 1);
                    assert(decoded(s@, k as int, e) == seq![s@[k as int]] + decoded(s@, k + 1, e));
                    assert(out@ + decoded(s@, k + 1, e) =~= decoded(s@, i + 1, e));
                }
            }
            k = k + 1;
        }
    }
    None
}

/// A user record while its members are being read, in executable form.
struct MemberAcc {
    id_seen: bool,
    id: Option<i32>,
    name: Option<String>,
    email: Option<String>,
}

impl View for MemberAcc {
    type V = PartialUser;

    closed spec fn view(&self) -> PartialUser {
        PartialUser {
            id_seen: self.id_seen,
            id: match self.id {
                Some(v) => Some(v as int),
                None => None,
            },
            name: match self.name {
                Some(t) => Some(t@),
                None => None,
            },
            email: match self.email {
                Some(t) => Some(t@),
                None => None,
            },
        }
    }
}

/// The value part of a text member, exactly as `member_string_value` reads
/// it.
fn member_string_value_at(s: &str, i: usize) -> (r: Option<(String, usize)>)
    requires
        i <= s@.len(),
    ensures
        (r is Some) == (member_string_value(s@, i as int) is Some),
        r matches Some(p) ==> member_string_value(s@, i as int) == Some((p.0@, p.1 as int)) && p.1
            <= s@.len(),
{
    proof {
        reveal_strlit(":");
        assert(":"@ =~= seq![':']);
    }
    let j1 = skip_json_ws_at(s, i);
    let j2 = match expect_lit(s, j1, ":") {
        None => {
            return None;
        },
        Some(j) => j,
    };
    parse_string_at(s, skip_json_ws_at(s, j2))
}

/// One member, exactly as `parse_member` reads it.
fn parse_member_at(s: &str, i: usize, acc: MemberAcc) -> (r: Option<(MemberAcc, usize)>)
    requires
        i <= s@.len(),
    ensures
        (r is Some) == (parse_member(s@, i as int, acc@) is Some),
        r matches Some(p) ==> parse_member(s@, i as int, acc@) == Some((p.0@, p.1 as int)) && p.1
            <= s@.len(),
{
    proof {
        reveal_strlit("\"id\"");
        assert("\"id\""@ =~= seq!['"', 'i', 'd', '"']);
        reveal_strlit("\"name\"");
        assert("\"name\""@ =~= seq!['"', 'n', 'a', 'm', 'e', '"']);
        reveal_strlit("\"email\"");
        assert("\"email\""@ =~= seq!['"', 'e', 'm', 'a', 'i', 'l', '"']);
        reveal_strlit(":");
        assert(":"@ =~= seq![':']);
        reveal_strlit("null");
        assert("null"@ =~= seq!['n', 'u', 'l', 'l']);
    }
    match expect_lit(s, i, "\"id\"") {
        Some(j) => {
            if acc.id_seen {
                return None;
            }
            let j1 = skip_json_ws_at(s, j);
            let j2 = match expect_lit(s, j1, ":") {
                None => {
                    return None;
                },
                Some(j2) => j2,
            };
            let j3 = skip_json_ws_at(s, j2);
            match expect_lit(s, j3, "null") {
                Some(j4) => Some(
                    (MemberAcc { id_seen: true, id: None, name: acc.name, email: acc.email }, j4),
                ),
                None => match parse_int_at(s, j3) {
                    Some(p) => Some(
                        (
                            MemberAcc {
                                id_seen: true,
                                id: Some(p.0),
                                name: acc.name,
                                email: acc.email,
                            },
                            p.1,
                        ),
                    ),
                    None => None,
                },
            }
        },
        None => match expect_lit(s, i, "\"name\"") {
            Some(j) => {
                if acc.name.is_some() {
                    return None;
                }
                match member_string_value_at(s, j) {
                    Some(p) => Some(
                        (
                            MemberAcc {
                                id_seen: acc.id_seen,
                                id: acc.id,
                                name: Some(p.0),
                                email: acc.email,
                            },
                            p.1,
                        ),
                    ),
                    None => None,
                }
            },
            None => match expect_lit(s, i, "\"email\"") {
                Some(j) => {
                    if acc.email.is_some() {
                        return None;
                    }
                    match member_string_value_at(s, j) {
                        Some(p) => Some(
                            (
                                MemberAcc {
                                    id_seen: acc.id_seen,
                                    id: acc.id,
                                    name: acc.name,
                                    email: Some(p.0),
                                },
                                p.1,
                            ),
                        ),
                        None => None,
                    }
                },
                None => None,
            },
        },
    }
}

/// A member separator, exactly as `member_sep` reads it.
fn member_sep_at(s: &str, i: usize) -> (r: Option<(bool, usize)>)
    requires
        i <= s@.len(),
    ensures
        (r is Some) == (member_sep(s@, i as int) is Some),
        r matches Some(p) ==> member_sep(s@, i as int) == Some((p.0, p.1 as int)) && p.1
            <= s@.len(),
{
    proof {
        reveal_strlit(",");
        assert(","@ =~= seq![',']);
        reveal_strlit("}");
        assert("}"@ =~= seq!['}']);
    }
    let j = skip_json_ws_at(s, i);
    match expect_lit(s, j, ",") {
        Some(j2) => Some((true, skip_json_ws_at(s, j2))),
        None => match expect_lit(s, j, "}") {
            Some(j2) => Some((false, j2)),
            None => None,
        },
    }
}

/// The end of the object, exactly as `finish_user` reads it.
fn finish_user_at(s: &str, i: usize, acc: MemberAcc) -> (r: Option<User>)
    requires
        i <= s@.len(),
    ensures
        (r is Some) == (finish_user(s@, i as int, acc@) is Some),
        r matches Some(u) ==> finish_user(s@, i as int, acc@) == Some(u@),
{
    let j = skip_json_ws_at(s, i);
    let n = s.unicode_len();
    if j != n {
        return None;
    }
    match (acc.name, acc.email) {
        (Some(nm), Some(em)) => Some(User { id: acc.id, name: nm, email: em }),
        _ => None,
    }
}

/// A user in the wire shape, exactly as `parse_user_text` reads it.
pub fn parse_user_body(body: &str) -> (r: Option<User>)
    ensures
        (r is Some) == (parse_user_text(body@) is Some),
        r matches Some(u) ==> parse_user_text(body@) == Some(u@),
{
    proof {
        reveal_strlit("{");
        assert("{"@ =~= seq!['{']);
    }
    let i0 = skip_json_ws_at(body, 0);
    let i1 = match expect_lit(body, i0, "{") {
        None => {
            return None;
        },
        Some(j) => j,
    };
    let i2 = skip_json_ws_at(body, i1);
    let acc0 = MemberAcc { id_seen: false, id: None, name: None, email: None };
    let p1 = match parse_member_at(body, i2, acc0) {
        None => {
            return None;
        },
        Some(p) => p,
    };
    let s1 = match member_sep_at(body, p1.1) {
        None => {
            return None;
        },
        Some(x) => x,
    };
    if !s1.0 {
        return finish_user_at(body, s1.1, p1.0);
    }
    let p2 = match parse_member_at(body, s1.1, p1.0) {
        None => {
            return None;
        },
        Some(p) => p,
    };
    let s2 = match member_sep_at(body, p2.1) {
        None => {
            return None;
        },
        Some(x) => x,
    };
    if !s2.0 {
        return finish_user_at(body, s2.1, p2.0);
    }
    let p3 = match parse_member_at(body, s2.1, p2.0) {
        None => {
            return None;
        },
        Some(p) => p,
    };
    let s3 = match member_sep_at(body, p3.1) {
        None => {
            return None;
        },
        Some(x) => x,
    };
    if !s3.0 {
        return finish_user_at(body, s3.1, p3.0);
    }
    None
}


/// The user carried in a raw request's body: everything after the first
/// blank-line separator, read in the wire shape; a request without a
/// readable body yields nothing.
pub fn get_user_from_request_body(request: &str) -> (r: Option<User>)
    ensures
        (r is Some) == (parse_user_text(body_of(request@)) is Some),
        r matches Some(u) ==> parse_user_text(body_of(request@)) == Some(u@),
{
    let body = request_body(request);
    parse_user_body(body)
}

} // verus!
