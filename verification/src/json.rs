//! JSON framing for the pipeline's two fixed schemas.
//!
//! The transcription tool hands back a file holding an object with `text`
//! and `language` string fields, and the language-model server answers with
//! an object holding `model` and `response` string fields; the request sent
//! to that server is an object built from a model name, a prompt and a
//! stream flag.  This module states the encoding of such objects as spec
//! functions, implements an encoder and a parser against them, and proves
//! that the parser inverts the encoder.
//!
//! The parser reads an object with string keys; the two wanted fields
//! must hold strings, and any other member may hold a string, a number, a
//! boolean, null, or a balanced array or object, nested values included,
//! which is read over and ignored.  String escapes are decoded in full,
//! four-digit escapes of either case and surrogate pairs included.
//! Whitespace is accepted between tokens and after the object.

use vstd::prelude::*;

verus! {

/// The decimal digit character for `d`, for `d < 10`.
pub open spec fn decimal_digit(d: nat) -> char {
    if d == 0 { '0' }
    else if d == 1 { '1' }
    else if d == 2 { '2' }
    else if d == 3 { '3' }
    else if d == 4 { '4' }
    else if d == 5 { '5' }
    else if d == 6 { '6' }
    else if d == 7 { '7' }
    else if d == 8 { '8' }
    else { '9' }
}

/// The lower-case hexadecimal digit character for `d`, for `d < 16`.
pub open spec fn hex_digit(d: nat) -> char {
    if d < 10 { decimal_digit(d) }
    else if d == 10 { 'a' }
    else if d == 11 { 'b' }
    else if d == 12 { 'c' }
    else if d == 13 { 'd' }
    else if d == 14 { 'e' }
    else { 'f' }
}

/// The decimal notation of `n`, most significant digit first.
pub open spec fn decimal_of(n: nat) -> Seq<char>
    decreases n,
{
    if n < 10 {
        seq![decimal_digit(n)]
    } else {
        decimal_of(n / 10).push(decimal_digit(n % 10))
    }
}

/// How a single character is written inside a JSON string: quote,
/// backslash and the common control characters get a two-character escape,
/// the remaining control characters a `\u00XX` escape, and every other
/// character stands for itself.
pub open spec fn escaped_char(c: char) -> Seq<char> {
    if c == '"' { seq!['\\', '"'] }
    else if c == '\\' { seq!['\\', '\\'] }
    else if c == '\n' { seq!['\\', 'n'] }
    else if c == '\r' { seq!['\\', 'r'] }
    else if c == '\t' { seq!['\\', 't'] }
    else if (c as u32) < 32 {
        seq!['\\', 'u', '0', '0', hex_digit(((c as u32) / 16) as nat), hex_digit(
            ((c as u32) % 16) as nat,
        )]
    } else {
        seq![c]
    }
}

/// The body of the JSON string holding `s`.
pub open spec fn escaped(s: Seq<char>) -> Seq<char>
    decreases s.len(),
{
    if s.len() == 0 {
        Seq::empty()
    } else {
        escaped_char(s[0]) + escaped(s.skip(1))
    }
}

/// The JSON string holding `s`, quotes included.
pub open spec fn quoted(s: Seq<char>) -> Seq<char> {
    seq!['"'] + escaped(s) + seq!['"']
}

pub proof fn lemma_escaped_push(s: Seq<char>, c: char)
    ensures
        escaped(s.push(c)) == escaped(s) + escaped_char(c),
    decreases s.len(),
{
    if s.len() == 0 {
        assert(s.push(c)[0] == c);
        assert(s.push(c).skip(1) =~= Seq::<char>::empty());
        assert(escaped(Seq::<char>::empty()) =~= Seq::<char>::empty());
        assert(escaped(s.push(c)) =~= escaped(s) + escaped_char(c));
    } else {
        assert(s.push(c).skip(1) =~= s.skip(1).push(c));
        lemma_escaped_push(s.skip(1), c);
        assert(escaped(s.push(c)) =~= escaped(s) + escaped_char(c));
    }
}

/// Relies on `String::push` of std: appends the one character to the string.
#[verifier::external_body]
fn push_char(out: &mut String, c: char)
    ensures
        final(out)@ == old(out)@.push(c),
{
    out.push(c);
}

/// Relies on `char::from_u32` of std: yields the character with the
/// given code, which exists for every value below the surrogate range or
/// between it and the greatest scalar value.
#[verifier::external_body]
fn char_from_code(code: u32) -> (c: char)
    requires
        code < 0xD800 || (0xE000 <= code && code <= 0x10FFFF),
    ensures
        c == (code as char),
{
    char::from_u32(code).unwrap()
}

/// The characters of `s` as a vector.
pub fn str_chars(s: &str) -> (v: Vec<char>)
    ensures
        v@ == s@,
{
    let n: usize = s.unicode_len();
    let mut v: Vec<char> = Vec::new();
    let mut i: usize = 0;
    while i < n
        invariant
            i <= n,
            n == s@.len(),
            v@ == s@.take(i as int),
        decreases n - i,
    {
        v.push(s.get_char(i));
        assert(s@.take(i as int).push(s@[i as int]) =~= s@.take(i + 1 as int));
        i = i + 1;
    }
    assert(s@.take(n as int) =~= s@);
    v
}

/// The string holding exactly the characters of `v`.
pub fn chars_string(v: &Vec<char>) -> (s: String)
    ensures
        s@ == v@,
{
    let mut s = String::new();
    let mut i: usize = 0;
    while i < v.len()
        invariant
            i <= v@.len(),
            s@ == v@.take(i as int),
        decreases v@.len() - i,
    {
        push_char(&mut s, v[i]);
        assert(v@.take(i as int).push(v@[i as int]) =~= v@.take(i + 1 as int));
        i = i + 1;
    }
    assert(v@.take(v@.len() as int) =~= v@);
    s
}

fn decimal_digit_exec(d: u32) -> (c: char)
    requires
        d < 10,
    ensures
        c == decimal_digit(d as nat),
{
    if d == 0 { '0' }
    else if d == 1 { '1' }
    else if d == 2 { '2' }
    else if d == 3 { '3' }
    else if d == 4 { '4' }
    else if d == 5 { '5' }
    else if d == 6 { '6' }
    else if d == 7 { '7' }
    else if d == 8 { '8' }
    else { '9' }
}

fn hex_digit_exec(d: u32) -> (c: char)
    requires
        d < 16,
    ensures
        c == hex_digit(d as nat),
{
    if d < 10 { decimal_digit_exec(d) }
    else if d == 10 { 'a' }
    else if d == 11 { 'b' }
    else if d == 12 { 'c' }
    else if d == 13 { 'd' }
    else if d == 14 { 'e' }
    else { 'f' }
}

fn push_decimal(out: &mut String, n: u32)
    ensures
        final(out)@ == old(out)@ + decimal_of(n as nat),
    decreases n,
{
    if n < 10 {
        push_char(out, decimal_digit_exec(n));
        assert(old(out)@.push(decimal_digit(n as nat)) =~= old(out)@ + decimal_of(n as nat));
    } else {
        push_decimal(out, n / 10);
        push_char(out, decimal_digit_exec(n % 10));
        assert((old(out)@ + decimal_of(n as nat / 10)).push(decimal_digit(n as nat % 10))
            =~= old(out)@ + decimal_of(n as nat));
    }
}

/// The decimal notation of `n`.
pub fn decimal_string(n: u32) -> (s: String)
    ensures
        s@ == decimal_of(n as nat),
{
    let mut s = String::new();
    push_decimal(&mut s, n);
    assert(Seq::<char>::empty() + decimal_of(n as nat) =~= decimal_of(n as nat));
    s
}

fn push_escaped_char(out: &mut String, c: char)
    ensures
        final(out)@ == old(out)@ + escaped_char(c),
{
    if c == '"' {
        push_char(out, '\\');
        push_char(out, '"');
    } else if c == '\\' {
        push_char(out, '\\');
        push_char(out, '\\');
    } else if c == '\n' {
        push_char(out, '\\');
        push_char(out, 'n');
    } else if c == '\r' {
        push_char(out, '\\');
        push_char(out, 'r');
    } else if c == '\t' {
        push_char(out, '\\');
        push_char(out, 't');
    } else if (c as u32) < 32 {
        push_char(out, '\\');
        push_char(out, 'u');
        push_char(out, '0');
        push_char(out, '0');
        push_char(out, hex_digit_exec((c as u32) / 16));
        push_char(out, hex_digit_exec((c as u32) % 16));
    } else {
        push_char(out, c);
    }
    assert(out@ =~= old(out)@ + escaped_char(c));
}

/// Appends the JSON string holding `s`, quotes included.
pub fn push_quoted(out: &mut String, s: &str)
    ensures
        final(out)@ == old(out)@ + quoted(s@),
{
    push_char(out, '"');
    let n: usize = s.unicode_len();
    let mut i: usize = 0;
    while i < n
        invariant
            i <= n,
            n == s@.len(),
            out@ == old(out)@ + seq!['"'] + escaped(s@.take(i as int)),
        decreases n - i,
    {
        let c = s.get_char(i);
        push_escaped_char(out, c);
        proof {
            lemma_escaped_push(s@.take(i as int), s@[i as int]);
            assert(s@.take(i as int).push(s@[i as int]) =~= s@.take(i + 1 as int));
        }
        i = i + 1;
    }
    push_char(out, '"');
    proof {
        assert(s@.take(n as int) =~= s@);
        assert(out@ =~= old(out)@ + quoted(s@));
    }
}

// ---------------------------------------------------------------------
// Parsing, specification level.
//
// Each spec function reads a suffix of the input and yields what it
// recognised together with the unread rest, or `None` when the suffix is
// not of the expected shape.
// ---------------------------------------------------------------------

/// JSON whitespace.
pub open spec fn is_ws(c: char) -> bool {
    c == ' ' || c == '\n' || c == '\r' || c == '\t'
}

/// `s` without its leading whitespace.
pub open spec fn skip_ws(s: Seq<char>) -> Seq<char>
    decreases s.len(),
{
    if s.len() == 0 || !is_ws(s[0]) {
        s
    } else {
        skip_ws(s.skip(1))
    }
}

/// A decimal digit character.
pub open spec fn is_digit(c: char) -> bool {
    '0' <= c && c <= '9'
}

pub open spec fn is_hex_digit_char(c: char) -> bool {
    ('0' <= c && c <= '9') || ('a' <= c && c <= 'f') || ('A' <= c && c <= 'F')
}

/// The value of a hexadecimal digit character.
pub open spec fn hex_val(c: char) -> nat {
    if '0' <= c && c <= '9' {
        (c as nat - '0' as nat) as nat
    } else if 'a' <= c && c <= 'f' {
        (c as nat - 'a' as nat + 10) as nat
    } else if 'A' <= c && c <= 'F' {
        (c as nat - 'A' as nat + 10) as nat
    } else {
        0
    }
}

/// The character written by a two-character escape, if the second
/// character of the escape is `c`.
pub open spec fn simple_escape(c: char) -> Option<char> {
    if c == '"' { Some('"') }
    else if c == '\\' { Some('\\') }
    else if c == '/' { Some('/') }
    else if c == 'n' { Some('\n') }
    else if c == 'r' { Some('\r') }
    else if c == 't' { Some('\t') }
    else if c == 'b' { Some('\u{8}') }
    else if c == 'f' { Some('\u{c}') }
    else { None }
}

/// Reads the body of a JSON string after its opening quote; yields the
/// decoded content and the rest after the closing quote.
pub open spec fn parse_string_body(s: Seq<char>) -> Option<(Seq<char>, Seq<char>)>
    decreases s.len(),
{
    if s.len() == 0 {
        None
    } else if s[0] == '"' {
        Some((Seq::empty(), s.skip(1)))
    } else if s[0] == '\\' {
        if s.len() < 2 {
            None
        } else if s[1] == 'u' {
            if s.len() >= 6 && is_hex_digit_char(s[2]) && is_hex_digit_char(s[3])
                && is_hex_digit_char(s[4]) && is_hex_digit_char(s[5]) {
                let code = hex_val(s[2]) * 4096 + hex_val(s[3]) * 256 + hex_val(s[4]) * 16
                    + hex_val(s[5]);
                if 0xD800 <= code && code < 0xDC00 {
                    // A high surrogate: a low surrogate must follow, and the
                    // pair names one character above U+FFFF.
                    if s.len() >= 12 && s[6] == '\\' && s[7] == 'u' && is_hex_digit_char(s[8])
                        && is_hex_digit_char(s[9]) && is_hex_digit_char(s[10])
                        && is_hex_digit_char(s[11]) {
                        let low = hex_val(s[8]) * 4096 + hex_val(s[9]) * 256 + hex_val(s[10]) * 16
                            + hex_val(s[11]);
                        if 0xDC00 <= low && low < 0xE000 {
                            match parse_string_body(s.skip(12)) {
                                Some((content, rest)) => Some(
                                    (
                                        seq![(((0x10000 + (code - 0xD800) * 1024 + (low - 0xDC00)) as u32) as char)]
                                            + content,
                                        rest,
                                    ),
                                ),
                                None => None,
                            }
                        } else {
                            None
                        }
                    } else {
                        None
                    }
                } else if 0xDC00 <= code && code < 0xE000 {
                    // A low surrogate on its own names no character.
                    None
                } else {
                    match parse_string_body(s.skip(6)) {
                        Some((content, rest)) => Some(
                            (seq![((code as u32) as char)] + content, rest),
                        ),
                        None => None,
                    }
                }
            } else {
                None
            }
        } else {
            match simple_escape(s[1]) {
                Some(c) => match parse_string_body(s.skip(2)) {
                    Some((content, rest)) => Some((seq![c] + content, rest)),
                    None => None,
                },
                None => None,
            }
        }
    } else if (s[0] as u32) < 32 {
        None
    } else {
        match parse_string_body(s.skip(1)) {
            Some((content, rest)) => Some((seq![s[0]] + content, rest)),
            None => None,
        }
    }
}

/// Reads a nonempty run of decimal digits; yields the rest after it.
pub open spec fn parse_digits(s: Seq<char>) -> Option<Seq<char>>
    decreases s.len(),
{
    if s.len() == 0 || !is_digit(s[0]) {
        None
    } else if s.len() == 1 || !is_digit(s[1]) {
        Some(s.skip(1))
    } else {
        parse_digits(s.skip(1))
    }
}

/// Reads a JSON number: an optional minus sign, an integer part without
/// a leading zero, an optional fraction and an optional exponent.
pub open spec fn parse_number(s: Seq<char>) -> Option<Seq<char>> {
    let t = if s.len() >= 1 && s[0] == '-' {
        s.skip(1)
    } else {
        s
    };
    let int_part = if t.len() == 0 {
        None
    } else if t[0] == '0' {
        Some(t.skip(1))
    } else {
        parse_digits(t)
    };
    match int_part {
        None => None,
        Some(r1) => {
            let frac = if r1.len() >= 1 && r1[0] == '.' {
                parse_digits(r1.skip(1))
            } else {
                Some(r1)
            };
            match frac {
                None => None,
                Some(r2) => if r2.len() >= 1 && (r2[0] == 'e' || r2[0] == 'E') {
                    parse_digits(
                        if r2.len() >= 2 && (r2[1] == '+' || r2[1] == '-') {
                            r2.skip(2)
                        } else {
                            r2.skip(1)
                        },
                    )
                } else {
                    Some(r2)
                },
            }
        },
    }
}

/// Reads a primitive JSON token: `true`, `false`, `null` or a number;
/// yields the rest after it.
pub open spec fn parse_primitive(s: Seq<char>) -> Option<Seq<char>> {
    if s.len() >= 4 && s[0] == 't' && s[1] == 'r' && s[2] == 'u' && s[3] == 'e' {
        Some(s.skip(4))
    } else if s.len() >= 5 && s[0] == 'f' && s[1] == 'a' && s[2] == 'l' && s[3] == 's' && s[4]
        == 'e' {
        Some(s.skip(5))
    } else if s.len() >= 4 && s[0] == 'n' && s[1] == 'u' && s[2] == 'l' && s[3] == 'l' {
        Some(s.skip(4))
    } else {
        parse_number(s)
    }
}

/// One ignored JSON value: a string, a primitive token, an array or an
/// object, nested values included; yields the rest after it.
pub open spec fn skip_value(s: Seq<char>) -> Option<Seq<char>>
    decreases s.len(), 0int,
{
    if s.len() == 0 {
        None
    } else if s[0] == '"' {
        match parse_string_body(s.skip(1)) {
            Some(p) => Some(p.1),
            None => None,
        }
    } else if s[0] == '[' {
        skip_array_tail(s.skip(1), true)
    } else if s[0] == '{' {
        skip_object_tail(s.skip(1), true)
    } else {
        parse_primitive(s)
    }
}

/// The rest of an array being read over, from just after the opening
/// bracket or a separating comma; `first` says whether a closing bracket
/// may come at once, as in an empty array.  The length test on what a
/// value leaves unread always holds and only serves termination.
pub open spec fn skip_array_tail(s: Seq<char>, first: bool) -> Option<Seq<char>>
    decreases s.len(), 1int,
    via skip_array_tail_decreases
{
    let t = skip_ws(s);
    if t.len() == 0 {
        None
    } else if first && t[0] == ']' {
        Some(t.skip(1))
    } else {
        match skip_value(t) {
            None => None,
            Some(rest) => if rest.len() < t.len() {
                let u = skip_ws(rest);
                if u.len() == 0 {
                    None
                } else if u[0] == ',' {
                    skip_array_tail(u.skip(1), false)
                } else if u[0] == ']' {
                    Some(u.skip(1))
                } else {
                    None
                }
            } else {
                None
            },
        }
    }
}

#[via_fn]
proof fn skip_array_tail_decreases(s: Seq<char>, first: bool) {
    assert forall|r: Seq<char>| #[trigger] skip_ws(r).len() <= r.len() by {
        lemma_skip_ws_len(r);
    }
}

/// The rest of an object being read over, from just after the opening
/// brace or a separating comma.  The length test on what a value leaves
/// unread always holds and only serves termination.
pub open spec fn skip_object_tail(s: Seq<char>, first: bool) -> Option<Seq<char>>
    decreases s.len(), 1int,
    via skip_object_tail_decreases
{
    let t = skip_ws(s);
    if t.len() == 0 {
        None
    } else if first && t[0] == '}' {
        Some(t.skip(1))
    } else if t[0] != '"' {
        None
    } else {
        match parse_string_body(t.skip(1)) {
            None => None,
            Some(p) => {
                let r1 = skip_ws(p.1);
                if r1.len() == 0 || r1[0] != ':' {
                    None
                } else {
                    match skip_value(skip_ws(r1.skip(1))) {
                        None => None,
                        Some(rest) => if rest.len() < t.len() {
                            let u = skip_ws(rest);
                            if u.len() == 0 {
                                None
                            } else if u[0] == ',' {
                                skip_object_tail(u.skip(1), false)
                            } else if u[0] == '}' {
                                Some(u.skip(1))
                            } else {
                                None
                            }
                        } else {
                            None
                        },
                    }
                }
            },
        }
    }
}

#[via_fn]
proof fn skip_object_tail_decreases(s: Seq<char>, first: bool) {
    assert forall|r: Seq<char>| #[trigger] skip_ws(r).len() <= r.len() by {
        lemma_skip_ws_len(r);
    }
    assert forall|r: Seq<char>|
        ((#[trigger] parse_string_body(r)) matches Some(p) ==> p.1.len() < r.len()) by {
        lemma_parse_string_body_len(r);
    }
}

/// Reads a member value: a string, whose content is kept, or any other
/// JSON value, which is ignored; yields the rest after the value.
pub open spec fn parse_field_value(s: Seq<char>) -> Option<(Option<Seq<char>>, Seq<char>)> {
    if s.len() == 0 {
        None
    } else if s[0] == '"' {
        match parse_string_body(s.skip(1)) {
            Some((content, rest)) => Some((Some(content), rest)),
            None => None,
        }
    } else {
        match skip_value(s) {
            Some(rest) => Some((None, rest)),
            None => None,
        }
    }
}

pub proof fn lemma_skip_ws_len(s: Seq<char>)
    ensures
        skip_ws(s).len() <= s.len(),
    decreases s.len(),
{
    if s.len() != 0 && is_ws(s[0]) {
        lemma_skip_ws_len(s.skip(1));
    }
}

pub proof fn lemma_parse_string_body_len(s: Seq<char>)
    ensures
        parse_string_body(s) matches Some(r) ==> r.1.len() < s.len(),
    decreases s.len(),
{
    if s.len() == 0 {
    } else if s[0] == '"' {
    } else if s[0] == '\\' {
        if s.len() >= 2 && s[1] == 'u' {
            if s.len() >= 6 {
                lemma_parse_string_body_len(s.skip(6));
            }
            if s.len() >= 12 {
                lemma_parse_string_body_len(s.skip(12));
            }
        } else if s.len() >= 2 {
            lemma_parse_string_body_len(s.skip(2));
        }
    } else {
        lemma_parse_string_body_len(s.skip(1));
    }
}

pub proof fn lemma_parse_digits_len(s: Seq<char>)
    ensures
        parse_digits(s) matches Some(rest) ==> rest.len() < s.len(),
    decreases s.len(),
{
    if s.len() != 0 && is_digit(s[0]) {
        lemma_parse_digits_len(s.skip(1));
    }
}

pub proof fn lemma_parse_number_len(s: Seq<char>)
    ensures
        parse_number(s) matches Some(rest) ==> rest.len() < s.len(),
{
    let t = if s.len() >= 1 && s[0] == '-' {
        s.skip(1)
    } else {
        s
    };
    lemma_parse_digits_len(t);
    if t.len() != 0 {
        let int_part = if t[0] == '0' {
            Some(t.skip(1))
        } else {
            parse_digits(t)
        };
        if let Some(r1) = int_part {
            lemma_parse_digits_len(r1.skip(1));
            let frac = if r1.len() >= 1 && r1[0] == '.' {
                parse_digits(r1.skip(1))
            } else {
                Some(r1)
            };
            if let Some(r2) = frac {
                if r2.len() >= 1 && (r2[0] == 'e' || r2[0] == 'E') {
                    lemma_parse_digits_len(r2.skip(1));
                    if r2.len() >= 2 {
                        lemma_parse_digits_len(r2.skip(2));
                    }
                }
            }
        }
    }
}

pub proof fn lemma_parse_primitive_len(s: Seq<char>)
    ensures
        parse_primitive(s) matches Some(rest) ==> rest.len() < s.len(),
{
    lemma_parse_number_len(s);
}

pub proof fn lemma_skip_value_len(s: Seq<char>)
    ensures
        skip_value(s) matches Some(rest) ==> rest.len() < s.len(),
    decreases s.len(), 0int,
{
    if s.len() == 0 {
    } else if s[0] == '"' {
        lemma_parse_string_body_len(s.skip(1));
    } else if s[0] == '[' {
        lemma_skip_array_tail_len(s.skip(1), true);
    } else if s[0] == '{' {
        lemma_skip_object_tail_len(s.skip(1), true);
    } else {
        lemma_parse_primitive_len(s);
    }
}

pub proof fn lemma_skip_array_tail_len(s: Seq<char>, first: bool)
    ensures
        skip_array_tail(s, first) matches Some(rest) ==> rest.len() < s.len(),
    decreases s.len(), 1int,
{
    lemma_skip_ws_len(s);
    let t = skip_ws(s);
    if t.len() != 0 && !(first && t[0] == ']') {
        lemma_skip_value_len(t);
        if let Some(rest) = skip_value(t) {
            if rest.len() < t.len() {
                lemma_skip_ws_len(rest);
                let u = skip_ws(rest);
                if u.len() != 0 && u[0] == ',' {
                    lemma_skip_array_tail_len(u.skip(1), false);
                }
            }
        }
    }
}

pub proof fn lemma_skip_object_tail_len(s: Seq<char>, first: bool)
    ensures
        skip_object_tail(s, first) matches Some(rest) ==> rest.len() < s.len(),
    decreases s.len(), 1int,
{
    lemma_skip_ws_len(s);
    let t = skip_ws(s);
    if t.len() != 0 && !(first && t[0] == '}') && t[0] == '"' {
        lemma_parse_string_body_len(t.skip(1));
        if let Some(p) = parse_string_body(t.skip(1)) {
            lemma_skip_ws_len(p.1);
            let r1 = skip_ws(p.1);
            if r1.len() != 0 && r1[0] == ':' {
                lemma_skip_ws_len(r1.skip(1));
                lemma_skip_value_len(skip_ws(r1.skip(1)));
                if let Some(rest) = skip_value(skip_ws(r1.skip(1))) {
                    if rest.len() < t.len() {
                        lemma_skip_ws_len(rest);
                        let u = skip_ws(rest);
                        if u.len() != 0 && u[0] == ',' {
                            lemma_skip_object_tail_len(u.skip(1), false);
                        }
                    }
                }
            }
        }
    }
}

pub proof fn lemma_parse_field_value_len(s: Seq<char>)
    ensures
        parse_field_value(s) matches Some(r) ==> r.1.len() < s.len(),
{
    if s.len() != 0 && s[0] == '"' {
        lemma_parse_string_body_len(s.skip(1));
    } else {
        lemma_skip_value_len(s);
    }
}

/// Reads the members of a flat object, from just after the opening brace
/// or a separating comma to the closing brace, which must be followed by
/// whitespace only.  The string contents found under the keys `k1` and
/// `k2` are returned, each from the last member carrying that key; a
/// member whose key is `k1` or `k2` must hold a string value.  `v1` and
/// `v2` carry what earlier members already found.
pub open spec fn parse_members(
    s: Seq<char>,
    k1: Seq<char>,
    k2: Seq<char>,
    v1: Option<Seq<char>>,
    v2: Option<Seq<char>>,
) -> Option<(Seq<char>, Seq<char>)>
    decreases s.len(),
    via parse_members_decreases
{
    let t = skip_ws(s);
    if t.len() == 0 || t[0] != '"' {
        None
    } else {
        match parse_string_body(t.skip(1)) {
            None => None,
            Some((key, r1)) => {
                let r1w = skip_ws(r1);
                if r1w.len() == 0 || r1w[0] != ':' {
                    None
                } else {
                    match parse_field_value(skip_ws(r1w.skip(1))) {
                        None => None,
                        Some((sval, r2)) => {
                            if (key == k1 || key == k2) && sval is None {
                                None
                            } else {
                                let n1 = if key == k1 { sval } else { v1 };
                                let n2 = if key == k2 { sval } else { v2 };
                                let r2w = skip_ws(r2);
                                if r2w.len() == 0 {
                                    None
                                } else if r2w[0] == ',' {
                                    parse_members(r2w.skip(1), k1, k2, n1, n2)
                                } else if r2w[0] == '}' && skip_ws(r2w.skip(1)).len() == 0 {
                                    match (n1, n2) {
                                        (Some(a), Some(b)) => Some((a, b)),
                                        _ => None,
                                    }
                                } else {
                                    None
                                }
                            }
                        },
                    }
                }
            },
        }
    }
}

#[via_fn]
proof fn parse_members_decreases(
    s: Seq<char>,
    k1: Seq<char>,
    k2: Seq<char>,
    v1: Option<Seq<char>>,
    v2: Option<Seq<char>>,
) {
    lemma_skip_ws_len(s);
    let t = skip_ws(s);
    if t.len() != 0 && t[0] == '"' {
        lemma_parse_string_body_len(t.skip(1));
        if let Some((key, r1)) = parse_string_body(t.skip(1)) {
            lemma_skip_ws_len(r1);
            let r1w = skip_ws(r1);
            if r1w.len() != 0 && r1w[0] == ':' {
                lemma_skip_ws_len(r1w.skip(1));
                lemma_parse_field_value_len(skip_ws(r1w.skip(1)));
                if let Some((sval, r2)) = parse_field_value(skip_ws(r1w.skip(1))) {
                    lemma_skip_ws_len(r2);
                }
            }
        }
    }
}

/// Reads a whole flat object carrying string values under the keys `k1`
/// and `k2`, with optional leading whitespace; other members are ignored.
pub open spec fn parse_two_fields(s: Seq<char>, k1: Seq<char>, k2: Seq<char>) -> Option<
    (Seq<char>, Seq<char>),
> {
    let t = skip_ws(s);
    if t.len() == 0 || t[0] != '{' {
        None
    } else {
        parse_members(t.skip(1), k1, k2, None, None)
    }
}

// ---------------------------------------------------------------------
// The parser inverts the encoder.
// ---------------------------------------------------------------------

proof fn lemma_hex_digit_val(d: nat)
    requires
        d < 16,
    ensures
        is_hex_digit_char(hex_digit(d)),
        hex_val(hex_digit(d)) == d,
{
}

/// After an opening quote, the escaped text of `s` followed by a closing
/// quote and anything further reads back as exactly `s`.
pub proof fn lemma_parse_escaped(s: Seq<char>, rest: Seq<char>)
    ensures
        parse_string_body(escaped(s) + seq!['"'] + rest) == Some((s, rest)),
    decreases s.len(),
{
    let full = escaped(s) + seq!['"'] + rest;
    if s.len() == 0 {
        assert(escaped(s) =~= Seq::<char>::empty());
        assert(full =~= seq!['"'] + rest);
        assert(full[0] == '"');
        assert(full.skip(1) =~= rest);
    } else {
        let c = s[0];
        let tail = escaped(s.skip(1)) + seq!['"'] + rest;
        assert(escaped(s) == escaped_char(c) + escaped(s.skip(1)));
        assert(full =~= escaped_char(c) + tail);
        lemma_parse_escaped(s.skip(1), rest);
        assert(seq![c] + s.skip(1) =~= s);
        if c == '"' || c == '\\' || c == '\n' || c == '\r' || c == '\t' {
            let e = if c == '"' { '"' }
                else if c == '\\' { '\\' }
                else if c == '\n' { 'n' }
                else if c == '\r' { 'r' }
                else { 't' };
            assert(escaped_char(c) =~= seq!['\\', e]);
            assert(full =~= seq!['\\', e] + tail);
            assert(full[0] == '\\' && full[1] == e);
            assert(full.len() >= 2);
            assert(simple_escape(e) == Some(c));
            assert(full.skip(2) =~= tail);
        } else if (c as u32) < 32 {
            let cu = c as u32;
            vstd::utf8::char_u32_cast(c, cu);
            let d1 = (cu / 16) as nat;
            let d2 = (cu % 16) as nat;
            assert(d1 < 2 && d2 < 16);
            lemma_hex_digit_val(d1);
            lemma_hex_digit_val(d2);
            assert(escaped_char(c) =~= seq!['\\', 'u', '0', '0', hex_digit(d1), hex_digit(d2)]);
            assert(full =~= seq!['\\', 'u', '0', '0', hex_digit(d1), hex_digit(d2)] + tail);
            assert(full[0] == '\\' && full[1] == 'u' && full[2] == '0' && full[3] == '0');
            assert(full[4] == hex_digit(d1) && full[5] == hex_digit(d2));
            assert(full.len() >= 6);
            assert(is_hex_digit_char('0') && hex_val('0') == 0);
            let code = hex_val(full[2]) * 4096 + hex_val(full[3]) * 256 + hex_val(full[4]) * 16
                + hex_val(full[5]);
            assert(code == cu);
            assert(!(0xD800 <= code && code < 0xDC00) && !(0xDC00 <= code && code < 0xE000));
            assert((cu as char) == c);
            assert(((code as u32) as char) == c);
            assert(full.skip(6) =~= tail);
        } else {
            assert(escaped_char(c) =~= seq![c]);
            assert(full =~= seq![c] + tail);
            assert(full[0] == c);
            assert(full.skip(1) =~= tail);
        }
    }
}

/// Concatenation of character sequences is associative.
pub broadcast proof fn lemma_concat_assoc_chars(a: Seq<char>, b: Seq<char>, c: Seq<char>)
    ensures
        #[trigger] ((a + b) + c) == a + (b + c),
{
    assert((a + b) + c =~= a + (b + c));
}

/// A string without quote, backslash or control characters is written
/// into a JSON string unchanged.
pub proof fn lemma_escaped_plain(s: Seq<char>)
    requires
        forall|i: int|
            0 <= i < s.len() ==> s[i] != '"' && s[i] != '\\' && !((s[i] as u32) < 32),
    ensures
        escaped(s) == s,
    decreases s.len(),
{
    if s.len() != 0 {
        assert(escaped_char(s[0]) =~= seq![s[0]]);
        lemma_escaped_plain(s.skip(1));
        assert(escaped(s) =~= s);
    }
}

/// The boolean tokens read as themselves, whatever follows them.
pub proof fn lemma_parse_bool_token(b: bool, rest: Seq<char>)
    ensures
        parse_primitive((if b { "true"@ } else { "false"@ }) + rest) == Some(rest),
{
    reveal_strlit("true");
    reveal_strlit("false");
    let tok = if b { "true"@ } else { "false"@ };
    let s = tok + rest;
    if b {
        assert(s.len() >= 4 && s[0] == 't' && s[1] == 'r' && s[2] == 'u' && s[3] == 'e');
        assert(s.skip(4) =~= rest);
    } else {
        assert(s.len() >= 5 && s[0] == 'f' && s[1] == 'a' && s[2] == 'l' && s[3] == 's' && s[4]
            == 'e');
        assert(s.skip(5) =~= rest);
    }
}

/// One member of an object, with a string value and a comma after it:
/// reading it updates the gathered values and goes on with the rest.
pub proof fn lemma_members_step_string(
    key: Seq<char>,
    value: Seq<char>,
    more: Seq<char>,
    k1: Seq<char>,
    k2: Seq<char>,
    v1: Option<Seq<char>>,
    v2: Option<Seq<char>>,
)
    ensures
        parse_members(quoted(key) + seq![':'] + quoted(value) + seq![','] + more, k1, k2, v1, v2)
            == parse_members(
            more,
            k1,
            k2,
            if key == k1 { Some(value) } else { v1 },
            if key == k2 { Some(value) } else { v2 },
        ),
{
    broadcast use lemma_concat_assoc_chars;

    let s = quoted(key) + seq![':'] + quoted(value) + seq![','] + more;
    assert(s[0] == '"');
    lemma_skip_ws_id(s);
    let r1 = seq![':'] + quoted(value) + seq![','] + more;
    assert(s.skip(1) =~= escaped(key) + seq!['"'] + r1);
    lemma_parse_escaped(key, r1);
    assert(r1[0] == ':');
    lemma_skip_ws_id(r1);
    let val = quoted(value) + (seq![','] + more);
    assert(r1.skip(1) =~= val);
    lemma_skip_ws_id(val);
    assert(val[0] == '"');
    assert(val.skip(1) =~= escaped(value) + seq!['"'] + (seq![','] + more));
    lemma_parse_escaped(value, seq![','] + more);
    assert(parse_field_value(val) == Some((Some(value), seq![','] + more)));
    let r2 = seq![','] + more;
    assert(r2[0] == ',');
    lemma_skip_ws_id(r2);
    assert(r2.skip(1) =~= more);
}

/// The last member of an object, with a primitive value under a key that
/// is neither of the gathered ones: reading it ends the object with the
/// values gathered so far.
pub proof fn lemma_members_end_primitive(
    key: Seq<char>,
    tok: Seq<char>,
    k1: Seq<char>,
    k2: Seq<char>,
    v1: Option<Seq<char>>,
    v2: Option<Seq<char>>,
)
    requires
        key != k1,
        key != k2,
        tok.len() > 0,
        !is_ws(tok[0]),
        tok[0] != '"',
        tok[0] != '[',
        tok[0] != '{',
        parse_primitive(tok + seq!['}']) == Some(seq!['}']),
    ensures
        parse_members(quoted(key) + seq![':'] + tok + seq!['}'], k1, k2, v1, v2) == (match (
            v1,
            v2,
        ) {
            (Some(a), Some(b)) => Some((a, b)),
            _ => None,
        }),
{
    broadcast use lemma_concat_assoc_chars;

    let s = quoted(key) + seq![':'] + tok + seq!['}'];
    assert(s[0] == '"');
    lemma_skip_ws_id(s);
    let r1 = seq![':'] + tok + seq!['}'];
    assert(s.skip(1) =~= escaped(key) + seq!['"'] + r1);
    lemma_parse_escaped(key, r1);
    assert(r1[0] == ':');
    lemma_skip_ws_id(r1);
    let val = tok + seq!['}'];
    assert(r1.skip(1) =~= val);
    assert(val[0] == tok[0]);
    lemma_skip_ws_id(val);
    assert(skip_value(val) == Some(seq!['}']));
    assert(parse_field_value(val) == Some((None::<Seq<char>>, seq!['}'])));
    let r2 = seq!['}'];
    assert(r2[0] == '}');
    assert(r2.skip(1) =~= Seq::<char>::empty());
    assert(skip_ws(r2.skip(1)).len() == 0);
}

/// Leading-whitespace removal leaves a string that starts with none.
pub proof fn lemma_skip_ws_id(s: Seq<char>)
    requires
        s.len() == 0 || !is_ws(s[0]),
    ensures
        skip_ws(s) == s,
{
}

/// A two-member object written by the encoder reads back as exactly its
/// two values.
#[verifier::rlimit(100)]
pub proof fn lemma_parse_two_field_object(
    k1: Seq<char>,
    v1: Seq<char>,
    k2: Seq<char>,
    v2: Seq<char>,
)
    requires
        k1 != k2,
    ensures
        parse_two_fields(
            seq!['{'] + quoted(k1) + seq![':'] + quoted(v1) + seq![','] + quoted(k2) + seq![':']
                + quoted(v2) + seq!['}'],
            k1,
            k2,
        ) == Some((v1, v2)),
{
    let obj = seq!['{'] + quoted(k1) + seq![':'] + quoted(v1) + seq![','] + quoted(k2) + seq![':']
        + quoted(v2) + seq!['}'];
    assert(obj[0] == '{');
    lemma_skip_ws_id(obj);
    let m1 = obj.skip(1);
    assert(m1 =~= quoted(k1) + seq![':'] + quoted(v1) + seq![','] + quoted(k2) + seq![':']
        + quoted(v2) + seq!['}']);

    // First member: key k1, value v1.
    assert(m1[0] == '"');
    lemma_skip_ws_id(m1);
    let after_k1 = seq![':'] + quoted(v1) + seq![','] + quoted(k2) + seq![':'] + quoted(v2)
        + seq!['}'];
    assert(m1.skip(1) =~= escaped(k1) + seq!['"'] + after_k1);
    lemma_parse_escaped(k1, after_k1);
    assert(parse_string_body(m1.skip(1)) == Some((k1, after_k1)));
    assert(after_k1[0] == ':');
    lemma_skip_ws_id(after_k1);
    let val1 = quoted(v1) + (seq![','] + quoted(k2) + seq![':'] + quoted(v2) + seq!['}']);
    assert(after_k1.skip(1) =~= val1);
    lemma_skip_ws_id(val1);
    assert(val1[0] == '"');
    let after_v1 = seq![','] + quoted(k2) + seq![':'] + quoted(v2) + seq!['}'];
    assert(val1.skip(1) =~= escaped(v1) + seq!['"'] + after_v1);
    lemma_parse_escaped(v1, after_v1);
    assert(parse_field_value(val1) == Some((Some(v1), after_v1)));
    assert(after_v1[0] == ',');
    lemma_skip_ws_id(after_v1);

    // Second member: key k2, value v2.
    let m2 = quoted(k2) + seq![':'] + quoted(v2) + seq!['}'];
    assert(after_v1.skip(1) =~= m2);
    assert(m2[0] == '"');
    lemma_skip_ws_id(m2);
    let after_k2 = seq![':'] + quoted(v2) + seq!['}'];
    assert(m2.skip(1) =~= escaped(k2) + seq!['"'] + after_k2);
    lemma_parse_escaped(k2, after_k2);
    assert(after_k2[0] == ':');
    lemma_skip_ws_id(after_k2);
    let val2 = quoted(v2) + seq!['}'];
    assert(after_k2.skip(1) =~= val2);
    lemma_skip_ws_id(val2);
    assert(val2[0] == '"');
    let after_v2 = seq!['}'];
    assert(val2.skip(1) =~= escaped(v2) + seq!['"'] + after_v2);
    lemma_parse_escaped(v2, after_v2);
    assert(parse_field_value(val2) == Some((Some(v2), after_v2)));
    assert(after_v2[0] == '}');
    lemma_skip_ws_id(after_v2);
    assert(after_v2.skip(1) =~= Seq::<char>::empty());
    assert(skip_ws(after_v2.skip(1)).len() == 0);

    assert(parse_members(m2, k1, k2, Some(v1), None) == Some((v1, v2)));
    assert(parse_members(m1, k1, k2, None, None) == Some((v1, v2)));
}

// ---------------------------------------------------------------------
// Parsing, executable level.  Each function walks the character vector
// from an index and is proved to behave as the spec function does on the
// corresponding suffix.
// ---------------------------------------------------------------------

fn is_raw_control(c: char) -> (b: bool)
    ensures
        b == ((c as u32) < 32),
{
    (c as u32) < 32
}

fn is_ws_exec(c: char) -> (b: bool)
    ensures
        b == is_ws(c),
{
    c == ' ' || c == '\n' || c == '\r' || c == '\t'
}

fn is_digit_exec(c: char) -> (b: bool)
    ensures
        b == is_digit(c),
{
    '0' <= c && c <= '9'
}

fn is_hex_digit_char_exec(c: char) -> (b: bool)
    ensures
        b == is_hex_digit_char(c),
{
    ('0' <= c && c <= '9') || ('a' <= c && c <= 'f') || ('A' <= c && c <= 'F')
}

fn hex_val_exec(c: char) -> (d: u32)
    requires
        is_hex_digit_char(c),
    ensures
        d as nat == hex_val(c),
        d < 16,
{
    let u: u32 = c as u32;
    if u <= 57 {
        u - 48
    } else if u >= 97 {
        u - 97 + 10
    } else {
        u - 65 + 10
    }
}

fn skip_ws_exec(v: &Vec<char>, i: usize) -> (j: usize)
    requires
        i <= v@.len(),
    ensures
        i <= j <= v@.len(),
        skip_ws(v@.skip(i as int)) == v@.skip(j as int),
{
    let mut j: usize = i;
    while j < v.len() && is_ws_exec(v[j])
        invariant
            i <= j <= v@.len(),
            skip_ws(v@.skip(i as int)) == skip_ws(v@.skip(j as int)),
        decreases v@.len() - j,
    {
        proof {
            assert(v@.skip(j as int)[0] == v@[j as int]);
            assert(v@.skip(j as int).skip(1) =~= v@.skip(j + 1 as int));
        }
        j = j + 1;
    }
    proof {
        if j < v@.len() {
            assert(v@.skip(j as int)[0] == v@[j as int]);
        }
        assert(skip_ws(v@.skip(j as int)) == v@.skip(j as int));
    }
    j
}

fn parse_string_body_exec(v: &Vec<char>, i: usize, out: &mut Vec<char>) -> (r: Option<usize>)
    requires
        i <= v@.len(),
    ensures
        r matches Some(j) ==> {
            &&& i < j <= v@.len()
            &&& old(out)@.len() <= final(out)@.len()
            &&& old(out)@ == final(out)@.take(old(out)@.len() as int)
            &&& parse_string_body(v@.skip(i as int)) == Some(
                (final(out)@.skip(old(out)@.len() as int), v@.skip(j as int)),
            )
        },
        r is None ==> parse_string_body(v@.skip(i as int)) is None,
    decreases v@.len() - i,
{
    let ghost s = v@.skip(i as int);
    let ghost orig = out@;
    if i >= v.len() {
        return None;
    }
    let c = v[i];
    proof {
        assert(c == s[0]);
    }
    if c == '"' {
        proof {
            assert(s.skip(1) =~= v@.skip(i + 1 as int));
            assert(orig.take(orig.len() as int) =~= orig);
            assert(orig.skip(orig.len() as int) =~= Seq::<char>::empty());
        }
        return Some(i + 1);
    }
    if c == '\\' {
        if i + 1 >= v.len() {
            return None;
        }
        let c2 = v[i + 1];
        proof {
            assert(c2 == s[1]);
        }
        if c2 == 'u' {
            if v.len() - i < 6 {
                return None;
            }
            let h1 = v[i + 2];
            let h2 = v[i + 3];
            let h3 = v[i + 4];
            let h4 = v[i + 5];
            proof {
                assert(h1 == s[2] && h2 == s[3] && h3 == s[4] && h4 == s[5]);
            }
            if !(is_hex_digit_char_exec(h1) && is_hex_digit_char_exec(h2)
                && is_hex_digit_char_exec(h3) && is_hex_digit_char_exec(h4)) {
                return None;
            }
            let code: u32 = hex_val_exec(h1) * 4096 + hex_val_exec(h2) * 256 + hex_val_exec(h3)
                * 16 + hex_val_exec(h4);
            if 0xD800 <= code && code < 0xDC00 {
                if v.len() - i < 12 {
                    return None;
                }
                let l1 = v[i + 8];
                let l2 = v[i + 9];
                let l3 = v[i + 10];
                let l4 = v[i + 11];
                proof {
                    assert(v@[i + 6 as int] == s[6] && v@[i + 7 as int] == s[7]);
                    assert(l1 == s[8] && l2 == s[9] && l3 == s[10] && l4 == s[11]);
                }
                if !(v[i + 6] == '\\' && v[i + 7] == 'u' && is_hex_digit_char_exec(l1)
                    && is_hex_digit_char_exec(l2) && is_hex_digit_char_exec(l3)
                    && is_hex_digit_char_exec(l4)) {
                    return None;
                }
                let low: u32 = hex_val_exec(l1) * 4096 + hex_val_exec(l2) * 256 + hex_val_exec(l3)
                    * 16 + hex_val_exec(l4);
                if !(0xDC00 <= low && low < 0xE000) {
                    return None;
                }
                let combined: u32 = 0x10000 + (code - 0xD800) * 1024 + (low - 0xDC00);
                let decoded: char = char_from_code(combined);
                proof {
                    assert(decoded == (((0x10000 + (hex_val(s[2]) * 4096 + hex_val(s[3]) * 256
                        + hex_val(s[4]) * 16 + hex_val(s[5]) - 0xD800) * 1024 + (hex_val(s[8])
                        * 4096 + hex_val(s[9]) * 256 + hex_val(s[10]) * 16 + hex_val(s[11])
                        - 0xDC00)) as u32) as char));
                }
                let ghost mid = out@.push(decoded);
                out.push(decoded);
                let rec = parse_string_body_exec(v, i + 12, out);
                match rec {
                    Some(j) => {
                        proof {
                            assert(s.skip(12) =~= v@.skip(i + 12 as int));
                            assert(mid == orig.push(decoded));
                            assert(out@.take(mid.len() as int) == mid);
                            assert(mid[orig.len() as int] == decoded);
                            assert(out@.take(mid.len() as int)[orig.len() as int]
                                == out@[orig.len() as int]);
                            assert(orig =~= out@.take(orig.len() as int));
                            assert(seq![decoded] + out@.skip(mid.len() as int)
                                =~= out@.skip(orig.len() as int));
                        }
                        return Some(j);
                    },
                    None => {
                        proof {
                            assert(s.skip(12) =~= v@.skip(i + 12 as int));
                        }
                        return None;
                    },
                }
            }
            if 0xDC00 <= code && code < 0xE000 {
                return None;
            }
            let decoded: char = char_from_code(code);
            proof {
                assert(decoded == (((hex_val(s[2]) * 4096 + hex_val(s[3]) * 256 + hex_val(s[4])
                    * 16 + hex_val(s[5])) as u32) as char));
            }
            let ghost mid = out@.push(decoded);
            out.push(decoded);
            let rec = parse_string_body_exec(v, i + 6, out);
            match rec {
                Some(j) => {
                    proof {
                        assert(s.skip(6) =~= v@.skip(i + 6 as int));
                        assert(mid == orig.push(decoded));
                        assert(out@.take(mid.len() as int) == mid);
                        assert(mid[orig.len() as int] == decoded);
                        assert(out@.take(mid.len() as int)[orig.len() as int]
                            == out@[orig.len() as int]);
                        assert(orig =~= out@.take(orig.len() as int));
                        assert(seq![decoded] + out@.skip(mid.len() as int)
                            =~= out@.skip(orig.len() as int));
                    }
                    return Some(j);
                },
                None => {
                    proof {
                        assert(s.skip(6) =~= v@.skip(i + 6 as int));
                    }
                    return None;
                },
            }
        } else {
            let dec: Option<char> = if c2 == '"' { Some('"') }
                else if c2 == '\\' { Some('\\') }
                else if c2 == '/' { Some('/') }
                else if c2 == 'n' { Some('\n') }
                else if c2 == 'r' { Some('\r') }
                else if c2 == 't' { Some('\t') }
                else if c2 == 'b' { Some('\u{8}') }
                else if c2 == 'f' { Some('\u{c}') }
                else { None };
            proof {
                assert(dec == simple_escape(c2));
            }
            match dec {
                None => {
                    return None;
                },
                Some(decoded) => {
                    let ghost mid = out@.push(decoded);
                    out.push(decoded);
                    let rec = parse_string_body_exec(v, i + 2, out);
                    match rec {
                        Some(j) => {
                            proof {
                                assert(s.skip(2) =~= v@.skip(i + 2 as int));
                                assert(mid == orig.push(decoded));
                                assert(out@.take(mid.len() as int) == mid);
                                assert(mid[orig.len() as int] == decoded);
                                assert(out@.take(mid.len() as int)[orig.len() as int]
                                    == out@[orig.len() as int]);
                                assert(orig =~= out@.take(orig.len() as int));
                                assert(seq![decoded] + out@.skip(mid.len() as int)
                                    =~= out@.skip(orig.len() as int));
                            }
                            return Some(j);
                        },
                        None => {
                            proof {
                                assert(s.skip(2) =~= v@.skip(i + 2 as int));
                            }
                            return None;
                        },
                    }
                },
            }
        }
    }
    if is_raw_control(c) {
        return None;
    }
    let ghost mid = out@.push(c);
    out.push(c);
    let rec = parse_string_body_exec(v, i + 1, out);
    match rec {
        Some(j) => {
            proof {
                assert(s.skip(1) =~= v@.skip(i + 1 as int));
                assert(mid == orig.push(c));
                assert(out@.take(mid.len() as int) == mid);
                assert(mid[orig.len() as int] == c);
                assert(out@.take(mid.len() as int)[orig.len() as int]
                    == out@[orig.len() as int]);
                assert(orig =~= out@.take(orig.len() as int));
                assert(seq![c] + out@.skip(mid.len() as int)
                    =~= out@.skip(orig.len() as int));
            }
            Some(j)
        },
        None => {
            proof {
                assert(s.skip(1) =~= v@.skip(i + 1 as int));
            }
            None
        },
    }
}

fn parse_digits_exec(v: &Vec<char>, i: usize) -> (r: Option<usize>)
    requires
        i <= v@.len(),
    ensures
        r matches Some(j) ==> i < j <= v@.len() && parse_digits(v@.skip(i as int)) == Some(
            v@.skip(j as int),
        ),
        r is None ==> parse_digits(v@.skip(i as int)) is None,
    decreases v@.len() - i,
{
    let ghost s = v@.skip(i as int);
    if i >= v.len() || !is_digit_exec(v[i]) {
        proof {
            if i < v@.len() {
                assert(s[0] == v@[i as int]);
            }
        }
        return None;
    }
    proof {
        assert(s[0] == v@[i as int]);
    }
    if i + 1 >= v.len() || !is_digit_exec(v[i + 1]) {
        proof {
            if i + 1 < v@.len() {
                assert(s[1] == v@[i + 1 as int]);
            }
            assert(s.skip(1) =~= v@.skip(i + 1 as int));
        }
        return Some(i + 1);
    }
    proof {
        assert(s[1] == v@[i + 1 as int]);
        assert(s.skip(1) =~= v@.skip(i + 1 as int));
    }
    parse_digits_exec(v, i + 1)
}

fn parse_number_exec(v: &Vec<char>, i: usize) -> (r: Option<usize>)
    requires
        i <= v@.len(),
    ensures
        r matches Some(j) ==> i < j <= v@.len() && parse_number(v@.skip(i as int)) == Some(
            v@.skip(j as int),
        ),
        r is None ==> parse_number(v@.skip(i as int)) is None,
{
    let ghost s = v@.skip(i as int);
    let t: usize = if i < v.len() && v[i] == '-' {
        proof {
            assert(s[0] == v@[i as int]);
            assert(s.skip(1) =~= v@.skip(i + 1 as int));
        }
        i + 1
    } else {
        proof {
            if i < v@.len() {
                assert(s[0] == v@[i as int]);
            }
        }
        i
    };
    let ghost ts = v@.skip(t as int);
    if t >= v.len() {
        return None;
    }
    let j1: usize = if v[t] == '0' {
        proof {
            assert(ts[0] == v@[t as int]);
            assert(ts.skip(1) =~= v@.skip(t + 1 as int));
        }
        t + 1
    } else {
        proof {
            assert(ts[0] == v@[t as int]);
        }
        match parse_digits_exec(v, t) {
            Some(j) => j,
            None => {
                return None;
            },
        }
    };
    let ghost r1s = v@.skip(j1 as int);
    let j2: usize = if j1 < v.len() && v[j1] == '.' {
        proof {
            assert(r1s[0] == v@[j1 as int]);
            assert(r1s.skip(1) =~= v@.skip(j1 + 1 as int));
        }
        match parse_digits_exec(v, j1 + 1) {
            Some(j) => j,
            None => {
                return None;
            },
        }
    } else {
        proof {
            if j1 < v@.len() {
                assert(r1s[0] == v@[j1 as int]);
            }
        }
        j1
    };
    let ghost r2s = v@.skip(j2 as int);
    if j2 < v.len() && (v[j2] == 'e' || v[j2] == 'E') {
        proof {
            assert(r2s[0] == v@[j2 as int]);
        }
        let te: usize = if j2 + 1 < v.len() && (v[j2 + 1] == '+' || v[j2 + 1] == '-') {
            proof {
                assert(r2s[1] == v@[j2 + 1 as int]);
                assert(r2s.skip(2) =~= v@.skip(j2 + 2 as int));
            }
            j2 + 2
        } else {
            proof {
                if j2 + 1 < v@.len() {
                    assert(r2s[1] == v@[j2 + 1 as int]);
                }
                assert(r2s.skip(1) =~= v@.skip(j2 + 1 as int));
            }
            j2 + 1
        };
        parse_digits_exec(v, te)
    } else {
        proof {
            if j2 < v@.len() {
                assert(r2s[0] == v@[j2 as int]);
            }
        }
        Some(j2)
    }
}

fn parse_primitive_exec(v: &Vec<char>, i: usize) -> (r: Option<usize>)
    requires
        i <= v@.len(),
    ensures
        r matches Some(j) ==> i < j <= v@.len() && parse_primitive(v@.skip(i as int)) == Some(
            v@.skip(j as int),
        ),
        r is None ==> parse_primitive(v@.skip(i as int)) is None,
{
    let ghost s = v@.skip(i as int);
    proof {
        if s.len() >= 1 {
            assert(s[0] == v@[i as int]);
        }
        if s.len() >= 2 {
            assert(s[1] == v@[i + 1 as int]);
        }
        if s.len() >= 3 {
            assert(s[2] == v@[i + 2 as int]);
        }
        if s.len() >= 4 {
            assert(s[3] == v@[i + 3 as int]);
        }
        if s.len() >= 5 {
            assert(s[4] == v@[i + 4 as int]);
        }
    }
    if v.len() - i >= 4 && v[i] == 't' && v[i + 1] == 'r' && v[i + 2] == 'u' && v[i + 3] == 'e' {
        proof {
            assert(s.skip(4) =~= v@.skip(i + 4 as int));
        }
        return Some(i + 4);
    }
    if v.len() - i >= 5 && v[i] == 'f' && v[i + 1] == 'a' && v[i + 2] == 'l' && v[i + 3] == 's'
        && v[i + 4] == 'e' {
        proof {
            assert(s.skip(5) =~= v@.skip(i + 5 as int));
        }
        return Some(i + 5);
    }
    if v.len() - i >= 4 && v[i] == 'n' && v[i + 1] == 'u' && v[i + 2] == 'l' && v[i + 3] == 'l' {
        proof {
            assert(s.skip(4) =~= v@.skip(i + 4 as int));
        }
        return Some(i + 4);
    }
    parse_number_exec(v, i)
}

fn skip_value_exec(v: &Vec<char>, i: usize) -> (r: Option<usize>)
    requires
        i <= v@.len(),
    ensures
        r matches Some(j) ==> i < j <= v@.len() && skip_value(v@.skip(i as int)) == Some(
            v@.skip(j as int),
        ),
        r is None ==> skip_value(v@.skip(i as int)) is None,
    decreases v@.len() - i, 0int,
{
    let ghost s = v@.skip(i as int);
    if i >= v.len() {
        return None;
    }
    let c = v[i];
    proof {
        assert(c == s[0]);
    }
    if c == '"' {
        proof {
            assert(s.skip(1) =~= v@.skip(i + 1 as int));
        }
        let mut content: Vec<char> = Vec::new();
        match parse_string_body_exec(v, i + 1, &mut content) {
            Some(j) => Some(j),
            None => None,
        }
    } else if c == '[' {
        proof {
            assert(s.skip(1) =~= v@.skip(i + 1 as int));
        }
        skip_array_tail_exec(v, i + 1, true)
    } else if c == '{' {
        proof {
            assert(s.skip(1) =~= v@.skip(i + 1 as int));
        }
        skip_object_tail_exec(v, i + 1, true)
    } else {
        parse_primitive_exec(v, i)
    }
}

fn skip_array_tail_exec(v: &Vec<char>, i: usize, first: bool) -> (r: Option<usize>)
    requires
        i <= v@.len(),
    ensures
        r matches Some(j) ==> i < j <= v@.len() && skip_array_tail(v@.skip(i as int), first)
            == Some(v@.skip(j as int)),
        r is None ==> skip_array_tail(v@.skip(i as int), first) is None,
    decreases v@.len() - i, 1int,
{
    let ghost s = v@.skip(i as int);
    let t = skip_ws_exec(v, i);
    let ghost ts = v@.skip(t as int);
    if t >= v.len() {
        return None;
    }
    proof {
        assert(ts[0] == v@[t as int]);
    }
    if first && v[t] == ']' {
        proof {
            assert(ts.skip(1) =~= v@.skip(t + 1 as int));
        }
        return Some(t + 1);
    }
    let j1 = match skip_value_exec(v, t) {
        Some(j) => j,
        None => {
            return None;
        },
    };
    proof {
        assert(v@.skip(j1 as int).len() < ts.len());
    }
    let u = skip_ws_exec(v, j1);
    let ghost us = v@.skip(u as int);
    if u >= v.len() {
        return None;
    }
    proof {
        assert(us[0] == v@[u as int]);
    }
    if v[u] == ',' {
        proof {
            assert(us.skip(1) =~= v@.skip(u + 1 as int));
        }
        skip_array_tail_exec(v, u + 1, false)
    } else if v[u] == ']' {
        proof {
            assert(us.skip(1) =~= v@.skip(u + 1 as int));
        }
        Some(u + 1)
    } else {
        None
    }
}

#[verifier::rlimit(60)]
fn skip_object_tail_exec(v: &Vec<char>, i: usize, first: bool) -> (r: Option<usize>)
    requires
        i <= v@.len(),
    ensures
        r matches Some(j) ==> i < j <= v@.len() && skip_object_tail(v@.skip(i as int), first)
            == Some(v@.skip(j as int)),
        r is None ==> skip_object_tail(v@.skip(i as int), first) is None,
    decreases v@.len() - i, 1int,
{
    let ghost s = v@.skip(i as int);
    let t = skip_ws_exec(v, i);
    let ghost ts = v@.skip(t as int);
    if t >= v.len() {
        return None;
    }
    proof {
        assert(ts[0] == v@[t as int]);
    }
    if first && v[t] == '}' {
        proof {
            assert(ts.skip(1) =~= v@.skip(t + 1 as int));
        }
        return Some(t + 1);
    }
    if v[t] != '"' {
        return None;
    }
    proof {
        assert(ts.skip(1) =~= v@.skip(t + 1 as int));
    }
    let mut key: Vec<char> = Vec::new();
    let jk = match parse_string_body_exec(v, t + 1, &mut key) {
        Some(j) => j,
        None => {
            return None;
        },
    };
    let r1 = skip_ws_exec(v, jk);
    let ghost r1s = v@.skip(r1 as int);
    if r1 >= v.len() {
        return None;
    }
    proof {
        assert(r1s[0] == v@[r1 as int]);
    }
    if v[r1] != ':' {
        return None;
    }
    proof {
        assert(r1s.skip(1) =~= v@.skip(r1 + 1 as int));
    }
    let vs = skip_ws_exec(v, r1 + 1);
    let j1 = match skip_value_exec(v, vs) {
        Some(j) => j,
        None => {
            return None;
        },
    };
    proof {
        assert(v@.skip(j1 as int).len() < ts.len());
    }
    let u = skip_ws_exec(v, j1);
    let ghost us = v@.skip(u as int);
    if u >= v.len() {
        return None;
    }
    proof {
        assert(us[0] == v@[u as int]);
    }
    if v[u] == ',' {
        proof {
            assert(us.skip(1) =~= v@.skip(u + 1 as int));
        }
        skip_object_tail_exec(v, u + 1, false)
    } else if v[u] == '}' {
        proof {
            assert(us.skip(1) =~= v@.skip(u + 1 as int));
        }
        Some(u + 1)
    } else {
        None
    }
}

fn parse_field_value_exec(v: &Vec<char>, i: usize, out: &mut Vec<char>) -> (r: Option<
    (bool, usize),
>)
    requires
        i <= v@.len(),
        old(out)@.len() == 0,
    ensures
        r matches Some(p) ==> {
            &&& i < p.1 <= v@.len()
            &&& parse_field_value(v@.skip(i as int)) == Some(
                (
                    if p.0 { Some(final(out)@) } else { None::<Seq<char>> },
                    v@.skip(p.1 as int),
                ),
            )
        },
        r is None ==> parse_field_value(v@.skip(i as int)) is None,
{
    let ghost s = v@.skip(i as int);
    if i >= v.len() {
        return None;
    }
    proof {
        assert(s[0] == v@[i as int]);
    }
    if v[i] == '"' {
        proof {
            assert(s.skip(1) =~= v@.skip(i + 1 as int));
        }
        match parse_string_body_exec(v, i + 1, out) {
            Some(j) => {
                proof {
                    assert(out@.skip(0) =~= out@);
                }
                Some((true, j))
            },
            None => None,
        }
    } else {
        match skip_value_exec(v, i) {
            Some(j) => Some((false, j)),
            None => None,
        }
    }
}

/// The contents of an optional character vector.
pub open spec fn opt_chars_view(o: Option<Vec<char>>) -> Option<Seq<char>> {
    match o {
        Some(v) => Some(v@),
        None => None,
    }
}

#[verifier::rlimit(60)]
fn parse_members_exec(
    v: &Vec<char>,
    i: usize,
    k1: &str,
    k2: &str,
    f1: Option<Vec<char>>,
    f2: Option<Vec<char>>,
) -> (r: Option<(Vec<char>, Vec<char>)>)
    requires
        i <= v@.len(),
        k1@ != k2@,
    ensures
        r matches Some(p) ==> parse_members(
            v@.skip(i as int),
            k1@,
            k2@,
            opt_chars_view(f1),
            opt_chars_view(f2),
        ) == Some((p.0@, p.1@)),
        r is None ==> parse_members(
            v@.skip(i as int),
            k1@,
            k2@,
            opt_chars_view(f1),
            opt_chars_view(f2),
        ) is None,
    decreases v@.len() - i,
{
    let ghost s = v@.skip(i as int);
    let t = skip_ws_exec(v, i);
    let ghost ts = v@.skip(t as int);
    if t >= v.len() {
        return None;
    }
    proof {
        assert(ts[0] == v@[t as int]);
    }
    if v[t] != '"' {
        return None;
    }
    let mut key: Vec<char> = Vec::new();
    proof {
        assert(ts.skip(1) =~= v@.skip(t + 1 as int));
    }
    let jk = match parse_string_body_exec(v, t + 1, &mut key) {
        Some(j) => j,
        None => {
            return None;
        },
    };
    proof {
        assert(key@.skip(0) =~= key@);
        assert(parse_string_body(ts.skip(1)) == Some((key@, v@.skip(jk as int))));
    }
    let r1w = skip_ws_exec(v, jk);
    let ghost r1s = v@.skip(r1w as int);
    if r1w >= v.len() {
        return None;
    }
    proof {
        assert(r1s[0] == v@[r1w as int]);
    }
    if v[r1w] != ':' {
        return None;
    }
    proof {
        assert(r1s.skip(1) =~= v@.skip(r1w + 1 as int));
    }
    let vstart = skip_ws_exec(v, r1w + 1);
    let mut val: Vec<char> = Vec::new();
    let (is_str, j2) = match parse_field_value_exec(v, vstart, &mut val) {
        Some(p) => p,
        None => {
            return None;
        },
    };
    let is_k1 = chars_eq_str(&key, k1);
    let is_k2 = chars_eq_str(&key, k2);
    if (is_k1 || is_k2) && !is_str {
        return None;
    }
    let (n1, n2) = if is_k1 {
        (Some(val), f2)
    } else if is_k2 {
        (f1, Some(val))
    } else {
        (f1, f2)
    };
    let r2w = skip_ws_exec(v, j2);
    let ghost r2s = v@.skip(r2w as int);
    if r2w >= v.len() {
        return None;
    }
    proof {
        assert(r2s[0] == v@[r2w as int]);
    }
    if v[r2w] == ',' {
        proof {
            assert(r2s.skip(1) =~= v@.skip(r2w + 1 as int));
        }
        parse_members_exec(v, r2w + 1, k1, k2, n1, n2)
    } else if v[r2w] == '}' {
        proof {
            assert(r2s.skip(1) =~= v@.skip(r2w + 1 as int));
        }
        let e = skip_ws_exec(v, r2w + 1);
        if e < v.len() {
            proof {
                assert(skip_ws(r2s.skip(1)).len() > 0);
            }
            return None;
        }
        proof {
            assert(v@.skip(e as int).len() == 0);
        }
        match (n1, n2) {
            (Some(a), Some(b)) => Some((a, b)),
            _ => None,
        }
    } else {
        None
    }
}

/// Reads a whole flat object holding string values under the keys `k1` and
/// `k2`, as `parse_two_fields` describes.
pub fn parse_two_string_fields(s: &str, k1: &str, k2: &str) -> (r: Option<(String, String)>)
    requires
        k1@ != k2@,
    ensures
        r matches Some(p) ==> parse_two_fields(s@, k1@, k2@) == Some((p.0@, p.1@)),
        r is None ==> parse_two_fields(s@, k1@, k2@) is None,
{
    let v = str_chars(s);
    proof {
        assert(v@.skip(0) =~= s@);
    }
    let t = skip_ws_exec(&v, 0);
    let ghost ts = v@.skip(t as int);
    if t >= v.len() {
        return None;
    }
    proof {
        assert(ts[0] == v@[t as int]);
    }
    if v[t] != '{' {
        return None;
    }
    proof {
        assert(ts.skip(1) =~= v@.skip(t + 1 as int));
    }
    match parse_members_exec(&v, t + 1, k1, k2, None, None) {
        Some((a, b)) => Some((chars_string(&a), chars_string(&b))),
        None => None,
    }
}

/// Whether `v` holds exactly the characters of `s`.
fn chars_eq_str(v: &Vec<char>, s: &str) -> (b: bool)
    ensures
        b == (v@ == s@),
{
    let n: usize = s.unicode_len();
    if v.len() != n {
        return false;
    }
    let mut i: usize = 0;
    while i < n
        invariant
            i <= n,
            n == s@.len(),
            n == v@.len(),
            forall|k: int| 0 <= k < i ==> v@[k] == s@[k],
        decreases n - i,
    {
        if v[i] != s.get_char(i) {
            return false;
        }
        i = i + 1;
    }
    proof {
        assert(v@ =~= s@);
    }
    true
}

} // verus!
