//! A small JSON value type with an exact mathematical model.
//!
//! The wire protocol of the daemon is JSON over HTTP: objects, arrays,
//! strings with the standard escapes — the single-character forms and
//! `\uXXXX`, surrogate pairs included — `null`, booleans, and numbers.
//! Numbers are kept as their decimal source text, so no floating point
//! arithmetic is ever performed; integer-valued fields are read out of the
//! text exactly.

use vstd::prelude::*;

verus! {

broadcast use vstd::std_specs::vec::group_vec_axioms, vstd::seq::group_seq_axioms;

/// Mathematical model of a JSON value: strings are sequences of characters,
/// composites are sequences of models.
pub enum JsonV {
    Null,
    Bool(bool),
    /// The decimal source text of the number, e.g. `-12`, `0.25`.
    Num(Seq<char>),
    Str(Seq<char>),
    Arr(Seq<JsonV>),
    Obj(Seq<(Seq<char>, JsonV)>),
}

/// Executable JSON value. Its model is given by [`jv`].
#[derive(Debug, PartialEq, Eq)]
pub enum Json {
    Null,
    Bool(bool),
    /// The decimal source text of the number.
    Num(String),
    Str(String),
    Arr(Vec<Json>),
    Obj(Vec<(String, Json)>),
}

/// Model of a list of executable values.
pub open spec fn jv_list(l: Seq<Json>) -> Seq<JsonV>
    decreases l,
{
    if l.len() == 0 {
        Seq::empty()
    } else {
        jv_list(l.drop_last()).push(jv(l.last()))
    }
}

/// Model of a list of executable object members.
pub open spec fn jv_members(l: Seq<(String, Json)>) -> Seq<(Seq<char>, JsonV)>
    decreases l,
{
    if l.len() == 0 {
        Seq::empty()
    } else {
        jv_members(l.drop_last()).push((l.last().0@, jv(l.last().1)))
    }
}

/// Model of an executable JSON value.
pub open spec fn jv(j: Json) -> JsonV
    decreases j,
{
    match j {
        Json::Null => JsonV::Null,
        Json::Bool(b) => JsonV::Bool(b),
        Json::Num(t) => JsonV::Num(t@),
        Json::Str(s) => JsonV::Str(s@),
        Json::Arr(l) => JsonV::Arr(jv_list(l@)),
        Json::Obj(l) => JsonV::Obj(jv_members(l@)),
    }
}

/// The model of a list indexes pointwise into the models of its elements.
pub proof fn lemma_jv_list_index(l: Seq<Json>, i: int)
    requires
        0 <= i < l.len(),
    ensures
        jv_list(l).len() == l.len(),
        jv_list(l)[i] == jv(l[i]),
    decreases l.len(),
{
    lemma_jv_list_len(l.drop_last());
    if i < l.len() - 1 {
        lemma_jv_list_index(l.drop_last(), i);
    }
}

pub proof fn lemma_jv_list_len(l: Seq<Json>)
    ensures
        jv_list(l).len() == l.len(),
    decreases l.len(),
{
    if l.len() > 0 {
        lemma_jv_list_len(l.drop_last());
    }
}

pub proof fn lemma_jv_members_index(l: Seq<(String, Json)>, i: int)
    requires
        0 <= i < l.len(),
    ensures
        jv_members(l).len() == l.len(),
        jv_members(l)[i] == (l[i].0@, jv(l[i].1)),
    decreases l.len(),
{
    lemma_jv_members_len(l.drop_last());
    if i < l.len() - 1 {
        lemma_jv_members_index(l.drop_last(), i);
    }
}

pub proof fn lemma_jv_members_len(l: Seq<(String, Json)>)
    ensures
        jv_members(l).len() == l.len(),
    decreases l.len(),
{
    if l.len() > 0 {
        lemma_jv_members_len(l.drop_last());
    }
}

/// Relies on `String::push` of std: appends the given character to the end of
/// this `String`.
pub assume_specification[ String::push ](s: &mut String, c: char)
    ensures
        final(s)@ == old(s)@.push(c),
;

// ---------------------------------------------------------------------------
// Rendering: the exact character sequence a value is written as.
// ---------------------------------------------------------------------------
/// A character below the space, which a string literal may not hold raw.
pub open spec fn is_control(c: char) -> bool {
    (c as u32) < 0x20
}

/// The hexadecimal digit character for `d`.
pub open spec fn hex_digit(d: int) -> char {
    if d < 10 {
        dec_digit(d)
    } else if d == 10 {
        'a'
    } else if d == 11 {
        'b'
    } else if d == 12 {
        'c'
    } else if d == 13 {
        'd'
    } else if d == 14 {
        'e'
    } else {
        'f'
    }
}

/// How one character of a string body is written: the quote and the
/// backslash are escaped, a control character is written as its short escape
/// or as `\u00XX`, everything else stands for itself.
pub open spec fn esc_char(c: char) -> Seq<char> {
    if c == '"' {
        seq!['\\', '"']
    } else if c == '\\' {
        seq!['\\', '\\']
    } else if c == '\n' {
        seq!['\\', 'n']
    } else if c == '\t' {
        seq!['\\', 't']
    } else if c == '\r' {
        seq!['\\', 'r']
    } else if c == '\u{0008}' {
        seq!['\\', 'b']
    } else if c == '\u{000C}' {
        seq!['\\', 'f']
    } else if is_control(c) {
        seq!['\\', 'u', '0', '0', hex_digit((c as u32) as int / 16), hex_digit(
            (c as u32) as int % 16,
        )]
    } else {
        seq![c]
    }
}

/// How a whole string body is written.
pub open spec fn esc_str(s: Seq<char>) -> Seq<char>
    decreases s.len(),
{
    if s.len() == 0 {
        Seq::empty()
    } else {
        esc_str(s.drop_last()) + esc_char(s.last())
    }
}

/// The character sequence a JSON value is rendered as. Members and elements
/// are written in order, with no whitespace.
pub open spec fn render(v: JsonV) -> Seq<char>
    decreases v,
{
    match v {
        JsonV::Null => seq!['n', 'u', 'l', 'l'],
        JsonV::Bool(b) => if b {
            seq!['t', 'r', 'u', 'e']
        } else {
            seq!['f', 'a', 'l', 's', 'e']
        },
        JsonV::Num(t) => t,
        JsonV::Str(s) => seq!['"'] + esc_str(s) + seq!['"'],
        JsonV::Arr(l) => seq!['['] + elems_text(l, l.len() as int) + seq![']'],
        JsonV::Obj(l) => seq!['{'] + members_text(l, l.len() as int) + seq!['}'],
    }
}

/// The first `i` elements of an array, comma separated.
pub open spec fn elems_text(l: Seq<JsonV>, i: int) -> Seq<char>
    decreases l, i,
{
    if i <= 0 || i > l.len() {
        Seq::empty()
    } else if i == 1 {
        render(l[0])
    } else {
        elems_text(l, i - 1) + seq![','] + render(l[i - 1])
    }
}

/// The first `i` members of an object, comma separated, each as `"key":value`.
pub open spec fn members_text(l: Seq<(Seq<char>, JsonV)>, i: int) -> Seq<char>
    decreases l, i,
{
    if i <= 0 || i > l.len() {
        Seq::empty()
    } else {
        let m = seq!['"'] + esc_str(l[i - 1].0) + seq!['"', ':'] + render(l[i - 1].1);
        if i == 1 {
            m
        } else {
            members_text(l, i - 1) + seq![','] + m
        }
    }
}

/// Appends the escaped body of `s` to `out`.
fn write_escaped(s: &str, out: &mut String)
    ensures
        final(out)@ == old(out)@ + esc_str(s@),
{
    let n = s.unicode_len();
    let mut i: usize = 0;
    while i < n
        invariant
            n == s@.len(),
            i <= n,
            out@ == old(out)@ + esc_str(s@.subrange(0, i as int)),
        decreases n - i,
    {
        let c = s.get_char(i);
        if c == '"' {
            out.push('\\');
            out.push('"');
        } else if c == '\\' {
            out.push('\\');
            out.push('\\');
        } else if c == '\n' {
            out.push('\\');
            out.push('n');
        } else if c == '\t' {
            out.push('\\');
            out.push('t');
        } else if c == '\r' {
            out.push('\\');
            out.push('r');
        } else if c == '\u{0008}' {
            out.push('\\');
            out.push('b');
        } else if c == '\u{000C}' {
            out.push('\\');
            out.push('f');
        } else if (c as u32) < 0x20 {
            out.push('\\');
            out.push('u');
            out.push('0');
            out.push('0');
            out.push(hex_digit_char((c as u32) / 16));
            out.push(hex_digit_char((c as u32) % 16));
        } else {
            out.push(c);
        }
        proof {
            let pre = s@.subrange(0, i as int);
            let post = s@.subrange(0, i + 1int);
            assert(post.drop_last() =~= pre);
            assert(esc_str(post) == esc_str(pre) + esc_char(s@[i as int]));
        }
        i = i + 1;
    }
    proof {
        assert(s@.subrange(0, n as int) =~= s@);
    }
}

/// The decimal digit character for `d`.
pub open spec fn dec_digit(d: int) -> char {
    if d == 0 {
        '0'
    } else if d == 1 {
        '1'
    } else if d == 2 {
        '2'
    } else if d == 3 {
        '3'
    } else if d == 4 {
        '4'
    } else if d == 5 {
        '5'
    } else if d == 6 {
        '6'
    } else if d == 7 {
        '7'
    } else if d == 8 {
        '8'
    } else {
        '9'
    }
}

/// The decimal text of a nonnegative integer.
pub open spec fn dec_text(n: int) -> Seq<char>
    decreases n,
{
    if n < 10 {
        seq![dec_digit(n)]
    } else {
        dec_text(n / 10).push(dec_digit(n % 10))
    }
}

fn digit_char(d: u32) -> (c: char)
    requires
        d < 10,
    ensures
        c == dec_digit(d as int),
{
    match d {
        0 => '0',
        1 => '1',
        2 => '2',
        3 => '3',
        4 => '4',
        5 => '5',
        6 => '6',
        7 => '7',
        8 => '8',
        _ => '9',
    }
}

fn hex_digit_char(d: u32) -> (c: char)
    requires
        d < 16,
    ensures
        c == hex_digit(d as int),
{
    match d {
        0 => '0',
        1 => '1',
        2 => '2',
        3 => '3',
        4 => '4',
        5 => '5',
        6 => '6',
        7 => '7',
        8 => '8',
        9 => '9',
        10 => 'a',
        11 => 'b',
        12 => 'c',
        13 => 'd',
        14 => 'e',
        _ => 'f',
    }
}

/// Appends the decimal text of `n` to `out`.
fn write_u32(n: u32, out: &mut String)
    ensures
        final(out)@ == old(out)@ + dec_text(n as int),
    decreases n,
{
    if n < 10 {
        out.push(digit_char(n));
    } else {
        write_u32(n / 10, out);
        out.push(digit_char(n % 10));
    }
}

/// Renders `n` as its decimal text.
pub fn u32_text(n: u32) -> (out: String)
    ensures
        out@ == dec_text(n as int),
{
    let mut out = String::new();
    write_u32(n, &mut out);
    out
}

/// Appends the rendering of `j` to `out`.
fn write_json(j: &Json, out: &mut String)
    ensures
        final(out)@ == old(out)@ + render(jv(*j)),
    decreases *j,
{
    match j {
        Json::Null => {
            out.push('n');
            out.push('u');
            out.push('l');
            out.push('l');
        },
        Json::Bool(b) => {
            if *b {
                out.push('t');
                out.push('r');
                out.push('u');
                out.push('e');
            } else {
                out.push('f');
                out.push('a');
                out.push('l');
                out.push('s');
                out.push('e');
            }
        },
        Json::Num(t) => {
            out.append(t.as_str());
        },
        Json::Str(s) => {
            out.push('"');
            write_escaped(s.as_str(), out);
            out.push('"');
        },
        Json::Arr(l) => {
            out.push('[');
            let n = l.len();
            let mut i: usize = 0;
            proof {
                lemma_jv_list_len(l@);
            }
            while i < n
                invariant
                    n == l@.len(),
                    jv_list(l@).len() == n,
                    i <= n,
                    out@ == old(out)@ + seq!['['] + elems_text(jv_list(l@), i as int),
                    *j == Json::Arr(*l),
                decreases n - i,
            {
                proof {
                    lemma_jv_list_index(l@, i as int);
                    assert(decreases_to!(*j => (*j)->Arr_0));
                    assert(decreases_to!(l@ => l@[i as int]));
                }
                if i > 0 {
                    out.push(',');
                }
                write_json(&l[i], out);
                i = i + 1;
            }
            out.push(']');
        },
        Json::Obj(l) => {
            out.push('{');
            let n = l.len();
            let mut i: usize = 0;
            proof {
                lemma_jv_members_len(l@);
            }
            while i < n
                invariant
                    n == l@.len(),
                    jv_members(l@).len() == n,
                    i <= n,
                    out@ == old(out)@ + seq!['{'] + members_text(jv_members(l@), i as int),
                    *j == Json::Obj(*l),
                decreases n - i,
            {
                proof {
                    lemma_jv_members_index(l@, i as int);
                    assert(decreases_to!(*j => (*j)->Obj_0));
                    assert(decreases_to!(l@ => l@[i as int]));
                }
                if i > 0 {
                    out.push(',');
                }
                out.push('"');
                write_escaped(l[i].0.as_str(), out);
                out.push('"');
                out.push(':');
                write_json(&l[i].1, out);
                i = i + 1;
            }
            out.push('}');
        },
    }
}

/// Renders a value as its character sequence, per [`render`].
pub fn render_json(j: &Json) -> (out: String)
    ensures
        out@ == render(jv(*j)),
{
    let mut out = String::new();
    write_json(j, &mut out);
    out
}

// ---------------------------------------------------------------------------
// Parsing: the grammar, as a recursive-descent specification, and an
// executable parser proved to follow it exactly.
// ---------------------------------------------------------------------------
/// Whitespace accepted between tokens.
pub open spec fn is_ws(c: char) -> bool {
    c == ' ' || c == '\t' || c == '\n' || c == '\r'
}

pub open spec fn is_digit(c: char) -> bool {
    '0' <= c && c <= '9'
}

/// The first index at or after `i` holding no whitespace.
pub open spec fn sp_ws(s: Seq<char>, i: int) -> int
    decreases s.len() - i,
{
    if 0 <= i < s.len() && is_ws(s[i]) {
        sp_ws(s, i + 1)
    } else {
        i
    }
}

/// The first index at or after `i` holding no decimal digit.
pub open spec fn sp_digits(s: Seq<char>, i: int) -> int
    decreases s.len() - i,
{
    if 0 <= i < s.len() && is_digit(s[i]) {
        sp_digits(s, i + 1)
    } else {
        i
    }
}

/// The character an escape sequence `\c` stands for, if `c` is one of the
/// supported single-character escapes.
pub open spec fn esc_of(c: char) -> Option<char> {
    if c == '"' {
        Some('"')
    } else if c == '\\' {
        Some('\\')
    } else if c == '/' {
        Some('/')
    } else if c == 'n' {
        Some('\n')
    } else if c == 't' {
        Some('\t')
    } else if c == 'r' {
        Some('\r')
    } else if c == 'b' {
        Some('\u{0008}')
    } else if c == 'f' {
        Some('\u{000C}')
    } else {
        None
    }
}

/// The value of one hexadecimal digit character.
pub open spec fn hex_val(c: char) -> Option<int> {
    if '0' <= c && c <= '9' {
        Some(c as int - '0' as int)
    } else if 'a' <= c && c <= 'f' {
        Some(c as int - 'a' as int + 10)
    } else if 'A' <= c && c <= 'F' {
        Some(c as int - 'A' as int + 10)
    } else {
        None
    }
}

/// The value of the four hexadecimal digits at `i`.
pub open spec fn hex4(s: Seq<char>, i: int) -> Option<int> {
    if i + 4 <= s.len() && hex_val(s[i]) is Some && hex_val(s[i + 1]) is Some && hex_val(
        s[i + 2],
    ) is Some && hex_val(s[i + 3]) is Some {
        Some(
            hex_val(s[i]).unwrap() * 0x1000 + hex_val(s[i + 1]).unwrap() * 0x100 + hex_val(
                s[i + 2],
            ).unwrap() * 16 + hex_val(s[i + 3]).unwrap(),
        )
    } else {
        None
    }
}

/// Relies on `char::from_u32` of std: `Some` of the converted value exactly
/// when it lies below the surrogate range or between that range and the
/// greatest code point.
pub assume_specification[ char::from_u32 ](v: u32) -> (r: Option<char>)
    ensures
        (r is Some) == (v < 0xD800 || (0xE000 <= v && v <= 0x10FFFF)),
        r is Some ==> r.unwrap() == v as char,
;

/// Parses the body of a string literal from `i` (just after the opening
/// quote); returns the accumulated content and the index after the closing
/// quote. A raw control character is refused; an escape is one of the
/// single-character forms or `\uXXXX`, a high surrogate there standing only
/// together with the low surrogate that follows it.
pub open spec fn sp_string_body(s: Seq<char>, i: int, acc: Seq<char>) -> Option<(Seq<char>, int)>
    decreases s.len() - i,
{
    if !(0 <= i < s.len()) {
        None
    } else if s[i] == '"' {
        Some((acc, i + 1))
    } else if s[i] == '\\' {
        if i + 1 < s.len() {
            if s[i + 1] == 'u' {
                match hex4(s, i + 2) {
                    Some(v) => {
                        if 0xD800 <= v && v <= 0xDBFF {
                            if i + 12 <= s.len() && s[i + 6] == '\\' && s[i + 7] == 'u' {
                                match hex4(s, i + 8) {
                                    Some(w) => {
                                        if 0xDC00 <= w && w <= 0xDFFF {
                                            let cp = 0x10000 + (v - 0xD800) * 0x400 + (w - 0xDC00);
                                            sp_string_body(s, i + 12, acc.push(cp as char))
                                        } else {
                                            None
                                        }
                                    },
                                    None => None,
                                }
                            } else {
                                None
                            }
                        } else if 0xDC00 <= v && v <= 0xDFFF {
                            None
                        } else {
                            sp_string_body(s, i + 6, acc.push(v as char))
                        }
                    },
                    None => None,
                }
            } else {
                match esc_of(s[i + 1]) {
                    Some(c) => sp_string_body(s, i + 2, acc.push(c)),
                    None => None,
                }
            }
        } else {
            None
        }
    } else if is_control(s[i]) {
        None
    } else {
        sp_string_body(s, i + 1, acc.push(s[i]))
    }
}

/// Parses a number token from `i`: an optional minus sign, digits, then an
/// optional fraction and exponent, each taken only when well formed. Returns
/// the raw token text and the index after it.
pub open spec fn sp_number(s: Seq<char>, i: int) -> Option<(Seq<char>, int)> {
    if !(0 <= i < s.len()) {
        None
    } else {
        let p = if s[i] == '-' {
            i + 1
        } else {
            i
        };
        let d0 = sp_digits(s, p);
        if d0 == p {
            None
        } else {
            let de = if s[p] == '0' {
                p + 1
            } else {
                d0
            };
            let e1 = if de < s.len() && s[de] == '.' {
                let fe = sp_digits(s, de + 1);
                if fe == de + 1 {
                    de
                } else {
                    fe
                }
            } else {
                de
            };
            let e2 = if e1 < s.len() && (s[e1] == 'e' || s[e1] == 'E') {
                let sp = if e1 + 1 < s.len() && (s[e1 + 1] == '+' || s[e1 + 1] == '-') {
                    e1 + 2
                } else {
                    e1 + 1
                };
                let ee = sp_digits(s, sp);
                if ee == sp {
                    e1
                } else {
                    ee
                }
            } else {
                e1
            };
            if i < e2 <= s.len() {
                Some((s.subrange(i, e2), e2))
            } else {
                None
            }
        }
    }
}

/// Parses one value starting exactly at `i`. The depth budget `d` shrinks at
/// each nesting level; since a level consumes at least one character before
/// descending, a budget of `s.len()` never runs out on parseable input.
pub open spec fn sp_value(s: Seq<char>, i: int, d: nat) -> Option<(JsonV, int)>
    decreases d, s.len() - i, 0int,
{
    if !(0 <= i < s.len()) {
        None
    } else {
        let c = s[i];
        if c == 'n' {
            if i + 4 <= s.len() && s[i + 1] == 'u' && s[i + 2] == 'l' && s[i + 3] == 'l' {
                Some((JsonV::Null, i + 4))
            } else {
                None
            }
        } else if c == 't' {
            if i + 4 <= s.len() && s[i + 1] == 'r' && s[i + 2] == 'u' && s[i + 3] == 'e' {
                Some((JsonV::Bool(true), i + 4))
            } else {
                None
            }
        } else if c == 'f' {
            if i + 5 <= s.len() && s[i + 1] == 'a' && s[i + 2] == 'l' && s[i + 3] == 's' && s[i + 4]
                == 'e' {
                Some((JsonV::Bool(false), i + 5))
            } else {
                None
            }
        } else if c == '"' {
            match sp_string_body(s, i + 1, Seq::empty()) {
                Some((cs, k)) => Some((JsonV::Str(cs), k)),
                None => None,
            }
        } else if c == '-' || is_digit(c) {
            match sp_number(s, i) {
                Some((t, k)) => Some((JsonV::Num(t), k)),
                None => None,
            }
        } else if c == '[' {
            if d == 0 {
                None
            } else {
                let j = sp_ws(s, i + 1);
                if !(i < j <= s.len()) {
                    None
                } else if j < s.len() && s[j] == ']' {
                    Some((JsonV::Arr(Seq::empty()), j + 1))
                } else {
                    match sp_elems(s, j, (d - 1) as nat, Seq::empty()) {
                        Some((l, k)) => Some((JsonV::Arr(l), k)),
                        None => None,
                    }
                }
            }
        } else if c == '{' {
            if d == 0 {
                None
            } else {
                let j = sp_ws(s, i + 1);
                if !(i < j <= s.len()) {
                    None
                } else if j < s.len() && s[j] == '}' {
                    Some((JsonV::Obj(Seq::empty()), j + 1))
                } else {
                    match sp_members(s, j, (d - 1) as nat, Seq::empty()) {
                        Some((l, k)) => Some((JsonV::Obj(l), k)),
                        None => None,
                    }
                }
            }
        } else {
            None
        }
    }
}

/// Parses the elements of an array from the start of its first remaining
/// element, `acc` holding the elements already read.
pub open spec fn sp_elems(s: Seq<char>, i: int, d: nat, acc: Seq<JsonV>) -> Option<
    (Seq<JsonV>, int),
>
    decreases d, s.len() - i, 1int,
{
    match sp_value(s, i, d) {
        Some((v, k)) => {
            if !(i < k <= s.len()) {
                None
            } else {
                let j = sp_ws(s, k);
                if j < s.len() && s[j] == ',' {
                    let j2 = sp_ws(s, j + 1);
                    if !(i < j2 <= s.len()) {
                        None
                    } else {
                        sp_elems(s, j2, d, acc.push(v))
                    }
                } else if j < s.len() && s[j] == ']' {
                    Some((acc.push(v), j + 1))
                } else {
                    None
                }
            }
        },
        None => None,
    }
}

/// Parses the members of an object from the start of its first remaining
/// member, `acc` holding the members already read.
pub open spec fn sp_members(s: Seq<char>, i: int, d: nat, acc: Seq<(Seq<char>, JsonV)>) -> Option<
    (Seq<(Seq<char>, JsonV)>, int),
>
    decreases d, s.len() - i, 1int,
{
    if !(0 <= i < s.len()) {
        None
    } else if s[i] != '"' {
        None
    } else {
        match sp_string_body(s, i + 1, Seq::empty()) {
            Some((key, k)) => {
                if !(i < k <= s.len()) {
                    None
                } else {
                    let j = sp_ws(s, k);
                    if j < s.len() && s[j] == ':' {
                        let j2 = sp_ws(s, j + 1);
                        if !(i <= j2 <= s.len()) {
                            None
                        } else {
                            match sp_value(s, j2, d) {
                                Some((v, k2)) => {
                                    if !(i < k2 <= s.len()) {
                                        None
                                    } else {
                                        let j3 = sp_ws(s, k2);
                                        if j3 < s.len() && s[j3] == ',' {
                                            let j4 = sp_ws(s, j3 + 1);
                                            if !(i < j4 <= s.len()) {
                                                None
                                            } else {
                                                sp_members(s, j4, d, acc.push((key, v)))
                                            }
                                        } else if j3 < s.len() && s[j3] == '}' {
                                            Some((acc.push((key, v)), j3 + 1))
                                        } else {
                                            None
                                        }
                                    }
                                },
                                None => None,
                            }
                        }
                    } else {
                        None
                    }
                }
            },
            None => None,
        }
    }
}

/// The value a whole document denotes: one value, surrounded only by
/// whitespace.
pub open spec fn sp_json(s: Seq<char>) -> Option<JsonV> {
    let i = sp_ws(s, 0);
    match sp_value(s, i, s.len()) {
        Some((v, k)) => {
            if 0 <= k <= s.len() && sp_ws(s, k) == s.len() {
                Some(v)
            } else {
                None
            }
        },
        None => None,
    }
}

fn x_ws(s: &str, n: usize, i: usize) -> (j: usize)
    requires
        n == s@.len(),
        i <= n,
    ensures
        j as int == sp_ws(s@, i as int),
        i <= j <= n,
{
    let mut j = i;
    let mut stop = false;
    while !stop && j < n
        invariant
            n == s@.len(),
            i <= j <= n,
            !stop ==> sp_ws(s@, i as int) == sp_ws(s@, j as int),
            stop ==> sp_ws(s@, i as int) == j as int,
        decreases n - j + (if stop {
            0int
        } else {
            1int
        }),
    {
        let c = s.get_char(j);
        if c == ' ' || c == '\t' || c == '\n' || c == '\r' {
            j = j + 1;
        } else {
            stop = true;
        }
    }
    j
}

fn x_digits(s: &str, n: usize, i: usize) -> (j: usize)
    requires
        n == s@.len(),
        i <= n,
    ensures
        j as int == sp_digits(s@, i as int),
        i <= j <= n,
{
    let mut j = i;
    let mut stop = false;
    while !stop && j < n
        invariant
            n == s@.len(),
            i <= j <= n,
            !stop ==> sp_digits(s@, i as int) == sp_digits(s@, j as int),
            stop ==> sp_digits(s@, i as int) == j as int,
        decreases n - j + (if stop {
            0int
        } else {
            1int
        }),
    {
        let c = s.get_char(j);
        if '0' <= c && c <= '9' {
            j = j + 1;
        } else {
            stop = true;
        }
    }
    j
}

fn hex_char_val(c: char) -> (r: Option<u32>)
    ensures
        match r {
            Some(x) => hex_val(c) == Some(x as int) && x < 16,
            None => hex_val(c) is None,
        },
{
    if '0' <= c && c <= '9' {
        Some(c as u32 - 48)
    } else if 'a' <= c && c <= 'f' {
        Some(c as u32 - 87)
    } else if 'A' <= c && c <= 'F' {
        Some(c as u32 - 55)
    } else {
        None
    }
}

fn x_hex4(s: &str, n: usize, i: usize) -> (r: Option<u32>)
    requires
        n == s@.len(),
        i <= n,
    ensures
        match r {
            Some(v) => hex4(s@, i as int) == Some(v as int) && v < 0x10000,
            None => hex4(s@, i as int) is None,
        },
{
    if n - i < 4 {
        return None;
    }
    let h0 = match hex_char_val(s.get_char(i)) {
        Some(x) => x,
        None => {
            return None;
        },
    };
    let h1 = match hex_char_val(s.get_char(i + 1)) {
        Some(x) => x,
        None => {
            return None;
        },
    };
    let h2 = match hex_char_val(s.get_char(i + 2)) {
        Some(x) => x,
        None => {
            return None;
        },
    };
    let h3 = match hex_char_val(s.get_char(i + 3)) {
        Some(x) => x,
        None => {
            return None;
        },
    };
    Some(h0 * 0x1000 + h1 * 0x100 + h2 * 16 + h3)
}

fn x_string_body(s: &str, n: usize, i: usize) -> (r: Option<(String, usize)>)
    requires
        n == s@.len(),
        i <= n,
    ensures
        match r {
            Some(ck) => sp_string_body(s@, i as int, Seq::empty()) == Some((ck.0@, ck.1 as int))
                && i < ck.1 <= n,
            None => sp_string_body(s@, i as int, Seq::empty()) is None,
        },
{
    let mut out = String::new();
    let mut p = i;
    loop
        invariant
            n == s@.len(),
            i <= p <= n,
            sp_string_body(s@, i as int, Seq::empty()) == sp_string_body(s@, p as int, out@),
        decreases n - p,
    {
        if p >= n {
            return None;
        }
        let c = s.get_char(p);
        if c == '"' {
            return Some((out, p + 1));
        }
        if c == '\\' {
            if p + 1 >= n {
                return None;
            }
            let e = s.get_char(p + 1);
            if e == 'u' {
                let v = match x_hex4(s, n, p + 2) {
                    Some(v) => v,
                    None => {
                        return None;
                    },
                };
                if 0xD800 <= v && v <= 0xDBFF {
                    if n - p >= 12 && s.get_char(p + 6) == '\\' && s.get_char(p + 7) == 'u' {
                        let w = match x_hex4(s, n, p + 8) {
                            Some(w) => w,
                            None => {
                                return None;
                            },
                        };
                        if 0xDC00 <= w && w <= 0xDFFF {
                            let cp = 0x10000 + (v - 0xD800) * 0x400 + (w - 0xDC00);
                            match char::from_u32(cp) {
                                Some(ch) => {
                                    out.push(ch);
                                },
                                None => {
                                    return None;
                                },
                            }
                            p = p + 12;
                        } else {
                            return None;
                        }
                    } else {
                        return None;
                    }
                } else if 0xDC00 <= v && v <= 0xDFFF {
                    return None;
                } else {
                    match char::from_u32(v) {
                        Some(ch) => {
                            out.push(ch);
                        },
                        None => {
                            return None;
                        },
                    }
                    p = p + 6;
                }
            } else {
                if e == '"' {
                    out.push('"');
                } else if e == '\\' {
                    out.push('\\');
                } else if e == '/' {
                    out.push('/');
                } else if e == 'n' {
                    out.push('\n');
                } else if e == 't' {
                    out.push('\t');
                } else if e == 'r' {
                    out.push('\r');
                } else if e == 'b' {
                    out.push('\u{0008}');
                } else if e == 'f' {
                    out.push('\u{000C}');
                } else {
                    return None;
                }
                p = p + 2;
            }
        } else {
            if (c as u32) < 0x20 {
                return None;
            }
            out.push(c);
            p = p + 1;
        }
    }
}

fn x_number(s: &str, n: usize, i: usize) -> (r: Option<(String, usize)>)
    requires
        n == s@.len(),
        i < n,
    ensures
        match r {
            Some(tk) => sp_number(s@, i as int) == Some((tk.0@, tk.1 as int)) && i < tk.1 <= n,
            None => sp_number(s@, i as int) is None,
        },
{
    let p = if s.get_char(i) == '-' {
        i + 1
    } else {
        i
    };
    let d0 = x_digits(s, n, p);
    if d0 == p {
        return None;
    }
    let de = if s.get_char(p) == '0' {
        p + 1
    } else {
        d0
    };
    let mut e1 = de;
    if de < n {
        if s.get_char(de) == '.' {
            let fe = x_digits(s, n, de + 1);
            if fe != de + 1 {
                e1 = fe;
            }
        }
    }
    let mut e2 = e1;
    if e1 < n {
        let c = s.get_char(e1);
        if c == 'e' || c == 'E' {
            let sp = if e1 + 1 < n && (s.get_char(e1 + 1) == '+' || s.get_char(e1 + 1) == '-') {
                e1 + 2
            } else {
                e1 + 1
            };
            let ee = x_digits(s, n, sp);
            if ee != sp {
                e2 = ee;
            }
        }
    }
    let t = s.substring_char(i, e2);
    Some((String::from_str(t), e2))
}

fn x_value(s: &str, n: usize, i: usize, d: usize) -> (r: Option<(Json, usize)>)
    requires
        n == s@.len(),
        i <= n,
    ensures
        match r {
            Some(jk) => sp_value(s@, i as int, d as nat) == Some((jv(jk.0), jk.1 as int)) && i
                < jk.1 <= n,
            None => sp_value(s@, i as int, d as nat) is None,
        },
    decreases d, n - i, 0int,
{
    if i >= n {
        return None;
    }
    let c = s.get_char(i);
    if c == 'n' {
        if n - i >= 4 && s.get_char(i + 1) == 'u' && s.get_char(i + 2) == 'l' && s.get_char(i + 3)
            == 'l' {
            Some((Json::Null, i + 4))
        } else {
            None
        }
    } else if c == 't' {
        if n - i >= 4 && s.get_char(i + 1) == 'r' && s.get_char(i + 2) == 'u' && s.get_char(i + 3)
            == 'e' {
            Some((Json::Bool(true), i + 4))
        } else {
            None
        }
    } else if c == 'f' {
        if n - i >= 5 && s.get_char(i + 1) == 'a' && s.get_char(i + 2) == 'l' && s.get_char(i + 3)
            == 's' && s.get_char(i + 4) == 'e' {
            Some((Json::Bool(false), i + 5))
        } else {
            None
        }
    } else if c == '"' {
        match x_string_body(s, n, i + 1) {
            Some((cs, k)) => Some((Json::Str(cs), k)),
            None => None,
        }
    } else if c == '-' || ('0' <= c && c <= '9') {
        match x_number(s, n, i) {
            Some((t, k)) => Some((Json::Num(t), k)),
            None => None,
        }
    } else if c == '[' {
        if d == 0 {
            return None;
        }
        let j = x_ws(s, n, i + 1);
        if j < n && s.get_char(j) == ']' {
            let l: Vec<Json> = Vec::new();
            return Some((Json::Arr(l), j + 1));
        }
        match x_elems(s, n, j, d - 1, Vec::new()) {
            Some((l, k)) => Some((Json::Arr(l), k)),
            None => None,
        }
    } else if c == '{' {
        if d == 0 {
            return None;
        }
        let j = x_ws(s, n, i + 1);
        if j < n && s.get_char(j) == '}' {
            let l: Vec<(String, Json)> = Vec::new();
            return Some((Json::Obj(l), j + 1));
        }
        match x_members(s, n, j, d - 1, Vec::new()) {
            Some((l, k)) => Some((Json::Obj(l), k)),
            None => None,
        }
    } else {
        None
    }
}

fn x_elems(s: &str, n: usize, i: usize, d: usize, acc: Vec<Json>) -> (r: Option<(Vec<Json>, usize)>)
    requires
        n == s@.len(),
        i <= n,
    ensures
        match r {
            Some(lk) => sp_elems(s@, i as int, d as nat, jv_list(acc@)) == Some(
                (jv_list(lk.0@), lk.1 as int),
            ) && i < lk.1 <= n,
            None => sp_elems(s@, i as int, d as nat, jv_list(acc@)) is None,
        },
    decreases d, n - i, 1int,
{
    match x_value(s, n, i, d) {
        Some((v, k)) => {
            let j = x_ws(s, n, k);
            if j < n && s.get_char(j) == ',' {
                let j2 = x_ws(s, n, j + 1);
                let mut list = acc;
                proof {
                    assert(list@.push(v) =~= acc@.push(v));
                    lemma_jv_list_push(acc@, v);
                }
                list.push(v);
                x_elems(s, n, j2, d, list)
            } else if j < n && s.get_char(j) == ']' {
                let mut list = acc;
                proof {
                    lemma_jv_list_push(acc@, v);
                }
                list.push(v);
                Some((list, j + 1))
            } else {
                None
            }
        },
        None => None,
    }
}

fn x_members(s: &str, n: usize, i: usize, d: usize, acc: Vec<(String, Json)>) -> (r: Option<
    (Vec<(String, Json)>, usize),
>)
    requires
        n == s@.len(),
        i <= n,
    ensures
        match r {
            Some(lk) => sp_members(s@, i as int, d as nat, jv_members(acc@)) == Some(
                (jv_members(lk.0@), lk.1 as int),
            ) && i < lk.1 <= n,
            None => sp_members(s@, i as int, d as nat, jv_members(acc@)) is None,
        },
    decreases d, n - i, 1int,
{
    if i >= n {
        return None;
    }
    if s.get_char(i) != '"' {
        return None;
    }
    match x_string_body(s, n, i + 1) {
        Some((key, k)) => {
            let j = x_ws(s, n, k);
            if j < n && s.get_char(j) == ':' {
                let j2 = x_ws(s, n, j + 1);
                match x_value(s, n, j2, d) {
                    Some((v, k2)) => {
                        let j3 = x_ws(s, n, k2);
                        if j3 < n && s.get_char(j3) == ',' {
                            let j4 = x_ws(s, n, j3 + 1);
                            let mut list = acc;
                            proof {
                                lemma_jv_members_push(acc@, key, v);
                            }
                            list.push((key, v));
                            x_members(s, n, j4, d, list)
                        } else if j3 < n && s.get_char(j3) == '}' {
                            let mut list = acc;
                            proof {
                                lemma_jv_members_push(acc@, key, v);
                            }
                            list.push((key, v));
                            Some((list, j3 + 1))
                        } else {
                            None
                        }
                    },
                    None => None,
                }
            } else {
                None
            }
        },
        None => None,
    }
}

pub proof fn lemma_jv_list_push(l: Seq<Json>, x: Json)
    ensures
        jv_list(l.push(x)) == jv_list(l).push(jv(x)),
{
    assert(l.push(x).drop_last() =~= l);
    assert(l.push(x).last() == x);
}

pub proof fn lemma_jv_members_push(l: Seq<(String, Json)>, key: String, x: Json)
    ensures
        jv_members(l.push((key, x))) == jv_members(l).push((key@, jv(x))),
{
    assert(l.push((key, x)).drop_last() =~= l);
    assert(l.push((key, x)).last() == (key, x));
}

/// Parses a whole document, per [`sp_json`].
pub fn parse_json(s: &str) -> (r: Option<Json>)
    ensures
        match r {
            Some(j) => sp_json(s@) == Some(jv(j)),
            None => sp_json(s@) is None,
        },
{
    let n = s.unicode_len();
    let i = x_ws(s, n, 0);
    match x_value(s, n, i, n) {
        Some((j, k)) => {
            let e = x_ws(s, n, k);
            if e == n {
                Some(j)
            } else {
                None
            }
        },
        None => None,
    }
}

// ---------------------------------------------------------------------------
// Reading values out of a parsed document.
// ---------------------------------------------------------------------------
/// The value under `key` in an object's member list; the first match wins.
pub open spec fn obj_get(ms: Seq<(Seq<char>, JsonV)>, key: Seq<char>) -> Option<JsonV>
    decreases ms.len(),
{
    if ms.len() == 0 {
        None
    } else if ms[0].0 == key {
        Some(ms[0].1)
    } else {
        obj_get(ms.drop_first(), key)
    }
}

/// Character-for-character string comparison.
pub fn eq_str(a: &str, b: &str) -> (r: bool)
    ensures
        r == (a@ == b@),
{
    let na = a.unicode_len();
    let nb = b.unicode_len();
    if na != nb {
        return false;
    }
    let mut i: usize = 0;
    while i < na
        invariant
            na == a@.len(),
            na == b@.len(),
            i <= na,
            forall|k: int| 0 <= k < i ==> a@[k] == b@[k],
        decreases na - i,
    {
        if s_ne(a, b, i) {
            return false;
        }
        i = i + 1;
    }
    proof {
        assert(a@ =~= b@);
    }
    true
}

fn s_ne(a: &str, b: &str, i: usize) -> (r: bool)
    requires
        i < a@.len(),
        i < b@.len(),
    ensures
        r == (a@[i as int] != b@[i as int]),
{
    a.get_char(i) != b.get_char(i)
}

/// Finds the member named `key`, per [`obj_get`].
pub fn obj_field<'a>(members: &'a Vec<(String, Json)>, key: &str) -> (r: Option<&'a Json>)
    ensures
        match r {
            Some(j) => obj_get(jv_members(members@), key@) == Some(jv(*j)),
            None => obj_get(jv_members(members@), key@) is None,
        },
{
    let n = members.len();
    let mut i: usize = 0;
    proof {
        lemma_jv_members_len(members@);
        assert(jv_members(members@).skip(0) =~= jv_members(members@));
    }
    while i < n
        invariant
            n == members@.len(),
            jv_members(members@).len() == n,
            i <= n,
            obj_get(jv_members(members@), key@) == obj_get(
                jv_members(members@).skip(i as int),
                key@,
            ),
        decreases n - i,
    {
        proof {
            lemma_jv_members_index(members@, i as int);
            assert(jv_members(members@).skip(i as int)[0] == jv_members(members@)[i as int]);
            assert(jv_members(members@).skip(i as int).drop_first() =~= jv_members(
                members@,
            ).skip(i + 1));
        }
        if eq_str(members[i].0.as_str(), key) {
            return Some(&members[i].1);
        }
        i = i + 1;
    }
    proof {
        assert(jv_members(members@).skip(n as int) =~= Seq::<(Seq<char>, JsonV)>::empty());
    }
    None
}

/// The value of an all-digit text read as a decimal number.
pub open spec fn dec_val(s: Seq<char>) -> int
    decreases s.len(),
{
    if s.len() == 0 {
        0
    } else {
        dec_val(s.drop_last()) * 10 + (s.last() as int - '0' as int)
    }
}

pub open spec fn all_digits(s: Seq<char>) -> bool {
    forall|k: int| 0 <= k < s.len() ==> is_digit(#[trigger] s[k])
}

/// The integer a number token denotes, when it is a plain integer: an
/// optional minus sign and digits, no fraction or exponent.
pub open spec fn num_int(t: Seq<char>) -> Option<int> {
    if t.len() > 0 && all_digits(t) {
        Some(dec_val(t))
    } else if t.len() > 1 && t[0] == '-' && all_digits(t.skip(1)) {
        Some(-dec_val(t.skip(1)))
    } else {
        None
    }
}

/// The integer token a number denotes, read out as an `i64`. `None` exactly
/// when the token is no plain integer or its value lies outside
/// `[-i64::MAX, i64::MAX]`.
pub fn parse_int_text(t: &str) -> (r: Option<i64>)
    ensures
        match r {
            Some(x) => num_int(t@) == Some(x as int),
            None => num_int(t@) is None || (num_int(t@) matches Some(v) && (v > i64::MAX || v < -(
            i64::MAX as int))),
        },
{
    let n = t.unicode_len();
    if n == 0 {
        return None;
    }
    let neg = t.get_char(0) == '-';
    let start: usize = if neg {
        1
    } else {
        0
    };
    if start >= n {
        return None;
    }
    let ghost body = if neg {
        t@.skip(1)
    } else {
        t@
    };
    proof {
        assert(body =~= t@.subrange(start as int, n as int));
    }
    let mut i = start;
    let mut val: i64 = 0;
    let mut over = false;
    while i < n
        invariant
            n == t@.len(),
            start <= i <= n,
            neg == (t@[0] == '-'),
            start == (if neg {
                1int
            } else {
                0int
            }),
            start < n,
            body == t@.subrange(start as int, n as int),
            all_digits(t@.subrange(start as int, i as int)),
            !over ==> 0 <= val && val as int == dec_val(t@.subrange(start as int, i as int)),
            over ==> dec_val(t@.subrange(start as int, i as int)) > i64::MAX,
        decreases n - i,
    {
        let c = t.get_char(i);
        if !('0' <= c && c <= '9') {
            proof {
                assert(!is_digit(t@[i as int]));
                if neg {
                    assert(!is_digit('-'));
                    assert(t@.skip(1)[i - 1] == t@[i as int]);
                    assert(!all_digits(t@.skip(1)));
                    assert(!is_digit(t@[0]));
                    assert(!all_digits(t@));
                } else {
                    assert(!all_digits(t@));
                    assert(t@[0] != '-');
                }
            }
            return None;
        }
        let d = (c as u32 - 48) as i64;
        let ghost pre = t@.subrange(start as int, i as int);
        let ghost post = t@.subrange(start as int, i + 1int);
        proof {
            assert(post.drop_last() =~= pre);
            assert(post.last() == t@[i as int]);
            assert(dec_val(post) == dec_val(pre) * 10 + (t@[i as int] as int - '0' as int));
            assert(all_digits(post)) by {
                assert(forall|k: int| 0 <= k < pre.len() ==> post[k] == #[trigger] pre[k]);
            }
        }
        if !over {
            if val > (i64::MAX - d) / 10 {
                over = true;
                proof {
                    let m = i64::MAX as int;
                    assert(10 * ((m - d as int) / 10) >= m - d - 9) by (nonlinear_arith)
                        requires 0 <= d <= 9 && m >= 0;
                    assert(10 * (val as int) >= 10 * ((m - d as int) / 10 + 1)) by (nonlinear_arith)
                        requires val as int > (m - d as int) / 10;
                    assert(dec_val(post) > m);
                }
            } else {
                val = val * 10 + d;
            }
        } else {
            proof {
                assert(dec_val(pre) * 10 > i64::MAX * 10) by (nonlinear_arith)
                    requires dec_val(pre) > i64::MAX && i64::MAX >= 0;
                assert(dec_val(post) > i64::MAX);
            }
        }
        i = i + 1;
    }
    proof {
        assert(t@.subrange(start as int, n as int) == body);
        if neg {
            assert(!is_digit('-'));
            assert(!all_digits(t@));
        }
    }
    if over {
        return None;
    }
    if neg {
        Some(-val)
    } else {
        Some(val)
    }
}

/// The plain-integer value of a JSON value, when it is a number token with
/// one.
pub open spec fn jv_int(v: JsonV) -> Option<int> {
    match v {
        JsonV::Num(t) => num_int(t),
        _ => None,
    }
}

/// Reads a value as an integer, per [`jv_int`]; `None` also when the value
/// lies outside `[-i64::MAX, i64::MAX]`.
pub fn json_int(v: &Json) -> (r: Option<i64>)
    ensures
        match r {
            Some(x) => jv_int(jv(*v)) == Some(x as int),
            None => jv_int(jv(*v)) is None || (jv_int(jv(*v)) matches Some(x) && (x > i64::MAX
                || x < -(i64::MAX as int))),
        },
{
    match v {
        Json::Num(t) => parse_int_text(t.as_str()),
        _ => None,
    }
}

} // verus!
