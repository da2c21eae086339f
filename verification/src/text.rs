//! The character-level JSON codec, and the whole-pipeline entry points on
//! [`Policy`]: text to validated policy, policy to compact text.
//!
//! The grammar is JSON: strings take the shorthand escapes and the
//! `\uXXXX` escape (with surrogate pairs combined, and lone surrogates a
//! syntax error), and characters other than `"` and `\` also stand for
//! themselves inside strings.  The renderer emits compact text (no added
//! whitespace), uses the shorthand escapes, and writes the remaining
//! control characters as `\uXXXX`.
//!
//! The parser threads an explicit depth budget, spent on every recursive
//! step; the entry point sizes the budget from the input length so that it
//! never runs out on real input, and the budget is part of the stated
//! semantics, so every executable function still mirrors its spec function
//! exactly.

use vstd::prelude::*;
use crate::json::{JsonValue, SpecJson};
use crate::model::error::{JsonSyntaxError, PolicyError, SpecPolicyError, SyntaxErrorKind};
use crate::model::policy::{Policy, SpecPolicy};
use crate::codec::{parse_policy_value, policy_to_json, rvw, sp_parse_policy, sp_ser_policy};
use crate::strings::{char_from_code, chars_to_string, str_to_chars};

verus! {

// ---------------------------------------------------------------------
// Rendering.
// ---------------------------------------------------------------------

/// The character with the given code point.
pub open spec fn sp_char_of(code: u32) -> char {
    choose|c: char| (#[trigger] (c as u32)) == code
}

/// A character whose code point is `code` is the character `sp_char_of`
/// names for it.
proof fn lemma_char_of(code: u32, ch: char)
    requires
        ch as u32 == code,
    ensures
        sp_char_of(code) == ch,
{
    assert(exists|c: char| (#[trigger] (c as u32)) == code);
}

/// The lowercase hex digit of a value below sixteen.
pub open spec fn sp_hex_digit(n: u32) -> char {
    if n == 0 {
        '0'
    } else if n == 1 {
        '1'
    } else if n == 2 {
        '2'
    } else if n == 3 {
        '3'
    } else if n == 4 {
        '4'
    } else if n == 5 {
        '5'
    } else if n == 6 {
        '6'
    } else if n == 7 {
        '7'
    } else if n == 8 {
        '8'
    } else if n == 9 {
        '9'
    } else if n == 10 {
        'a'
    } else if n == 11 {
        'b'
    } else if n == 12 {
        'c'
    } else if n == 13 {
        'd'
    } else if n == 14 {
        'e'
    } else {
        'f'
    }
}

/// The value of a hex digit character, if it is one.
pub open spec fn sp_hex_val(c: char) -> Option<u32> {
    let u = c as u32;
    if 48 <= u && u <= 57 {
        Some((u - 48) as u32)
    } else if 97 <= u && u <= 102 {
        Some((u - 87) as u32)
    } else if 65 <= u && u <= 70 {
        Some((u - 55) as u32)
    } else {
        None
    }
}

/// The value of the four hex digits at `i`, if all four are there and are
/// hex digits.
pub open spec fn sp_hex4(s: Seq<char>, i: int) -> Option<u32> {
    if 0 <= i && i + 4 <= s.len() {
        match (sp_hex_val(s[i]), sp_hex_val(s[i + 1]), sp_hex_val(s[i + 2]), sp_hex_val(
            s[i + 3],
        )) {
            (Some(a), Some(b), Some(c), Some(d)) => Some(
                (a * 4096 + b * 256 + c * 16 + d) as u32,
            ),
            _ => None,
        }
    } else {
        None
    }
}

/// The escape sequence of one string character.
pub open spec fn sp_esc_char(c: char) -> Seq<char> {
    if c == '"' {
        seq!['\\', '"']
    } else if c == '\\' {
        seq!['\\', '\\']
    } else if c == '\n' {
        seq!['\\', 'n']
    } else if c == '\t' {
        seq!['\\', 't']
    } else if c == '\r' {
        seq!['\\', 'r']
    } else if c == '\u{0008}' {
        seq!['\\', 'b']
    } else if c == '\u{000C}' {
        seq!['\\', 'f']
    } else if (c as u32) < 0x20 {
        seq!['\\', 'u', '0', '0', sp_hex_digit((c as u32) / 16), sp_hex_digit((c as u32) % 16)]
    } else {
        seq![c]
    }
}

/// The escaped form of the first `n` characters of a string.
pub open spec fn sp_esc(s: Seq<char>, n: int) -> Seq<char>
    decreases n,
{
    if n <= 0 {
        Seq::empty()
    } else {
        sp_esc(s, n - 1) + sp_esc_char(s[n - 1])
    }
}

/// A rendered string token: quoted and escaped.
pub open spec fn sp_render_string(s: Seq<char>) -> Seq<char> {
    seq!['"'] + sp_esc(s, s.len() as int) + seq!['"']
}

/// The rendered text of a JSON value, compact.
pub open spec fn sp_render(v: SpecJson) -> Seq<char>
    decreases v, 0int,
{
    match v {
        SpecJson::Null => seq!['n', 'u', 'l', 'l'],
        SpecJson::Bool(b) => if b {
            seq!['t', 'r', 'u', 'e']
        } else {
            seq!['f', 'a', 'l', 's', 'e']
        },
        SpecJson::Num(s) => s,
        SpecJson::Str(s) => sp_render_string(s),
        SpecJson::Arr(es) => seq!['['] + sp_render_items(es, es.len() as int) + seq![']'],
        SpecJson::Obj(fs) => seq!['{'] + sp_render_members(fs, fs.len() as int) + seq!['}'],
    }
}

/// The rendered text of the first `n` array elements, comma-separated.
pub open spec fn sp_render_items(es: Seq<SpecJson>, n: int) -> Seq<char>
    decreases es, n,
{
    if n <= 0 || n > es.len() {
        Seq::empty()
    } else {
        sp_render_items(es, n - 1) + (if n == 1 {
            Seq::<char>::empty()
        } else {
            seq![',']
        }) + sp_render(es[n - 1])
    }
}

/// The rendered text of the first `n` object members, comma-separated.
pub open spec fn sp_render_members(fs: Seq<(Seq<char>, SpecJson)>, n: int) -> Seq<char>
    decreases fs, n,
{
    if n <= 0 || n > fs.len() {
        Seq::empty()
    } else {
        sp_render_members(fs, n - 1) + (if n == 1 {
            Seq::<char>::empty()
        } else {
            seq![',']
        }) + sp_render_string(fs[n - 1].0) + seq![':'] + sp_render(fs[n - 1].1)
    }
}

/// Decides `sp_hex_digit`.
fn hex_digit(n: u32) -> (c: char)
    requires
        n < 16,
    ensures
        c == sp_hex_digit(n),
{
    if n == 0 {
        '0'
    } else if n == 1 {
        '1'
    } else if n == 2 {
        '2'
    } else if n == 3 {
        '3'
    } else if n == 4 {
        '4'
    } else if n == 5 {
        '5'
    } else if n == 6 {
        '6'
    } else if n == 7 {
        '7'
    } else if n == 8 {
        '8'
    } else if n == 9 {
        '9'
    } else if n == 10 {
        'a'
    } else if n == 11 {
        'b'
    } else if n == 12 {
        'c'
    } else if n == 13 {
        'd'
    } else if n == 14 {
        'e'
    } else {
        'f'
    }
}

/// Appends the escaped, quoted form of a string.
fn render_string_into(s: &str, out: &mut Vec<char>)
    ensures
        final(out)@ == old(out)@ + sp_render_string(s@),
{
    let cs = str_to_chars(s);
    out.push('"');
    let ghost base = out@;
    let mut i: usize = 0;
    while i < cs.len()
        invariant
            0 <= i <= cs@.len(),
            cs@ == s@,
            out@ == base + sp_esc(s@, i as int),
        decreases cs@.len() - i,
    {
        let c = cs[i];
        if c == '"' {
            out.push('\\');
            out.push('"');
        } else if c == '\\' {
            out.push('\\');
            out.push('\\');
        } else if c == '\n' {
            out.push('\\');
            out.push('n');
        } else if c == '\t' {
            out.push('\\');
            out.push('t');
        } else if c == '\r' {
            out.push('\\');
            out.push('r');
        } else if c == '\u{0008}' {
            out.push('\\');
            out.push('b');
        } else if c == '\u{000C}' {
            out.push('\\');
            out.push('f');
        } else {
            let u = c as u32;
            if u < 0x20 {
                out.push('\\');
                out.push('u');
                out.push('0');
                out.push('0');
                out.push(hex_digit(u / 16));
                out.push(hex_digit(u % 16));
            } else {
                out.push(c);
            }
        }
        proof {
            assert(out@ =~= base + sp_esc(s@, i + 1 as int));
        }
        i = i + 1;
    }
    out.push('"');
    proof {
        assert(out@ =~= old(out)@ + sp_render_string(s@));
    }
}

/// Appends the rendered text of a JSON value.
fn render_into(v: &JsonValue, out: &mut Vec<char>)
    ensures
        final(out)@ == old(out)@ + sp_render(v@),
    decreases v,
{
    match v {
        JsonValue::Null => {
            out.push('n');
            out.push('u');
            out.push('l');
            out.push('l');
            proof {
                assert(out@ =~= old(out)@ + sp_render(v@));
            }
        },
        JsonValue::Bool(b) => {
            if *b {
                out.push('t');
                out.push('r');
                out.push('u');
                out.push('e');
            } else {
                out.push('f');
                out.push('a');
                out.push('l');
                out.push('s');
                out.push('e');
            }
            proof {
                assert(out@ =~= old(out)@ + sp_render(v@));
            }
        },
        JsonValue::Num(s) => {
            let cs = str_to_chars(s.as_str());
            let ghost base = out@;
            let mut i: usize = 0;
            while i < cs.len()
                invariant
                    0 <= i <= cs@.len(),
                    cs@ == s@,
                    out@ == base + s@.take(i as int),
                decreases cs@.len() - i,
            {
                out.push(cs[i]);
                proof {
                    assert(out@ =~= base + s@.take(i + 1 as int));
                }
                i = i + 1;
            }
            proof {
                assert(out@ =~= old(out)@ + sp_render(v@));
            }
        },
        JsonValue::Str(s) => {
            render_string_into(s.as_str(), out);
        },
        JsonValue::Arr(es) => {
            out.push('[');
            let ghost base = out@;
            proof {
                crate::json::lemma_view_list(es@);
                assert(out@ =~= base + sp_render_items(crate::json::spec_view_list(es@), 0int));
            }
            let mut i: usize = 0;
            while i < es.len()
                invariant
                    0 <= i <= es@.len(),
                    out@ == base + sp_render_items(crate::json::spec_view_list(es@), i as int),
                    crate::json::spec_view_list(es@).len() == es@.len(),
                    v@ == SpecJson::Arr(crate::json::spec_view_list(es@)),
                    v is Arr && v->Arr_0 == *es,
                decreases es@.len() - i,
            {
                proof {
                    crate::json::lemma_view_list(es@);
                }
                if i > 0 {
                    out.push(',');
                }
                proof {
                    assert(v->Arr_0 == *es);
                    assert(decreases_to!(*v => v->Arr_0));
                    assert(decreases_to!(*es => es@));
                    assert(decreases_to!(es@ => es@[i as int]));
                }
                render_into(&es[i], out);
                proof {
                    assert(out@ =~= base + sp_render_items(
                        crate::json::spec_view_list(es@),
                        i + 1 as int,
                    ));
                }
                i = i + 1;
            }
            out.push(']');
            proof {
                assert(out@ =~= old(out)@ + sp_render(v@));
            }
        },
        JsonValue::Obj(fs) => {
            out.push('{');
            let ghost base = out@;
            proof {
                crate::json::lemma_view_fields(fs@);
                assert(out@ =~= base + sp_render_members(
                    crate::json::spec_view_fields(fs@),
                    0int,
                ));
            }
            let mut i: usize = 0;
            while i < fs.len()
                invariant
                    0 <= i <= fs@.len(),
                    out@ == base + sp_render_members(
                        crate::json::spec_view_fields(fs@),
                        i as int,
                    ),
                    crate::json::spec_view_fields(fs@).len() == fs@.len(),
                    v@ == SpecJson::Obj(crate::json::spec_view_fields(fs@)),
                    v is Obj && v->Obj_0 == *fs,
                decreases fs@.len() - i,
            {
                proof {
                    crate::json::lemma_view_fields(fs@);
                }
                if i > 0 {
                    out.push(',');
                }
                render_string_into(fs[i].0.as_str(), out);
                out.push(':');
                proof {
                    assert(v->Obj_0 == *fs);
                    assert(decreases_to!(*v => v->Obj_0));
                    assert(decreases_to!(*fs => fs@));
                    assert(decreases_to!(fs@ => fs@[i as int]));
                    assert(decreases_to!(fs@[i as int] => fs@[i as int].1));
                }
                render_into(&fs[i].1, out);
                proof {
                    assert(out@ =~= base + sp_render_members(
                        crate::json::spec_view_fields(fs@),
                        i + 1 as int,
                    ));
                }
                i = i + 1;
            }
            out.push('}');
            proof {
                assert(out@ =~= old(out)@ + sp_render(v@));
            }
        },
    }
}

/// Renders a JSON value to compact text.
pub fn render_json(v: &JsonValue) -> (r: String)
    ensures
        r@ == sp_render(v@),
{
    let mut out: Vec<char> = Vec::new();
    render_into(v, &mut out);
    proof {
        assert(out@ =~= sp_render(v@));
    }
    chars_to_string(&out)
}

// ---------------------------------------------------------------------
// Parsing.
// ---------------------------------------------------------------------

/// JSON whitespace.
pub open spec fn is_ws(c: char) -> bool {
    c == ' ' || c == '\t' || c == '\n' || c == '\r'
}

/// A decimal digit.
pub open spec fn is_digit(c: char) -> bool {
    48 <= c as u32 && c as u32 <= 57
}

/// A character that may continue a (loosely lexed) number token.
pub open spec fn is_numch(c: char) -> bool {
    is_digit(c) || c == '-' || c == '+' || c == '.' || c == 'e' || c == 'E'
}

/// The first position at or after `i` holding no whitespace.
pub open spec fn sp_ws(s: Seq<char>, i: int) -> int
    decreases s.len() - i,
{
    if i < 0 || i >= s.len() {
        i
    } else if is_ws(s[i]) {
        sp_ws(s, i + 1)
    } else {
        i
    }
}

/// The first position at or after `i` that cannot continue a number token.
pub open spec fn sp_num_end(s: Seq<char>, i: int) -> int
    decreases s.len() - i,
{
    if i < 0 || i >= s.len() {
        i
    } else if is_numch(s[i]) {
        sp_num_end(s, i + 1)
    } else {
        i
    }
}

/// The character named by an escape letter, if the letter is supported.
pub open spec fn sp_unescape(c: char) -> Option<char> {
    if c == '"' {
        Some('"')
    } else if c == '\\' {
        Some('\\')
    } else if c == '/' {
        Some('/')
    } else if c == 'n' {
        Some('\n')
    } else if c == 't' {
        Some('\t')
    } else if c == 'r' {
        Some('\r')
    } else if c == 'b' {
        Some('\u{0008}')
    } else if c == 'f' {
        Some('\u{000C}')
    } else {
        None
    }
}

/// Scans a string token's body from `i` (just past the opening quote) to
/// its closing quote: the decoded characters and the position after.
pub open spec fn sp_scan_string(s: Seq<char>, i: int) -> Result<
    (Seq<char>, int),
    JsonSyntaxError,
>
    decreases s.len() - i,
{
    if i < 0 || i >= s.len() {
        Err(JsonSyntaxError { offset: s.len() as usize, kind: SyntaxErrorKind::UnexpectedEnd })
    } else if s[i] == '"' {
        Ok((Seq::empty(), i + 1))
    } else if s[i] == '\\' {
        if i + 1 >= s.len() {
            Err(
                JsonSyntaxError {
                    offset: s.len() as usize,
                    kind: SyntaxErrorKind::UnexpectedEnd,
                },
            )
        } else if s[i + 1] == 'u' {
            match sp_hex4(s, i + 2) {
                None => Err(
                    JsonSyntaxError { offset: i as usize, kind: SyntaxErrorKind::BadEscape },
                ),
                Some(h) => {
                    if h < 0xD800 || h > 0xDFFF {
                        match sp_scan_string(s, i + 6) {
                            Ok((rest, j)) => Ok((seq![sp_char_of(h)] + rest, j)),
                            Err(e) => Err(e),
                        }
                    } else if h <= 0xDBFF {
                        if s.len() - i >= 8 && s[i + 6] == '\\' && s[i + 7] == 'u' {
                            match sp_hex4(s, i + 8) {
                                None => Err(
                                    JsonSyntaxError {
                                        offset: i as usize,
                                        kind: SyntaxErrorKind::BadEscape,
                                    },
                                ),
                                Some(l) => {
                                    if 0xDC00 <= l && l <= 0xDFFF {
                                        let code = (0x10000 + (h - 0xD800) * 0x400 + (l
                                            - 0xDC00)) as u32;
                                        match sp_scan_string(s, i + 12) {
                                            Ok((rest, j)) => Ok(
                                                (seq![sp_char_of(code)] + rest, j),
                                            ),
                                            Err(e) => Err(e),
                                        }
                                    } else {
                                        Err(
                                            JsonSyntaxError {
                                                offset: i as usize,
                                                kind: SyntaxErrorKind::BadEscape,
                                            },
                                        )
                                    }
                                },
                            }
                        } else {
                            Err(
                                JsonSyntaxError {
                                    offset: i as usize,
                                    kind: SyntaxErrorKind::BadEscape,
                                },
                            )
                        }
                    } else {
                        Err(
                            JsonSyntaxError {
                                offset: i as usize,
                                kind: SyntaxErrorKind::BadEscape,
                            },
                        )
                    }
                },
            }
        } else {
            match sp_unescape(s[i + 1]) {
                None => Err(
                    JsonSyntaxError { offset: i as usize, kind: SyntaxErrorKind::BadEscape },
                ),
                Some(c) => match sp_scan_string(s, i + 2) {
                    Ok((rest, j)) => Ok((seq![c] + rest, j)),
                    Err(e) => Err(e),
                },
            }
        }
    } else {
        match sp_scan_string(s, i + 1) {
            Ok((rest, j)) => Ok((seq![s[i]] + rest, j)),
            Err(e) => Err(e),
        }
    }
}

/// Parses one JSON value at `i`, spending one unit of the depth budget `f`
/// on every recursive step.
pub open spec fn sp_parse_value(s: Seq<char>, i: int, f: int) -> Result<
    (SpecJson, int),
    JsonSyntaxError,
>
    decreases f,
{
    if f <= 0 {
        Err(JsonSyntaxError { offset: i as usize, kind: SyntaxErrorKind::TooDeep })
    } else if i < 0 || i >= s.len() {
        Err(JsonSyntaxError { offset: s.len() as usize, kind: SyntaxErrorKind::UnexpectedEnd })
    } else if s[i] == '"' {
        match sp_scan_string(s, i + 1) {
            Ok((t, j)) => Ok((SpecJson::Str(t), j)),
            Err(e) => Err(e),
        }
    } else if s[i] == '{' {
        match sp_parse_members_first(s, sp_ws(s, i + 1), f - 1) {
            Ok((fs, j)) => Ok((SpecJson::Obj(fs), j)),
            Err(e) => Err(e),
        }
    } else if s[i] == '[' {
        match sp_parse_elems_first(s, sp_ws(s, i + 1), f - 1) {
            Ok((es, j)) => Ok((SpecJson::Arr(es), j)),
            Err(e) => Err(e),
        }
    } else if s[i] == 't' {
        if s.len() - i >= 4 && s[i + 1] == 'r' && s[i + 2] == 'u' && s[i + 3] == 'e' {
            Ok((SpecJson::Bool(true), i + 4))
        } else {
            Err(JsonSyntaxError { offset: i as usize, kind: SyntaxErrorKind::UnexpectedCharacter })
        }
    } else if s[i] == 'f' {
        if s.len() - i >= 5 && s[i + 1] == 'a' && s[i + 2] == 'l' && s[i + 3] == 's' && s[i + 4]
            == 'e' {
            Ok((SpecJson::Bool(false), i + 5))
        } else {
            Err(JsonSyntaxError { offset: i as usize, kind: SyntaxErrorKind::UnexpectedCharacter })
        }
    } else if s[i] == 'n' {
        if s.len() - i >= 4 && s[i + 1] == 'u' && s[i + 2] == 'l' && s[i + 3] == 'l' {
            Ok((SpecJson::Null, i + 4))
        } else {
            Err(JsonSyntaxError { offset: i as usize, kind: SyntaxErrorKind::UnexpectedCharacter })
        }
    } else if is_digit(s[i]) || s[i] == '-' {
        let j = sp_num_end(s, i);
        Ok((SpecJson::Num(s.subrange(i, j)), j))
    } else {
        Err(JsonSyntaxError { offset: i as usize, kind: SyntaxErrorKind::UnexpectedCharacter })
    }
}

/// Parses an object body at `i` (just past `{` and whitespace): either the
/// closing brace, or the first member and the rest.
pub open spec fn sp_parse_members_first(s: Seq<char>, i: int, f: int) -> Result<
    (Seq<(Seq<char>, SpecJson)>, int),
    JsonSyntaxError,
>
    decreases f,
{
    if f <= 0 {
        Err(JsonSyntaxError { offset: i as usize, kind: SyntaxErrorKind::TooDeep })
    } else if i < 0 || i >= s.len() {
        Err(JsonSyntaxError { offset: s.len() as usize, kind: SyntaxErrorKind::UnexpectedEnd })
    } else if s[i] == '}' {
        Ok((Seq::empty(), i + 1))
    } else {
        sp_parse_member_pair(s, i, f - 1)
    }
}

/// Parses one `"key": value` member at `i` and then the rest of the body.
pub open spec fn sp_parse_member_pair(s: Seq<char>, i: int, f: int) -> Result<
    (Seq<(Seq<char>, SpecJson)>, int),
    JsonSyntaxError,
>
    decreases f,
{
    if f <= 0 {
        Err(JsonSyntaxError { offset: i as usize, kind: SyntaxErrorKind::TooDeep })
    } else if i < 0 || i >= s.len() {
        Err(JsonSyntaxError { offset: s.len() as usize, kind: SyntaxErrorKind::UnexpectedEnd })
    } else if s[i] != '"' {
        Err(JsonSyntaxError { offset: i as usize, kind: SyntaxErrorKind::UnexpectedCharacter })
    } else {
        match sp_scan_string(s, i + 1) {
            Err(e) => Err(e),
            Ok((key, j)) => {
                let j2 = sp_ws(s, j);
                if j2 >= s.len() {
                    Err(
                        JsonSyntaxError {
                            offset: s.len() as usize,
                            kind: SyntaxErrorKind::UnexpectedEnd,
                        },
                    )
                } else if s[j2] != ':' {
                    Err(
                        JsonSyntaxError {
                            offset: j2 as usize,
                            kind: SyntaxErrorKind::UnexpectedCharacter,
                        },
                    )
                } else {
                    match sp_parse_value(s, sp_ws(s, j2 + 1), f - 1) {
                        Err(e) => Err(e),
                        Ok((v, j3)) => match sp_parse_members_rest(s, sp_ws(s, j3), f - 1) {
                            Err(e) => Err(e),
                            Ok((rest, j4)) => Ok((seq![(key, v)] + rest, j4)),
                        },
                    }
                }
            },
        }
    }
}

/// After one member: either the closing brace or a comma and the next
/// member.
pub open spec fn sp_parse_members_rest(s: Seq<char>, i: int, f: int) -> Result<
    (Seq<(Seq<char>, SpecJson)>, int),
    JsonSyntaxError,
>
    decreases f,
{
    if f <= 0 {
        Err(JsonSyntaxError { offset: i as usize, kind: SyntaxErrorKind::TooDeep })
    } else if i < 0 || i >= s.len() {
        Err(JsonSyntaxError { offset: s.len() as usize, kind: SyntaxErrorKind::UnexpectedEnd })
    } else if s[i] == '}' {
        Ok((Seq::empty(), i + 1))
    } else if s[i] == ',' {
        sp_parse_member_pair(s, sp_ws(s, i + 1), f - 1)
    } else {
        Err(JsonSyntaxError { offset: i as usize, kind: SyntaxErrorKind::UnexpectedCharacter })
    }
}

/// Parses an array body at `i` (just past `[` and whitespace): either the
/// closing bracket, or the first element and the rest.
pub open spec fn sp_parse_elems_first(s: Seq<char>, i: int, f: int) -> Result<
    (Seq<SpecJson>, int),
    JsonSyntaxError,
>
    decreases f,
{
    if f <= 0 {
        Err(JsonSyntaxError { offset: i as usize, kind: SyntaxErrorKind::TooDeep })
    } else if i < 0 || i >= s.len() {
        Err(JsonSyntaxError { offset: s.len() as usize, kind: SyntaxErrorKind::UnexpectedEnd })
    } else if s[i] == ']' {
        Ok((Seq::empty(), i + 1))
    } else {
        match sp_parse_value(s, i, f - 1) {
            Err(e) => Err(e),
            Ok((v, j)) => match sp_parse_elems_rest(s, sp_ws(s, j), f - 1) {
                Err(e) => Err(e),
                Ok((rest, j2)) => Ok((seq![v] + rest, j2)),
            },
        }
    }
}

/// After one element: either the closing bracket or a comma and the next
/// element.
pub open spec fn sp_parse_elems_rest(s: Seq<char>, i: int, f: int) -> Result<
    (Seq<SpecJson>, int),
    JsonSyntaxError,
>
    decreases f,
{
    if f <= 0 {
        Err(JsonSyntaxError { offset: i as usize, kind: SyntaxErrorKind::TooDeep })
    } else if i < 0 || i >= s.len() {
        Err(JsonSyntaxError { offset: s.len() as usize, kind: SyntaxErrorKind::UnexpectedEnd })
    } else if s[i] == ']' {
        Ok((Seq::empty(), i + 1))
    } else if s[i] == ',' {
        let i2 = sp_ws(s, i + 1);
        match sp_parse_value(s, i2, f - 1) {
            Err(e) => Err(e),
            Ok((v, j)) => match sp_parse_elems_rest(s, sp_ws(s, j), f - 1) {
                Err(e) => Err(e),
                Ok((rest, j2)) => Ok((seq![v] + rest, j2)),
            },
        }
    } else {
        Err(JsonSyntaxError { offset: i as usize, kind: SyntaxErrorKind::UnexpectedCharacter })
    }
}

/// The depth budget the entry point grants: ample for any input of this
/// length, since along any chain of recursive steps at least one
/// character is consumed for every two units spent.
pub open spec fn sp_budget(s: Seq<char>) -> int {
    2 * (s.len() as int) + 8
}

/// Parses a whole JSON text: one value, with nothing but whitespace around
/// it.
pub open spec fn sp_parse_text(s: Seq<char>) -> Result<SpecJson, JsonSyntaxError> {
    match sp_parse_value(s, sp_ws(s, 0), sp_budget(s)) {
        Err(e) => Err(e),
        Ok((v, j)) => {
            let j2 = sp_ws(s, j);
            if j2 >= s.len() {
                Ok(v)
            } else {
                Err(
                    JsonSyntaxError {
                        offset: j2 as usize,
                        kind: SyntaxErrorKind::TrailingCharacters,
                    },
                )
            }
        },
    }
}

/// Decides `sp_ws`.
fn skip_ws(cs: &Vec<char>, i: usize) -> (r: usize)
    requires
        i <= cs@.len(),
    ensures
        r == sp_ws(cs@, i as int),
        i <= r <= cs@.len(),
    decreases cs@.len() - i,
{
    if i >= cs.len() {
        i
    } else {
        let c = cs[i];
        if c == ' ' || c == '\t' || c == '\n' || c == '\r' {
            skip_ws(cs, i + 1)
        } else {
            i
        }
    }
}

/// Decides `is_numch`.
fn check_numch(c: char) -> (r: bool)
    ensures
        r == is_numch(c),
{
    let u = c as u32;
    (48 <= u && u <= 57) || c == '-' || c == '+' || c == '.' || c == 'e' || c == 'E'
}

/// `sp_num_end` never moves backwards.
proof fn lemma_num_end_ge(s: Seq<char>, i: int)
    requires
        0 <= i <= s.len(),
    ensures
        sp_num_end(s, i) >= i,
    decreases s.len() - i,
{
    if i < s.len() && is_numch(s[i]) {
        lemma_num_end_ge(s, i + 1);
    }
}

/// Decides `sp_num_end`.
fn num_end(cs: &Vec<char>, i: usize) -> (r: usize)
    requires
        i <= cs@.len(),
    ensures
        r == sp_num_end(cs@, i as int),
        i <= r <= cs@.len(),
    decreases cs@.len() - i,
{
    if i >= cs.len() {
        i
    } else if check_numch(cs[i]) {
        num_end(cs, i + 1)
    } else {
        i
    }
}

/// The characters of a range of the input, as a string.
fn range_string(cs: &Vec<char>, a: usize, b: usize) -> (r: String)
    requires
        a <= b <= cs@.len(),
    ensures
        r@ == cs@.subrange(a as int, b as int),
{
    let mut out: Vec<char> = Vec::new();
    let mut i: usize = a;
    while i < b
        invariant
            a <= i <= b <= cs@.len(),
            out@ == cs@.subrange(a as int, i as int),
        decreases b - i,
    {
        out.push(cs[i]);
        proof {
            assert(out@ =~= cs@.subrange(a as int, i + 1 as int));
        }
        i = i + 1;
    }
    chars_to_string(&out)
}

/// Decides `sp_hex_val`.
fn hex_val(c: char) -> (r: Option<u32>)
    ensures
        r == sp_hex_val(c),
{
    let u = c as u32;
    if 48 <= u && u <= 57 {
        Some(u - 48)
    } else if 97 <= u && u <= 102 {
        Some(u - 87)
    } else if 65 <= u && u <= 70 {
        Some(u - 55)
    } else {
        None
    }
}

/// Decides `sp_hex4`.
fn hex4(cs: &Vec<char>, i: usize) -> (r: Option<u32>)
    requires
        i <= cs@.len(),
    ensures
        r == sp_hex4(cs@, i as int),
        r matches Some(h) ==> h < 0x10000 && i + 4 <= cs@.len(),
{
    if cs.len() - i >= 4 {
        match (hex_val(cs[i]), hex_val(cs[i + 1]), hex_val(cs[i + 2]), hex_val(cs[i + 3])) {
            (Some(a), Some(b), Some(c), Some(d)) => Some(a * 4096 + b * 256 + c * 16 + d),
            _ => None,
        }
    } else {
        None
    }
}

/// Scans a string token's body, mirroring `sp_scan_string`.
fn scan_string(cs: &Vec<char>, i: usize) -> (r: Result<(Vec<char>, usize), JsonSyntaxError>)
    requires
        i <= cs@.len(),
    ensures
        match r {
            Ok((t, j)) => sp_scan_string(cs@, i as int) == Ok::<_, JsonSyntaxError>(
                (t@, j as int),
            ) && i < j <= cs@.len(),
            Err(e) => sp_scan_string(cs@, i as int) == Err::<(Seq<char>, int), _>(e),
        },
    decreases cs@.len() - i,
{
    if i >= cs.len() {
        return Err(
            JsonSyntaxError { offset: cs.len(), kind: SyntaxErrorKind::UnexpectedEnd },
        );
    }
    let c = cs[i];
    if c == '"' {
        let out: Vec<char> = Vec::new();
        proof {
            assert(out@ =~= Seq::<char>::empty());
        }
        Ok((out, i + 1))
    } else if c == '\\' {
        if i + 1 >= cs.len() {
            return Err(
                JsonSyntaxError { offset: cs.len(), kind: SyntaxErrorKind::UnexpectedEnd },
            );
        }
        let e = cs[i + 1];
        if e == 'u' {
            return match hex4(cs, i + 2) {
                None => Err(JsonSyntaxError { offset: i, kind: SyntaxErrorKind::BadEscape }),
                Some(h) => {
                    if h < 0xD800 || h > 0xDFFF {
                        match char_from_code(h) {
                            None => {
                                proof {
                                    assert(false);
                                }
                                Err(
                                    JsonSyntaxError {
                                        offset: i,
                                        kind: SyntaxErrorKind::BadEscape,
                                    },
                                )
                            },
                            Some(ch) => {
                                proof {
                                    lemma_char_of(h, ch);
                                }
                                match scan_string(cs, i + 6) {
                                    Err(er) => Err(er),
                                    Ok((mut rest, j)) => {
                                        let ghost pre = rest@;
                                        rest.insert(0, ch);
                                        proof {
                                            assert(rest@ =~~= seq![ch] + pre);
                                        }
                                        Ok((rest, j))
                                    },
                                }
                            },
                        }
                    } else if h <= 0xDBFF {
                        if cs.len() - i >= 8 && cs[i + 6] == '\\' && cs[i + 7] == 'u' {
                            match hex4(cs, i + 8) {
                                None => Err(
                                    JsonSyntaxError {
                                        offset: i,
                                        kind: SyntaxErrorKind::BadEscape,
                                    },
                                ),
                                Some(l) => {
                                    if 0xDC00 <= l && l <= 0xDFFF {
                                        let code: u32 = 0x10000 + (h - 0xD800) * 0x400 + (l
                                            - 0xDC00);
                                        match char_from_code(code) {
                                            None => {
                                                proof {
                                                    assert(false);
                                                }
                                                Err(
                                                    JsonSyntaxError {
                                                        offset: i,
                                                        kind: SyntaxErrorKind::BadEscape,
                                                    },
                                                )
                                            },
                                            Some(ch) => {
                                                proof {
                                                    lemma_char_of(code, ch);
                                                }
                                                match scan_string(cs, i + 12) {
                                                    Err(er) => Err(er),
                                                    Ok((mut rest, j)) => {
                                                        let ghost pre = rest@;
                                                        rest.insert(0, ch);
                                                        proof {
                                                            assert(rest@ =~~= seq![ch] + pre);
                                                        }
                                                        Ok((rest, j))
                                                    },
                                                }
                                            },
                                        }
                                    } else {
                                        Err(
                                            JsonSyntaxError {
                                                offset: i,
                                                kind: SyntaxErrorKind::BadEscape,
                                            },
                                        )
                                    }
                                },
                            }
                        } else {
                            Err(
                                JsonSyntaxError {
                                    offset: i,
                                    kind: SyntaxErrorKind::BadEscape,
                                },
                            )
                        }
                    } else {
                        Err(JsonSyntaxError { offset: i, kind: SyntaxErrorKind::BadEscape })
                    }
                },
            };
        }
        let dec: Option<char> = if e == '"' {
            Some('"')
        } else if e == '\\' {
            Some('\\')
        } else if e == '/' {
            Some('/')
        } else if e == 'n' {
            Some('\n')
        } else if e == 't' {
            Some('\t')
        } else if e == 'r' {
            Some('\r')
        } else if e == 'b' {
            Some('\u{0008}')
        } else if e == 'f' {
            Some('\u{000C}')
        } else {
            None
        };
        match dec {
            None => Err(JsonSyntaxError { offset: i, kind: SyntaxErrorKind::BadEscape }),
            Some(ch) => {
                match scan_string(cs, i + 2) {
                    Err(er) => Err(er),
                    Ok((mut rest, j)) => {
                        let ghost pre = rest@;
                        rest.insert(0, ch);
                        proof {
                            assert(rest@ =~~= seq![ch] + pre);
                        }
                        Ok((rest, j))
                    },
                }
            },
        }
    } else {
        match scan_string(cs, i + 1) {
            Err(er) => Err(er),
            Ok((mut rest, j)) => {
                let ghost pre = rest@;
                rest.insert(0, c);
                proof {
                    assert(rest@ =~~= seq![c] + pre);
                }
                Ok((rest, j))
            },
        }
    }
}

/// Parses one JSON value, mirroring `sp_parse_value`.
fn parse_value(cs: &Vec<char>, i: usize, f: u128) -> (r: Result<
    (JsonValue, usize),
    JsonSyntaxError,
>)
    requires
        i <= cs@.len(),
    ensures
        match r {
            Ok((v, j)) => sp_parse_value(cs@, i as int, f as int) == Ok::<_, JsonSyntaxError>(
                (v@, j as int),
            ) && i < j <= cs@.len(),
            Err(e) => sp_parse_value(cs@, i as int, f as int) == Err::<(SpecJson, int), _>(e),
        },
    decreases f,
{
    if f == 0 {
        return Err(JsonSyntaxError { offset: i, kind: SyntaxErrorKind::TooDeep });
    }
    if i >= cs.len() {
        return Err(
            JsonSyntaxError { offset: cs.len(), kind: SyntaxErrorKind::UnexpectedEnd },
        );
    }
    let c = cs[i];
    if c == '"' {
        match scan_string(cs, i + 1) {
            Err(e) => Err(e),
            Ok((t, j)) => Ok((JsonValue::Str(chars_to_string(&t)), j)),
        }
    } else if c == '{' {
        let i2 = skip_ws(cs, i + 1);
        match parse_members_first(cs, i2, f - 1) {
            Err(e) => Err(e),
            Ok((fs, j)) => Ok((JsonValue::Obj(fs), j)),
        }
    } else if c == '[' {
        let i2 = skip_ws(cs, i + 1);
        match parse_elems_first(cs, i2, f - 1) {
            Err(e) => Err(e),
            Ok((es, j)) => Ok((JsonValue::Arr(es), j)),
        }
    } else if c == 't' {
        if cs.len() - i >= 4 && cs[i + 1] == 'r' && cs[i + 2] == 'u' && cs[i + 3] == 'e' {
            Ok((JsonValue::Bool(true), i + 4))
        } else {
            Err(JsonSyntaxError { offset: i, kind: SyntaxErrorKind::UnexpectedCharacter })
        }
    } else if c == 'f' {
        if cs.len() - i >= 5 && cs[i + 1] == 'a' && cs[i + 2] == 'l' && cs[i + 3] == 's' && cs[i
            + 4] == 'e' {
            Ok((JsonValue::Bool(false), i + 5))
        } else {
            Err(JsonSyntaxError { offset: i, kind: SyntaxErrorKind::UnexpectedCharacter })
        }
    } else if c == 'n' {
        if cs.len() - i >= 4 && cs[i + 1] == 'u' && cs[i + 2] == 'l' && cs[i + 3] == 'l' {
            Ok((JsonValue::Null, i + 4))
        } else {
            Err(JsonSyntaxError { offset: i, kind: SyntaxErrorKind::UnexpectedCharacter })
        }
    } else {
        let u = c as u32;
        if (48 <= u && u <= 57) || c == '-' {
            let j = num_end(cs, i);
            proof {
                assert(is_numch(cs@[i as int]));
                lemma_num_end_ge(cs@, i + 1);
                assert(sp_num_end(cs@, i as int) == sp_num_end(cs@, i + 1));
            }
            Ok((JsonValue::Num(range_string(cs, i, j)), j))
        } else {
            Err(JsonSyntaxError { offset: i, kind: SyntaxErrorKind::UnexpectedCharacter })
        }
    }
}

/// Parses an object body, mirroring `sp_parse_members_first`.
fn parse_members_first(cs: &Vec<char>, i: usize, f: u128) -> (r: Result<
    (Vec<(String, JsonValue)>, usize),
    JsonSyntaxError,
>)
    requires
        i <= cs@.len(),
    ensures
        match r {
            Ok((fs, j)) => sp_parse_members_first(cs@, i as int, f as int) == Ok::<
                _,
                JsonSyntaxError,
            >((crate::json::spec_view_fields(fs@), j as int)) && i < j <= cs@.len(),
            Err(e) => sp_parse_members_first(cs@, i as int, f as int) == Err::<
                (Seq<(Seq<char>, SpecJson)>, int),
                _,
            >(e),
        },
    decreases f,
{
    if f == 0 {
        return Err(JsonSyntaxError { offset: i, kind: SyntaxErrorKind::TooDeep });
    }
    if i >= cs.len() {
        return Err(
            JsonSyntaxError { offset: cs.len(), kind: SyntaxErrorKind::UnexpectedEnd },
        );
    }
    if cs[i] == '}' {
        let out: Vec<(String, JsonValue)> = Vec::new();
        proof {
            assert(crate::json::spec_view_fields(out@) =~= Seq::<(Seq<char>, SpecJson)>::empty());
        }
        Ok((out, i + 1))
    } else {
        parse_member_pair(cs, i, f - 1)
    }
}

/// Parses one member and the rest, mirroring `sp_parse_member_pair`.
fn parse_member_pair(cs: &Vec<char>, i: usize, f: u128) -> (r: Result<
    (Vec<(String, JsonValue)>, usize),
    JsonSyntaxError,
>)
    requires
        i <= cs@.len(),
    ensures
        match r {
            Ok((fs, j)) => sp_parse_member_pair(cs@, i as int, f as int) == Ok::<
                _,
                JsonSyntaxError,
            >((crate::json::spec_view_fields(fs@), j as int)) && i < j <= cs@.len(),
            Err(e) => sp_parse_member_pair(cs@, i as int, f as int) == Err::<
                (Seq<(Seq<char>, SpecJson)>, int),
                _,
            >(e),
        },
    decreases f,
{
    if f == 0 {
        return Err(JsonSyntaxError { offset: i, kind: SyntaxErrorKind::TooDeep });
    }
    if i >= cs.len() {
        return Err(
            JsonSyntaxError { offset: cs.len(), kind: SyntaxErrorKind::UnexpectedEnd },
        );
    }
    if cs[i] != '"' {
        return Err(JsonSyntaxError { offset: i, kind: SyntaxErrorKind::UnexpectedCharacter });
    }
    match scan_string(cs, i + 1) {
        Err(e) => Err(e),
        Ok((key, j)) => {
            let j2 = skip_ws(cs, j);
            if j2 >= cs.len() {
                Err(JsonSyntaxError { offset: cs.len(), kind: SyntaxErrorKind::UnexpectedEnd })
            } else if cs[j2] != ':' {
                Err(JsonSyntaxError { offset: j2, kind: SyntaxErrorKind::UnexpectedCharacter })
            } else {
                let j3 = skip_ws(cs, j2 + 1);
                match parse_value(cs, j3, f - 1) {
                    Err(e) => Err(e),
                    Ok((v, j4)) => {
                        let j5 = skip_ws(cs, j4);
                        match parse_members_rest(cs, j5, f - 1) {
                            Err(e) => Err(e),
                            Ok((mut rest, j6)) => {
                                let ghost oldvec = rest@;
                                let ghost pre = crate::json::spec_view_fields(rest@);
                                let ghost keyview = key@;
                                let ghost vview = v@;
                                rest.insert(0, (chars_to_string(&key), v));
                                proof {
                                    crate::json::lemma_view_fields(oldvec);
                                    crate::json::lemma_view_fields(rest@);
                                    assert(crate::json::spec_view_fields(rest@) =~~= seq![
                                        (keyview, vview),
                                    ] + pre);
                                }
                                Ok((rest, j6))
                            },
                        }
                    },
                }
            }
        },
    }
}

/// Parses the continuation of an object body, mirroring
/// `sp_parse_members_rest`.
fn parse_members_rest(cs: &Vec<char>, i: usize, f: u128) -> (r: Result<
    (Vec<(String, JsonValue)>, usize),
    JsonSyntaxError,
>)
    requires
        i <= cs@.len(),
    ensures
        match r {
            Ok((fs, j)) => sp_parse_members_rest(cs@, i as int, f as int) == Ok::<
                _,
                JsonSyntaxError,
            >((crate::json::spec_view_fields(fs@), j as int)) && i < j <= cs@.len(),
            Err(e) => sp_parse_members_rest(cs@, i as int, f as int) == Err::<
                (Seq<(Seq<char>, SpecJson)>, int),
                _,
            >(e),
        },
    decreases f,
{
    if f == 0 {
        return Err(JsonSyntaxError { offset: i, kind: SyntaxErrorKind::TooDeep });
    }
    if i >= cs.len() {
        return Err(
            JsonSyntaxError { offset: cs.len(), kind: SyntaxErrorKind::UnexpectedEnd },
        );
    }
    if cs[i] == '}' {
        let out: Vec<(String, JsonValue)> = Vec::new();
        proof {
            assert(crate::json::spec_view_fields(out@) =~= Seq::<(Seq<char>, SpecJson)>::empty());
        }
        Ok((out, i + 1))
    } else if cs[i] == ',' {
        let i2 = skip_ws(cs, i + 1);
        parse_member_pair(cs, i2, f - 1)
    } else {
        Err(JsonSyntaxError { offset: i, kind: SyntaxErrorKind::UnexpectedCharacter })
    }
}

/// Parses an array body, mirroring `sp_parse_elems_first`.
fn parse_elems_first(cs: &Vec<char>, i: usize, f: u128) -> (r: Result<
    (Vec<JsonValue>, usize),
    JsonSyntaxError,
>)
    requires
        i <= cs@.len(),
    ensures
        match r {
            Ok((es, j)) => sp_parse_elems_first(cs@, i as int, f as int) == Ok::<
                _,
                JsonSyntaxError,
            >((crate::json::spec_view_list(es@), j as int)) && i < j <= cs@.len(),
            Err(e) => sp_parse_elems_first(cs@, i as int, f as int) == Err::<
                (Seq<SpecJson>, int),
                _,
            >(e),
        },
    decreases f,
{
    if f == 0 {
        return Err(JsonSyntaxError { offset: i, kind: SyntaxErrorKind::TooDeep });
    }
    if i >= cs.len() {
        return Err(
            JsonSyntaxError { offset: cs.len(), kind: SyntaxErrorKind::UnexpectedEnd },
        );
    }
    if cs[i] == ']' {
        let out: Vec<JsonValue> = Vec::new();
        proof {
            assert(crate::json::spec_view_list(out@) =~= Seq::<SpecJson>::empty());
        }
        Ok((out, i + 1))
    } else {
        match parse_value(cs, i, f - 1) {
            Err(e) => Err(e),
            Ok((v, j)) => {
                let j2 = skip_ws(cs, j);
                match parse_elems_rest(cs, j2, f - 1) {
                    Err(e) => Err(e),
                    Ok((mut rest, j3)) => {
                        let ghost oldvec = rest@;
                        let ghost pre = crate::json::spec_view_list(rest@);
                        let ghost vview = v@;
                        rest.insert(0, v);
                        proof {
                            crate::json::lemma_view_list(oldvec);
                            crate::json::lemma_view_list(rest@);
                            assert(crate::json::spec_view_list(rest@) =~~= seq![vview] + pre);
                        }
                        Ok((rest, j3))
                    },
                }
            },
        }
    }
}

/// Parses the continuation of an array body, mirroring
/// `sp_parse_elems_rest`.
fn parse_elems_rest(cs: &Vec<char>, i: usize, f: u128) -> (r: Result<
    (Vec<JsonValue>, usize),
    JsonSyntaxError,
>)
    requires
        i <= cs@.len(),
    ensures
        match r {
            Ok((es, j)) => sp_parse_elems_rest(cs@, i as int, f as int) == Ok::<
                _,
                JsonSyntaxError,
            >((crate::json::spec_view_list(es@), j as int)) && i < j <= cs@.len(),
            Err(e) => sp_parse_elems_rest(cs@, i as int, f as int) == Err::<
                (Seq<SpecJson>, int),
                _,
            >(e),
        },
    decreases f,
{
    if f == 0 {
        return Err(JsonSyntaxError { offset: i, kind: SyntaxErrorKind::TooDeep });
    }
    if i >= cs.len() {
        return Err(
            JsonSyntaxError { offset: cs.len(), kind: SyntaxErrorKind::UnexpectedEnd },
        );
    }
    if cs[i] == ']' {
        let out: Vec<JsonValue> = Vec::new();
        proof {
            assert(crate::json::spec_view_list(out@) =~= Seq::<SpecJson>::empty());
        }
        Ok((out, i + 1))
    } else if cs[i] == ',' {
        let i2 = skip_ws(cs, i + 1);
        match parse_value(cs, i2, f - 1) {
            Err(e) => Err(e),
            Ok((v, j)) => {
                let j2 = skip_ws(cs, j);
                match parse_elems_rest(cs, j2, f - 1) {
                    Err(e) => Err(e),
                    Ok((mut rest, j3)) => {
                        let ghost oldvec = rest@;
                        let ghost pre = crate::json::spec_view_list(rest@);
                        let ghost vview = v@;
                        rest.insert(0, v);
                        proof {
                            crate::json::lemma_view_list(oldvec);
                            crate::json::lemma_view_list(rest@);
                            assert(crate::json::spec_view_list(rest@) =~~= seq![vview] + pre);
                        }
                        Ok((rest, j3))
                    },
                }
            },
        }
    } else {
        Err(JsonSyntaxError { offset: i, kind: SyntaxErrorKind::UnexpectedCharacter })
    }
}

/// Parses a whole JSON text to a JSON value.
pub fn parse_json_text(s: &str) -> (r: Result<JsonValue, JsonSyntaxError>)
    ensures
        match r {
            Ok(j) => sp_parse_text(s@) == Ok::<_, JsonSyntaxError>(j@),
            Err(e) => sp_parse_text(s@) == Err::<SpecJson, _>(e),
        },
{
    let cs = str_to_chars(s);
    let f: u128 = 2 * (cs.len() as u128) + 8;
    let i0 = skip_ws(&cs, 0);
    match parse_value(&cs, i0, f) {
        Err(e) => Err(e),
        Ok((v, j)) => {
            let j2 = skip_ws(&cs, j);
            if j2 >= cs.len() {
                Ok(v)
            } else {
                Err(JsonSyntaxError { offset: j2, kind: SyntaxErrorKind::TrailingCharacters })
            }
        },
    }
}

/// The whole parse pipeline over the model: text to JSON to validated
/// policy, stopping at the first failure.
pub open spec fn sp_policy_from_text(s: Seq<char>) -> Result<SpecPolicy, SpecPolicyError> {
    match sp_parse_text(s) {
        Err(e) => Err(SpecPolicyError::Syntax(e)),
        Ok(j) => sp_parse_policy(j),
    }
}

impl Policy {
    /// Parses a policy document from JSON text: the validated policy, or
    /// the single error that ended the parse.  The result is a pure
    /// function of the text, so re-parsing equal text yields an identical
    /// outcome.
    pub fn from_json_str(s: &str) -> (r: Result<Policy, PolicyError>)
        ensures
            rvw(r) == sp_policy_from_text(s@),
    {
        match parse_json_text(s) {
            Err(e) => Err(PolicyError::Syntax(e)),
            Ok(j) => parse_policy_value(&j),
        }
    }

    /// Serializes the policy to compact JSON text, with fields in the
    /// fixed emission order.
    pub fn to_json_string(&self) -> (r: String)
        ensures
            r@ == sp_render(sp_ser_policy(self@)),
    {
        let v = policy_to_json(self);
        render_json(&v)
    }
}

} // verus!
