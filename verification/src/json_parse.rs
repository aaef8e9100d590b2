//! The grammar of the engine's vertex payload, stated as parsing functions
//! over character sequences, and the executable parser proved equal to them.
//!
//! The payload is one object whose members are scalars, flat arrays of
//! scalars, or one-level objects of those (the `properties` member). Each
//! parsing function takes a position and returns the parsed value with the
//! position after it, or nothing where the input does not match.

use vstd::prelude::*;
use crate::text::is_ascii_digit;
use crate::json::{ScalarV, PropValueV, ScalarValue, PropValue, PropEntry, PropMap, digits_end, parse_number_at};
use crate::text::exec_is_ascii_digit;

verus! {

/// JSON whitespace.
pub open spec fn is_json_ws(c: char) -> bool {
    c == ' ' || c == '\t' || c == '\n' || c == '\r'
}

/// The first index at or after `i` that holds no JSON whitespace.
pub open spec fn skip_ws(s: Seq<char>, i: int) -> int
    decreases s.len() - i when 0 <= i <= s.len()
{
    if i < s.len() && is_json_ws(s[i]) {
        skip_ws(s, i + 1)
    } else {
        i
    }
}

/// The value of a hexadecimal digit, or 16 where the character is none.
pub open spec fn hex_val(c: char) -> int {
    if '0' <= c && c <= '9' {
        c as int - '0' as int
    } else if 'a' <= c && c <= 'f' {
        c as int - 'a' as int + 10
    } else if 'A' <= c && c <= 'F' {
        c as int - 'A' as int + 10
    } else {
        16
    }
}

pub open spec fn is_hex_digit(c: char) -> bool {
    hex_val(c) < 16
}

/// Four hexadecimal digits at `i`, as a code unit value.
pub open spec fn parse_hex4(s: Seq<char>, i: int) -> Option<(int, int)> {
    if i + 4 <= s.len() && is_hex_digit(s[i]) && is_hex_digit(s[i + 1]) && is_hex_digit(s[i + 2])
        && is_hex_digit(s[i + 3]) {
        Some(
            (
                hex_val(s[i]) * 4096 + hex_val(s[i + 1]) * 256 + hex_val(s[i + 2]) * 16 + hex_val(
                    s[i + 3],
                ),
                i + 4,
            ),
        )
    } else {
        None
    }
}

/// The character named by a single-character escape, if the escape is one.
pub open spec fn simple_escape(c: char) -> Option<char> {
    if c == '"' {
        Some('"')
    } else if c == '\\' {
        Some('\\')
    } else if c == '/' {
        Some('/')
    } else if c == 'b' {
        Some('\u{8}')
    } else if c == 'f' {
        Some('\u{c}')
    } else if c == 'n' {
        Some('\n')
    } else if c == 'r' {
        Some('\r')
    } else if c == 't' {
        Some('\t')
    } else {
        None
    }
}

pub open spec fn is_high_surrogate(v: int) -> bool {
    0xD800 <= v < 0xDC00
}

pub open spec fn is_low_surrogate(v: int) -> bool {
    0xDC00 <= v < 0xE000
}

/// The rest of a string body from `i` (the position after the opening
/// quote or after the last decoded character) to its closing quote.
pub open spec fn parse_string_body(s: Seq<char>, i: int) -> Option<(Seq<char>, int)>
    decreases s.len() - i when 0 <= i
{
    if i >= s.len() {
        None
    } else if s[i] == '"' {
        Some((Seq::empty(), i + 1))
    } else if s[i] == '\\' {
        if i + 1 >= s.len() {
            None
        } else if s[i + 1] == 'u' {
            match parse_hex4(s, i + 2) {
                None => None,
                Some((v, j)) => if is_high_surrogate(v) {
                    if j + 2 <= s.len() && s[j] == '\\' && s[j + 1] == 'u' {
                        match parse_hex4(s, j + 2) {
                            None => None,
                            Some((w, k)) => if is_low_surrogate(w) {
                                let c = (0x10000 + (v - 0xD800) * 0x400 + (w - 0xDC00)) as char;
                                if k > i {
                                    match parse_string_body(s, k) {
                                        None => None,
                                        Some((rest, end)) => Some((seq![c] + rest, end)),
                                    }
                                } else {
                                    None
                                }
                            } else {
                                None
                            },
                        }
                    } else {
                        None
                    }
                } else if is_low_surrogate(v) {
                    None
                } else {
                    match parse_string_body(s, j) {
                        None => None,
                        Some((rest, end)) => Some((seq![v as char] + rest, end)),
                    }
                },
            }
        } else {
            match simple_escape(s[i + 1]) {
                None => None,
                Some(c) => match parse_string_body(s, i + 2) {
                    None => None,
                    Some((rest, end)) => Some((seq![c] + rest, end)),
                },
            }
        }
    } else if (s[i] as u32) < 0x20 {
        None
    } else {
        match parse_string_body(s, i + 1) {
            None => None,
            Some((rest, end)) => Some((seq![s[i]] + rest, end)),
        }
    }
}

/// A quoted string starting at `i`.
pub open spec fn parse_string_at(s: Seq<char>, i: int) -> Option<(Seq<char>, int)> {
    if 0 <= i < s.len() && s[i] == '"' {
        parse_string_body(s, i + 1)
    } else {
        None
    }
}

/// The fixed token `tok` starting at `i`.
pub open spec fn parse_token(s: Seq<char>, i: int, tok: Seq<char>) -> Option<int> {
    if 0 <= i && i + tok.len() <= s.len() && s.subrange(i, i + tok.len()) == tok {
        Some(i + tok.len())
    } else {
        None
    }
}

pub open spec fn true_token() -> Seq<char> {
    seq!['t', 'r', 'u', 'e']
}

pub open spec fn false_token() -> Seq<char> {
    seq!['f', 'a', 'l', 's', 'e']
}

pub open spec fn null_token() -> Seq<char> {
    seq!['n', 'u', 'l', 'l']
}

/// A scalar starting at `i`: a string, a number, `true`, `false` or `null`.
pub open spec fn parse_scalar_at(s: Seq<char>, i: int) -> Option<(ScalarV, int)> {
    if !(0 <= i < s.len()) {
        None
    } else if s[i] == '"' {
        match parse_string_at(s, i) {
            None => None,
            Some((t, j)) => Some((ScalarV::Str(t), j)),
        }
    } else if s[i] == '-' || is_ascii_digit(s[i]) {
        match parse_number_at(s, i) {
            None => None,
            Some((t, j)) => Some((ScalarV::Num(t), j)),
        }
    } else if s[i] == 't' {
        match parse_token(s, i, true_token()) {
            None => None,
            Some(j) => Some((ScalarV::Bool(true), j)),
        }
    } else if s[i] == 'f' {
        match parse_token(s, i, false_token()) {
            None => None,
            Some(j) => Some((ScalarV::Bool(false), j)),
        }
    } else if s[i] == 'n' {
        match parse_token(s, i, null_token()) {
            None => None,
            Some(j) => Some((ScalarV::Null, j)),
        }
    } else {
        None
    }
}

/// The elements of a non-empty array from the first element at `i` to the
/// closing bracket.
pub open spec fn parse_array_items(s: Seq<char>, i: int) -> Option<(Seq<ScalarV>, int)>
    decreases s.len() - i when 0 <= i
{
    match parse_scalar_at(s, i) {
        None => None,
        Some((v, j)) => {
            if !(j <= s.len()) {
                None
            } else {
                let k = skip_ws(s, j);
                if k < s.len() && s[k] == ']' {
                    Some((seq![v], k + 1))
                } else if k < s.len() && s[k] == ',' {
                    let m = skip_ws(s, k + 1);
                    if i < m && m <= s.len() {
                        match parse_array_items(s, m) {
                            None => None,
                            Some((rest, end)) => Some((seq![v] + rest, end)),
                        }
                    } else {
                        None
                    }
                } else {
                    None
                }
            }
        },
    }
}

/// A flat array of scalars starting at `i`.
pub open spec fn parse_array_at(s: Seq<char>, i: int) -> Option<(Seq<ScalarV>, int)> {
    if 0 <= i < s.len() && s[i] == '[' {
        let j = skip_ws(s, i + 1);
        if j < s.len() && s[j] == ']' {
            Some((Seq::empty(), j + 1))
        } else {
            parse_array_items(s, j)
        }
    } else {
        None
    }
}

/// A property value starting at `i`: a scalar or a flat array.
pub open spec fn parse_prop_value_at(s: Seq<char>, i: int) -> Option<(PropValueV, int)> {
    if 0 <= i < s.len() && s[i] == '[' {
        match parse_array_at(s, i) {
            None => None,
            Some((vs, j)) => Some((PropValueV::Arr(vs), j)),
        }
    } else {
        match parse_scalar_at(s, i) {
            None => None,
            Some((v, j)) => Some((PropValueV::Scalar(v), j)),
        }
    }
}

/// One `"key": value` member of a property object, starting at the key.
pub open spec fn parse_member_at(s: Seq<char>, i: int) -> Option<((Seq<char>, PropValueV), int)> {
    match parse_string_at(s, i) {
        None => None,
        Some((key, j)) => {
            if !(j <= s.len()) {
                None
            } else {
                let k = skip_ws(s, j);
                if k < s.len() && s[k] == ':' {
                    let m = skip_ws(s, k + 1);
                    match parse_prop_value_at(s, m) {
                        None => None,
                        Some((v, end)) => Some(((key, v), end)),
                    }
                } else {
                    None
                }
            }
        },
    }
}

/// The members of a non-empty property object from the first key at `i` to
/// the closing brace.
pub open spec fn parse_members(s: Seq<char>, i: int) -> Option<
    (Seq<(Seq<char>, PropValueV)>, int),
>
    decreases s.len() - i when 0 <= i
{
    match parse_member_at(s, i) {
        None => None,
        Some((e, j)) => {
            if !(j <= s.len()) {
                None
            } else {
                let k = skip_ws(s, j);
                if k < s.len() && s[k] == '}' {
                    Some((seq![e], k + 1))
                } else if k < s.len() && s[k] == ',' {
                    let m = skip_ws(s, k + 1);
                    if i < m && m <= s.len() {
                        match parse_members(s, m) {
                            None => None,
                            Some((rest, end)) => Some((seq![e] + rest, end)),
                        }
                    } else {
                        None
                    }
                } else {
                    None
                }
            }
        },
    }
}

/// A property object (one level: keys bound to scalars or flat arrays)
/// starting at `i`.
pub open spec fn parse_props_at(s: Seq<char>, i: int) -> Option<
    (Seq<(Seq<char>, PropValueV)>, int),
> {
    if 0 <= i < s.len() && s[i] == '{' {
        let j = skip_ws(s, i + 1);
        if j < s.len() && s[j] == '}' {
            Some((Seq::empty(), j + 1))
        } else {
            parse_members(s, j)
        }
    } else {
        None
    }
}

/// The mathematical form of a top-level member value of the payload object:
/// a property value, or a one-level object of property values.
pub enum TopValueV {
    Val(PropValueV),
    Obj(Seq<(Seq<char>, PropValueV)>),
}

/// A top-level member value starting at `i`.
pub open spec fn parse_top_value_at(s: Seq<char>, i: int) -> Option<(TopValueV, int)> {
    if 0 <= i < s.len() && s[i] == '{' {
        match parse_props_at(s, i) {
            None => None,
            Some((es, j)) => Some((TopValueV::Obj(es), j)),
        }
    } else {
        match parse_prop_value_at(s, i) {
            None => None,
            Some((v, j)) => Some((TopValueV::Val(v), j)),
        }
    }
}

/// One `"key": value` member of the payload object, starting at the key.
pub open spec fn parse_top_member_at(s: Seq<char>, i: int) -> Option<
    ((Seq<char>, TopValueV), int),
> {
    match parse_string_at(s, i) {
        None => None,
        Some((key, j)) => {
            if !(j <= s.len()) {
                None
            } else {
                let k = skip_ws(s, j);
                if k < s.len() && s[k] == ':' {
                    let m = skip_ws(s, k + 1);
                    match parse_top_value_at(s, m) {
                        None => None,
                        Some((v, end)) => Some(((key, v), end)),
                    }
                } else {
                    None
                }
            }
        },
    }
}

/// The members of the non-empty payload object from the first key at `i` to
/// the closing brace.
pub open spec fn parse_top_members(s: Seq<char>, i: int) -> Option<
    (Seq<(Seq<char>, TopValueV)>, int),
>
    decreases s.len() - i when 0 <= i
{
    match parse_top_member_at(s, i) {
        None => None,
        Some((e, j)) => {
            if !(j <= s.len()) {
                None
            } else {
                let k = skip_ws(s, j);
                if k < s.len() && s[k] == '}' {
                    Some((seq![e], k + 1))
                } else if k < s.len() && s[k] == ',' {
                    let m = skip_ws(s, k + 1);
                    if i < m && m <= s.len() {
                        match parse_top_members(s, m) {
                            None => None,
                            Some((rest, end)) => Some((seq![e] + rest, end)),
                        }
                    } else {
                        None
                    }
                } else {
                    None
                }
            }
        },
    }
}

/// The payload object starting at `i`.
pub open spec fn parse_top_object_at(s: Seq<char>, i: int) -> Option<
    (Seq<(Seq<char>, TopValueV)>, int),
> {
    if 0 <= i < s.len() && s[i] == '{' {
        let j = skip_ws(s, i + 1);
        if j < s.len() && s[j] == '}' {
            Some((Seq::empty(), j + 1))
        } else {
            parse_top_members(s, j)
        }
    } else {
        None
    }
}

/// The value of the first payload member with the given key, if any.
pub open spec fn find_top(ms: Seq<(Seq<char>, TopValueV)>, key: Seq<char>) -> Option<TopValueV>
    decreases ms.len(),
{
    if ms.len() == 0 {
        None
    } else if ms[0].0 == key {
        Some(ms[0].1)
    } else {
        find_top(ms.drop_first(), key)
    }
}

pub open spec fn label_key() -> Seq<char> {
    seq!['l', 'a', 'b', 'e', 'l']
}

pub open spec fn properties_key() -> Seq<char> {
    seq!['p', 'r', 'o', 'p', 'e', 'r', 't', 'i', 'e', 's']
}

/// The whole vertex payload: one object, surrounded by nothing but
/// whitespace, whose `label` member is a string and whose `properties`
/// member is a one-level object. Yields the label and the properties.
pub open spec fn parse_vertex_payload(s: Seq<char>) -> Option<
    (Seq<char>, Seq<(Seq<char>, PropValueV)>),
> {
    let i = skip_ws(s, 0);
    match parse_top_object_at(s, i) {
        None => None,
        Some((ms, j)) => {
            if 0 <= j <= s.len() && skip_ws(s, j) == s.len() {
                match find_top(ms, label_key()) {
                    Some(TopValueV::Val(PropValueV::Scalar(ScalarV::Str(l)))) => match find_top(
                        ms,
                        properties_key(),
                    ) {
                        Some(TopValueV::Obj(es)) => Some((l, es)),
                        _ => None,
                    },
                    _ => None,
                }
            } else {
                None
            }
        },
    }
}

pub fn exec_skip_ws(s: &Vec<char>, i: usize) -> (r: usize)
    requires
        i <= s@.len(),
    ensures
        r == skip_ws(s@, i as int),
        i <= r <= s@.len(),
{
    let n = s.len();
    let mut p = i;
    while p < n && (s[p] == ' ' || s[p] == '\t' || s[p] == '\n' || s[p] == '\r')
        invariant
            i <= p <= n,
            n == s@.len(),
            skip_ws(s@, i as int) == skip_ws(s@, p as int),
        decreases n - p,
    {
        p = p + 1;
    }
    p
}

fn exec_hex_val(c: char) -> (r: u32)
    ensures
        r == hex_val(c),
{
    if '0' <= c && c <= '9' {
        c as u32 - '0' as u32
    } else if 'a' <= c && c <= 'f' {
        c as u32 - 'a' as u32 + 10
    } else if 'A' <= c && c <= 'F' {
        c as u32 - 'A' as u32 + 10
    } else {
        16
    }
}

fn exec_parse_hex4(s: &Vec<char>, i: usize) -> (r: Option<(u32, usize)>)
    requires
        i <= s@.len(),
    ensures
        match r {
            Some((v, j)) => parse_hex4(s@, i as int) == Some((v as int, j as int)) && v < 0x10000
                && j == i + 4 && j <= s@.len(),
            None => parse_hex4(s@, i as int) is None,
        },
{
    let n = s.len();
    if i < n && n - i >= 4 {
        let a = exec_hex_val(s[i]);
        let b = exec_hex_val(s[i + 1]);
        let c = exec_hex_val(s[i + 2]);
        let d = exec_hex_val(s[i + 3]);
        if a < 16 && b < 16 && c < 16 && d < 16 {
            Some((a * 4096 + b * 256 + c * 16 + d, i + 4))
        } else {
            None
        }
    } else {
        None
    }
}

fn exec_simple_escape(c: char) -> (r: Option<char>)
    ensures
        r == simple_escape(c),
{
    if c == '"' {
        Some('"')
    } else if c == '\\' {
        Some('\\')
    } else if c == '/' {
        Some('/')
    } else if c == 'b' {
        Some('\u{8}')
    } else if c == 'f' {
        Some('\u{c}')
    } else if c == 'n' {
        Some('\n')
    } else if c == 'r' {
        Some('\r')
    } else if c == 't' {
        Some('\t')
    } else {
        None
    }
}

pub fn exec_parse_string_body(s: &Vec<char>, i: usize) -> (r: Option<(Vec<char>, usize)>)
    requires
        i <= s@.len(),
    ensures
        match r {
            Some((t, j)) => parse_string_body(s@, i as int) == Some((t@, j as int)) && i < j
                <= s@.len(),
            None => parse_string_body(s@, i as int) is None,
        },
{
    let n = s.len();
    let mut p = i;
    let mut acc: Vec<char> = Vec::new();
    loop
        invariant
            i <= p <= n,
            n == s@.len(),
            parse_string_body(s@, i as int) == (match parse_string_body(s@, p as int) {
                Some((rest, end)) => Some((acc@ + rest, end)),
                None => None::<(Seq<char>, int)>,
            }),
        decreases n - p,
    {
        if p >= n {
            return None;
        }
        let c = s[p];
        if c == '"' {
            proof {
                assert(acc@ + Seq::<char>::empty() =~= acc@);
            }
            return Some((acc, p + 1));
        }
        if c == '\\' {
            if p + 1 >= n {
                return None;
            }
            let e = s[p + 1];
            if e == 'u' {
                let h1 = exec_parse_hex4(s, p + 2);
                match h1 {
                    None => {
                        return None;
                    },
                    Some((v, j)) => {
                        if 0xD800 <= v && v < 0xDC00 {
                            if j < n && j + 1 < n && s[j] == '\\' && s[j + 1] == 'u' {
                                let h2 = exec_parse_hex4(s, j + 2);
                                match h2 {
                                    None => {
                                        return None;
                                    },
                                    Some((w, k)) => {
                                        if 0xDC00 <= w && w < 0xE000 {
                                            let code: u32 = 0x10000 + (v - 0xD800) * 0x400 + (w
                                                - 0xDC00);
                                            let oc = crate::text::char_from_u32(code);
                                            match oc {
                                                Some(c2) => {
                                                    proof {
                                                        assert(c2 as int == code as int);
                                                        assert(((code as int) as char) == c2);
                                                        assert(code as int == 0x10000 + (v as int
                                                            - 0xD800) * 0x400 + (w as int
                                                            - 0xDC00));
                                                        assert(parse_string_body(s@, p as int)
                                                            == (match parse_string_body(
                                                            s@,
                                                            k as int,
                                                        ) {
                                                            Some((rest, end)) => Some(
                                                                (seq![c2] + rest, end),
                                                            ),
                                                            None => None::<(Seq<char>, int)>,
                                                        }));
                                                        lemma_string_body_step(
                                                            s@,
                                                            i as int,
                                                            p as int,
                                                            k as int,
                                                            acc@,
                                                            c2,
                                                        );
                                                    }
                                                    acc.push(c2);
                                                    p = k;
                                                },
                                                None => {
                                                    return None;
                                                },
                                            }
                                        } else {
                                            return None;
                                        }
                                    },
                                }
                            } else {
                                return None;
                            }
                        } else if 0xDC00 <= v && v < 0xE000 {
                            return None;
                        } else {
                            let oc = crate::text::char_from_u32(v);
                            match oc {
                                Some(c2) => {
                                    proof {
                                        assert(c2 as int == v as int);
                                        assert(((v as int) as char) == c2);
                                        assert(parse_string_body(s@, p as int)
                                            == (match parse_string_body(s@, j as int) {
                                            Some((rest, end)) => Some((seq![c2] + rest, end)),
                                            None => None::<(Seq<char>, int)>,
                                        }));
                                        lemma_string_body_step(
                                            s@,
                                            i as int,
                                            p as int,
                                            j as int,
                                            acc@,
                                            c2,
                                        );
                                    }
                                    acc.push(c2);
                                    p = j;
                                },
                                None => {
                                    return None;
                                },
                            }
                        }
                    },
                }
            } else {
                let m = exec_simple_escape(e);
                match m {
                    Some(c2) => {
                        proof {
                            lemma_string_body_step(s@, i as int, p as int, p + 2 as int, acc@, c2);
                        }
                        acc.push(c2);
                        p = p + 2;
                    },
                    None => {
                        return None;
                    },
                }
            }
        } else if (c as u32) < 0x20 {
            return None;
        } else {
            proof {
                lemma_string_body_step(s@, i as int, p as int, p + 1 as int, acc@, c);
            }
            acc.push(c);
            p = p + 1;
        }
    }
}

/// After one decoded character, the accumulated prefix still composes with
/// the remaining body text into the whole body.
proof fn lemma_string_body_step(s: Seq<char>, i: int, p: int, q: int, acc: Seq<char>, c: char)
    requires
        parse_string_body(s, i) == (match parse_string_body(s, p) {
            Some((rest, end)) => Some((acc + rest, end)),
            None => None::<(Seq<char>, int)>,
        }),
        parse_string_body(s, p) == (match parse_string_body(s, q) {
            Some((rest, end)) => Some((seq![c] + rest, end)),
            None => None::<(Seq<char>, int)>,
        }),
    ensures
        parse_string_body(s, i) == (match parse_string_body(s, q) {
            Some((rest, end)) => Some((acc.push(c) + rest, end)),
            None => None::<(Seq<char>, int)>,
        }),
{
    match parse_string_body(s, q) {
        Some((rest, end)) => {
            assert(acc + (seq![c] + rest) =~= acc.push(c) + rest);
        },
        None => {},
    }
}

/// Composing a known prefix with one more parsed element keeps the relation
/// between a whole parse and the parse of what remains.
proof fn lemma_parse_chain<T>(
    a: Option<(Seq<T>, int)>,
    b: Option<(Seq<T>, int)>,
    c: Option<(Seq<T>, int)>,
    acc: Seq<T>,
    v: T,
)
    requires
        a == (match b {
            Some((rest, end)) => Some((acc + rest, end)),
            None => None::<(Seq<T>, int)>,
        }),
        b == (match c {
            Some((rest, end)) => Some((seq![v] + rest, end)),
            None => None::<(Seq<T>, int)>,
        }),
    ensures
        a == (match c {
            Some((rest, end)) => Some((acc.push(v) + rest, end)),
            None => None::<(Seq<T>, int)>,
        }),
{
    match c {
        Some((rest, end)) => {
            assert(acc + (seq![v] + rest) =~= acc.push(v) + rest);
        },
        None => {},
    }
}

/// The end of a digit run never lies before its start or past the input.
pub proof fn lemma_digits_end_bounds(s: Seq<char>, i: int)
    requires
        0 <= i <= s.len(),
    ensures
        i <= digits_end(s, i) <= s.len(),
    decreases s.len() - i,
{
    if i < s.len() && is_ascii_digit(s[i]) {
        lemma_digits_end_bounds(s, i + 1);
    }
}

fn exec_digits_end(s: &Vec<char>, i: usize) -> (r: usize)
    requires
        i <= s@.len(),
    ensures
        r == digits_end(s@, i as int),
        i <= r <= s@.len(),
{
    let n = s.len();
    let mut p = i;
    while p < n && '0' <= s[p] && s[p] <= '9'
        invariant
            i <= p <= n,
            n == s@.len(),
            digits_end(s@, i as int) == digits_end(s@, p as int),
        decreases n - p,
    {
        p = p + 1;
    }
    p
}

/// The characters of `s` from `a` to `b`.
pub(crate) fn copy_range(s: &Vec<char>, a: usize, b: usize) -> (r: Vec<char>)
    requires
        a <= b <= s@.len(),
    ensures
        r@ =~= s@.subrange(a as int, b as int),
{
    let mut out: Vec<char> = Vec::new();
    let mut p = a;
    while p < b
        invariant
            a <= p <= b <= s@.len(),
            out@ =~= s@.subrange(a as int, p as int),
        decreases b - p,
    {
        out.push(s[p]);
        proof {
            assert(out@ =~= s@.subrange(a as int, p + 1 as int));
        }
        p = p + 1;
    }
    out
}

pub fn exec_parse_number(s: &Vec<char>, i: usize) -> (r: Option<(Vec<char>, usize)>)
    requires
        i <= s@.len(),
    ensures
        match r {
            Some((t, j)) => parse_number_at(s@, i as int) == Some((t@, j as int)) && i < j
                <= s@.len(),
            None => parse_number_at(s@, i as int) is None,
        },
{
    let n = s.len();
    let j0 = if i < n && s[i] == '-' {
        i + 1
    } else {
        i
    };
    if !(j0 < n && exec_is_ascii_digit(s[j0])) {
        return None;
    }
    let j1 = if s[j0] == '0' {
        j0 + 1
    } else {
        exec_digits_end(s, j0)
    };
    proof {
        assert(j1 > j0) by {
            if s@[j0 as int] != '0' {
                assert(digits_end(s@, j0 as int) == digits_end(s@, j0 + 1 as int));
                lemma_digits_end_bounds(s@, j0 + 1 as int);
            }
        }
    }
    let j2o: Option<usize> = if j1 < n && s[j1] == '.' {
        if j1 < n - 1 && exec_is_ascii_digit(s[j1 + 1]) {
            Some(exec_digits_end(s, j1 + 1))
        } else {
            None
        }
    } else {
        Some(j1)
    };
    match j2o {
        None => None,
        Some(j2) => {
            let j3o: Option<usize> = if j2 < n && (s[j2] == 'e' || s[j2] == 'E') {
                let k = if j2 < n - 1 && (s[j2 + 1] == '+' || s[j2 + 1] == '-') {
                    j2 + 2
                } else {
                    j2 + 1
                };
                if k < n && exec_is_ascii_digit(s[k]) {
                    Some(exec_digits_end(s, k))
                } else {
                    None
                }
            } else {
                Some(j2)
            };
            match j3o {
                None => None,
                Some(j3) => {
                    let t = copy_range(s, i, j3);
                    Some((t, j3))
                },
            }
        },
    }
}

fn exec_parse_token(s: &Vec<char>, i: usize, tok: &Vec<char>) -> (r: Option<usize>)
    requires
        i <= s@.len(),
    ensures
        match r {
            Some(j) => parse_token(s@, i as int, tok@) == Some(j as int) && i <= j <= s@.len()
                && j == i + tok@.len(),
            None => parse_token(s@, i as int, tok@) is None,
        },
{
    let n = s.len();
    let m = tok.len();
    if !(n - i >= m) {
        return None;
    }
    let mut k: usize = 0;
    while k < m
        invariant
            k <= m,
            i + m <= n,
            n == s@.len(),
            m == tok@.len(),
            forall|q: int| 0 <= q < k ==> s@[i + q] == tok@[q],
        decreases m - k,
    {
        if s[i + k] != tok[k] {
            proof {
                if parse_token(s@, i as int, tok@) is Some {
                    assert(s@.subrange(i as int, i + m as int)[k as int] == tok@[k as int]);
                }
            }
            return None;
        }
        k = k + 1;
    }
    proof {
        assert(s@.subrange(i as int, i + m as int) =~= tok@);
    }
    Some(i + m)
}

pub fn exec_parse_scalar(s: &Vec<char>, i: usize) -> (r: Option<(ScalarValue, usize)>)
    requires
        i <= s@.len(),
    ensures
        match r {
            Some((v, j)) => parse_scalar_at(s@, i as int) == Some((v@, j as int)) && i < j
                <= s@.len(),
            None => parse_scalar_at(s@, i as int) is None,
        },
{
    let n = s.len();
    if i >= n {
        return None;
    }
    let c = s[i];
    if c == '"' {
        match exec_parse_string_body(s, i + 1) {
            None => None,
            Some((t, j)) => Some((ScalarValue::Str(crate::text::string_from_chars(&t)), j)),
        }
    } else if c == '-' || exec_is_ascii_digit(c) {
        match exec_parse_number(s, i) {
            None => None,
            Some((t, j)) => Some((ScalarValue::Num(crate::text::string_from_chars(&t)), j)),
        }
    } else if c == 't' {
        let tok = vec!['t', 'r', 'u', 'e'];
        proof {
            assert(tok@ =~= true_token());
        }
        match exec_parse_token(s, i, &tok) {
            None => None,
            Some(j) => Some((ScalarValue::Bool(true), j)),
        }
    } else if c == 'f' {
        let tok = vec!['f', 'a', 'l', 's', 'e'];
        proof {
            assert(tok@ =~= false_token());
        }
        match exec_parse_token(s, i, &tok) {
            None => None,
            Some(j) => Some((ScalarValue::Bool(false), j)),
        }
    } else if c == 'n' {
        let tok = vec!['n', 'u', 'l', 'l'];
        proof {
            assert(tok@ =~= null_token());
        }
        match exec_parse_token(s, i, &tok) {
            None => None,
            Some(j) => Some((ScalarValue::Null, j)),
        }
    } else {
        None
    }
}

pub fn exec_parse_array_items(s: &Vec<char>, i: usize) -> (r: Option<(Vec<ScalarValue>, usize)>)
    requires
        i <= s@.len(),
    ensures
        match r {
            Some((vs, j)) => parse_array_items(s@, i as int) == Some(
                (vs@.map_values(|v: ScalarValue| v@), j as int),
            ) && i < j <= s@.len(),
            None => parse_array_items(s@, i as int) is None,
        },
{
    let n = s.len();
    let mut p = i;
    let mut acc: Vec<ScalarValue> = Vec::new();
    proof {
        assert(Seq::<ScalarV>::empty() + Seq::<ScalarV>::empty() =~= Seq::<ScalarV>::empty());
    }
    loop
        invariant
            i <= p <= n,
            n == s@.len(),
            parse_array_items(s@, i as int) == (match parse_array_items(s@, p as int) {
                Some((rest, end)) => Some((acc@.map_values(|v: ScalarValue| v@) + rest, end)),
                None => None::<(Seq<ScalarV>, int)>,
            }),
        decreases n - p,
    {
        let sc = exec_parse_scalar(s, p);
        match sc {
            None => {
                return None;
            },
            Some((v, j)) => {
                let k = exec_skip_ws(s, j);
                if k < n && s[k] == ']' {
                    proof {
                        let f = |x: ScalarValue| x@;
                        assert(parse_array_items(s@, p as int) == Some(
                            (seq![v@], k + 1 as int),
                        ));
                        assert(acc@.push(v).map_values(f) =~= acc@.map_values(f) + seq![v@]);
                    }
                    acc.push(v);
                    return Some((acc, k + 1));
                } else if k < n && s[k] == ',' {
                    let m = exec_skip_ws(s, k + 1);
                    proof {
                        let f = |x: ScalarValue| x@;
                        lemma_parse_chain(
                            parse_array_items(s@, i as int),
                            parse_array_items(s@, p as int),
                            parse_array_items(s@, m as int),
                            acc@.map_values(f),
                            v@,
                        );
                        assert(acc@.push(v).map_values(f) =~= acc@.map_values(f).push(v@));
                    }
                    acc.push(v);
                    p = m;
                } else {
                    return None;
                }
            },
        }
    }
}

pub fn exec_parse_array(s: &Vec<char>, i: usize) -> (r: Option<(Vec<ScalarValue>, usize)>)
    requires
        i <= s@.len(),
    ensures
        match r {
            Some((vs, j)) => parse_array_at(s@, i as int) == Some(
                (vs@.map_values(|v: ScalarValue| v@), j as int),
            ) && i < j <= s@.len(),
            None => parse_array_at(s@, i as int) is None,
        },
{
    let n = s.len();
    if i < n && s[i] == '[' {
        let j = exec_skip_ws(s, i + 1);
        if j < n && s[j] == ']' {
            let vs: Vec<ScalarValue> = Vec::new();
            proof {
                assert(vs@.map_values(|v: ScalarValue| v@) =~= Seq::<ScalarV>::empty());
            }
            Some((vs, j + 1))
        } else {
            exec_parse_array_items(s, j)
        }
    } else {
        None
    }
}

pub fn exec_parse_prop_value(s: &Vec<char>, i: usize) -> (r: Option<(PropValue, usize)>)
    requires
        i <= s@.len(),
    ensures
        match r {
            Some((v, j)) => parse_prop_value_at(s@, i as int) == Some((v@, j as int)) && i < j
                <= s@.len(),
            None => parse_prop_value_at(s@, i as int) is None,
        },
{
    let n = s.len();
    if i < n && s[i] == '[' {
        match exec_parse_array(s, i) {
            None => None,
            Some((vs, j)) => Some((PropValue::Arr(vs), j)),
        }
    } else {
        match exec_parse_scalar(s, i) {
            None => None,
            Some((v, j)) => Some((PropValue::Scalar(v), j)),
        }
    }
}

pub fn exec_parse_member(s: &Vec<char>, i: usize) -> (r: Option<(PropEntry, usize)>)
    requires
        i <= s@.len(),
    ensures
        match r {
            Some((e, j)) => parse_member_at(s@, i as int) == Some((e@, j as int)) && i < j
                <= s@.len(),
            None => parse_member_at(s@, i as int) is None,
        },
{
    let n = s.len();
    if !(i < n && s[i] == '"') {
        return None;
    }
    match exec_parse_string_body(s, i + 1) {
        None => None,
        Some((key, j)) => {
            let k = exec_skip_ws(s, j);
            if k < n && s[k] == ':' {
                let m = exec_skip_ws(s, k + 1);
                match exec_parse_prop_value(s, m) {
                    None => None,
                    Some((v, end)) => Some(
                        (
                            PropEntry {
                                key: crate::text::string_from_chars(&key),
                                value: v,
                            },
                            end,
                        ),
                    ),
                }
            } else {
                None
            }
        },
    }
}

pub fn exec_parse_members(s: &Vec<char>, i: usize) -> (r: Option<(PropMap, usize)>)
    requires
        i <= s@.len(),
    ensures
        match r {
            Some((pm, j)) => parse_members(s@, i as int) == Some((pm@, j as int)) && i < j
                <= s@.len(),
            None => parse_members(s@, i as int) is None,
        },
{
    let n = s.len();
    let mut p = i;
    let mut acc: Vec<PropEntry> = Vec::new();
    loop
        invariant
            i <= p <= n,
            n == s@.len(),
            parse_members(s@, i as int) == (match parse_members(s@, p as int) {
                Some((rest, end)) => Some((acc@.map_values(|e: PropEntry| e@) + rest, end)),
                None => None::<(Seq<(Seq<char>, PropValueV)>, int)>,
            }),
        decreases n - p,
    {
        let me = exec_parse_member(s, p);
        match me {
            None => {
                return None;
            },
            Some((e, j)) => {
                let k = exec_skip_ws(s, j);
                if k < n && s[k] == '}' {
                    proof {
                        let f = |x: PropEntry| x@;
                        assert(parse_members(s@, p as int) == Some(
                            (seq![e@], k + 1 as int),
                        ));
                        assert(acc@.push(e).map_values(f) =~= acc@.map_values(f) + seq![e@]);
                    }
                    acc.push(e);
                    return Some((PropMap { entries: acc }, k + 1));
                } else if k < n && s[k] == ',' {
                    let m = exec_skip_ws(s, k + 1);
                    proof {
                        let f = |x: PropEntry| x@;
                        lemma_parse_chain(
                            parse_members(s@, i as int),
                            parse_members(s@, p as int),
                            parse_members(s@, m as int),
                            acc@.map_values(f),
                            e@,
                        );
                        assert(acc@.push(e).map_values(f) =~= acc@.map_values(f).push(e@));
                    }
                    acc.push(e);
                    p = m;
                } else {
                    return None;
                }
            },
        }
    }
}

pub fn exec_parse_props(s: &Vec<char>, i: usize) -> (r: Option<(PropMap, usize)>)
    requires
        i <= s@.len(),
    ensures
        match r {
            Some((pm, j)) => parse_props_at(s@, i as int) == Some((pm@, j as int)) && i < j
                <= s@.len(),
            None => parse_props_at(s@, i as int) is None,
        },
{
    let n = s.len();
    if i < n && s[i] == '{' {
        let j = exec_skip_ws(s, i + 1);
        if j < n && s[j] == '}' {
            let pm = PropMap { entries: Vec::new() };
            proof {
                assert(pm@ =~= Seq::<(Seq<char>, PropValueV)>::empty());
            }
            Some((pm, j + 1))
        } else {
            exec_parse_members(s, j)
        }
    } else {
        None
    }
}

/// A top-level member value of the payload object.
pub enum TopValue {
    Val(PropValue),
    Obj(PropMap),
}

impl View for TopValue {
    type V = TopValueV;

    open spec fn view(&self) -> TopValueV {
        match self {
            TopValue::Val(v) => TopValueV::Val(v@),
            TopValue::Obj(pm) => TopValueV::Obj(pm@),
        }
    }
}

/// One member of the payload object.
pub struct TopEntry {
    pub key: String,
    pub value: TopValue,
}

impl View for TopEntry {
    type V = (Seq<char>, TopValueV);

    open spec fn view(&self) -> (Seq<char>, TopValueV) {
        (self.key@, self.value@)
    }
}

pub fn exec_parse_top_value(s: &Vec<char>, i: usize) -> (r: Option<(TopValue, usize)>)
    requires
        i <= s@.len(),
    ensures
        match r {
            Some((v, j)) => parse_top_value_at(s@, i as int) == Some((v@, j as int)) && i < j
                <= s@.len(),
            None => parse_top_value_at(s@, i as int) is None,
        },
{
    let n = s.len();
    if i < n && s[i] == '{' {
        match exec_parse_props(s, i) {
            None => None,
            Some((pm, j)) => Some((TopValue::Obj(pm), j)),
        }
    } else {
        match exec_parse_prop_value(s, i) {
            None => None,
            Some((v, j)) => Some((TopValue::Val(v), j)),
        }
    }
}

pub fn exec_parse_top_member(s: &Vec<char>, i: usize) -> (r: Option<(TopEntry, usize)>)
    requires
        i <= s@.len(),
    ensures
        match r {
            Some((e, j)) => parse_top_member_at(s@, i as int) == Some((e@, j as int)) && i < j
                <= s@.len(),
            None => parse_top_member_at(s@, i as int) is None,
        },
{
    let n = s.len();
    if !(i < n && s[i] == '"') {
        return None;
    }
    match exec_parse_string_body(s, i + 1) {
        None => None,
        Some((key, j)) => {
            let k = exec_skip_ws(s, j);
            if k < n && s[k] == ':' {
                let m = exec_skip_ws(s, k + 1);
                match exec_parse_top_value(s, m) {
                    None => None,
                    Some((v, end)) => Some(
                        (
                            TopEntry {
                                key: crate::text::string_from_chars(&key),
                                value: v,
                            },
                            end,
                        ),
                    ),
                }
            } else {
                None
            }
        },
    }
}

pub fn exec_parse_top_members(s: &Vec<char>, i: usize) -> (r: Option<(Vec<TopEntry>, usize)>)
    requires
        i <= s@.len(),
    ensures
        match r {
            Some((ms, j)) => parse_top_members(s@, i as int) == Some(
                (ms@.map_values(|e: TopEntry| e@), j as int),
            ) && i < j <= s@.len(),
            None => parse_top_members(s@, i as int) is None,
        },
{
    let n = s.len();
    let mut p = i;
    let mut acc: Vec<TopEntry> = Vec::new();
    loop
        invariant
            i <= p <= n,
            n == s@.len(),
            parse_top_members(s@, i as int) == (match parse_top_members(s@, p as int) {
                Some((rest, end)) => Some((acc@.map_values(|e: TopEntry| e@) + rest, end)),
                None => None::<(Seq<(Seq<char>, TopValueV)>, int)>,
            }),
        decreases n - p,
    {
        let me = exec_parse_top_member(s, p);
        match me {
            None => {
                return None;
            },
            Some((e, j)) => {
                let k = exec_skip_ws(s, j);
                if k < n && s[k] == '}' {
                    proof {
                        let f = |x: TopEntry| x@;
                        assert(parse_top_members(s@, p as int) == Some((seq![e@], k + 1 as int)));
                        assert(acc@.push(e).map_values(f) =~= acc@.map_values(f) + seq![e@]);
                    }
                    acc.push(e);
                    return Some((acc, k + 1));
                } else if k < n && s[k] == ',' {
                    let m = exec_skip_ws(s, k + 1);
                    proof {
                        let f = |x: TopEntry| x@;
                        lemma_parse_chain(
                            parse_top_members(s@, i as int),
                            parse_top_members(s@, p as int),
                            parse_top_members(s@, m as int),
                            acc@.map_values(f),
                            e@,
                        );
                        assert(acc@.push(e).map_values(f) =~= acc@.map_values(f).push(e@));
                    }
                    acc.push(e);
                    p = m;
                } else {
                    return None;
                }
            },
        }
    }
}

pub fn exec_parse_top_object(s: &Vec<char>, i: usize) -> (r: Option<(Vec<TopEntry>, usize)>)
    requires
        i <= s@.len(),
    ensures
        match r {
            Some((ms, j)) => parse_top_object_at(s@, i as int) == Some(
                (ms@.map_values(|e: TopEntry| e@), j as int),
            ) && i < j <= s@.len(),
            None => parse_top_object_at(s@, i as int) is None,
        },
{
    let n = s.len();
    if i < n && s[i] == '{' {
        let j = exec_skip_ws(s, i + 1);
        if j < n && s[j] == '}' {
            let ms: Vec<TopEntry> = Vec::new();
            proof {
                assert(ms@.map_values(|e: TopEntry| e@) =~= Seq::<(Seq<char>, TopValueV)>::empty());
            }
            Some((ms, j + 1))
        } else {
            exec_parse_top_members(s, j)
        }
    } else {
        None
    }
}

/// The first payload member with the given key.
pub fn exec_find_top<'a>(ms: &'a Vec<TopEntry>, key: &str) -> (r: Option<&'a TopValue>)
    ensures
        match r {
            Some(v) => find_top(ms@.map_values(|e: TopEntry| e@), key@) == Some(v@),
            None => find_top(ms@.map_values(|e: TopEntry| e@), key@) is None,
        },
{
    let n = ms.len();
    let ghost msv = ms@.map_values(|e: TopEntry| e@);
    let mut i: usize = 0;
    proof {
        assert(msv.skip(0) =~= msv);
    }
    while i < n
        invariant
            i <= n,
            n == ms@.len(),
            msv == ms@.map_values(|e: TopEntry| e@),
            find_top(msv, key@) == find_top(msv.skip(i as int), key@),
        decreases n - i,
    {
        proof {
            assert(msv.skip(i as int)[0] == msv[i as int]);
        }
        if crate::text::str_eq(ms[i].key.as_str(), key) {
            return Some(&ms[i].value);
        }
        proof {
            assert(msv.skip(i as int).drop_first() =~= msv.skip(i + 1 as int));
        }
        i = i + 1;
    }
    proof {
        assert(msv.skip(n as int) =~= Seq::<(Seq<char>, TopValueV)>::empty());
    }
    None
}

pub(crate) fn clone_scalar(v: &ScalarValue) -> (r: ScalarValue)
    ensures
        r@ == v@,
{
    match v {
        ScalarValue::Str(s) => ScalarValue::Str(s.clone()),
        ScalarValue::Num(t) => ScalarValue::Num(t.clone()),
        ScalarValue::Bool(b) => ScalarValue::Bool(*b),
        ScalarValue::Null => ScalarValue::Null,
    }
}

pub(crate) fn clone_prop_value(v: &PropValue) -> (r: PropValue)
    ensures
        r@ == v@,
{
    match v {
        PropValue::Scalar(sc) => PropValue::Scalar(clone_scalar(sc)),
        PropValue::Arr(vs) => {
            let n = vs.len();
            let mut out: Vec<ScalarValue> = Vec::new();
            let mut i: usize = 0;
            while i < n
                invariant
                    i <= n,
                    n == vs@.len(),
                    out@.map_values(|x: ScalarValue| x@) =~= vs@.subrange(0, i as int).map_values(
                        |x: ScalarValue| x@,
                    ),
                decreases n - i,
            {
                let c = clone_scalar(&vs[i]);
                let ghost old_out = out@;
                out.push(c);
                proof {
                    let f = |x: ScalarValue| x@;
                    assert(old_out.len() == i) by {
                        assert(old_out.map_values(f).len() == old_out.len());
                        assert(vs@.subrange(0, i as int).map_values(f).len() == i);
                    }
                    assert(out@ == old_out.push(c));
                    assert(out@.len() == i + 1);
                    assert forall|q: int| 0 <= q < i + 1 implies out@.map_values(f)[q]
                        == vs@.subrange(0, i + 1 as int).map_values(f)[q] by {
                        assert(out@.map_values(f)[q] == f(out@[q]));
                        assert(vs@.subrange(0, i + 1 as int).map_values(f)[q] == f(vs@[q]));
                        if q < i {
                            assert(out@[q] == old_out[q]);
                            assert(old_out.map_values(f)[q] == f(old_out[q]));
                            assert(vs@.subrange(0, i as int).map_values(f)[q] == f(
                                vs@.subrange(0, i as int)[q],
                            ));
                        } else {
                            assert(out@[q] == c);
                        }
                    }
                    assert(out@.map_values(f) =~= vs@.subrange(0, i + 1 as int).map_values(f));
                }
                i = i + 1;
            }
            proof {
                assert(vs@.subrange(0, n as int) =~= vs@);
            }
            PropValue::Arr(out)
        },
    }
}

/// An exact copy of a property map.
pub fn clone_prop_map(m: &PropMap) -> (r: PropMap)
    ensures
        r@ == m@,
{
    let n = m.entries.len();
    let mut out: Vec<PropEntry> = Vec::new();
    let mut i: usize = 0;
    while i < n
        invariant
            i <= n,
            n == m.entries@.len(),
            out@.map_values(|e: PropEntry| e@) =~= m.entries@.subrange(0, i as int).map_values(
                |e: PropEntry| e@,
            ),
        decreases n - i,
    {
        let e = PropEntry {
            key: m.entries[i].key.clone(),
            value: clone_prop_value(&m.entries[i].value),
        };
        let ghost ev = e@;
        let ghost old_out = out@;
        out.push(e);
        proof {
            let f = |x: PropEntry| x@;
            assert(ev == m.entries@[i as int]@);
            assert(old_out.len() == i) by {
                assert(old_out.map_values(f).len() == old_out.len());
                assert(m.entries@.subrange(0, i as int).map_values(f).len() == i);
            }
            assert(out@.len() == i + 1);
            assert forall|q: int| 0 <= q < i + 1 implies out@.map_values(f)[q]
                == m.entries@.subrange(0, i + 1 as int).map_values(f)[q] by {
                assert(out@.map_values(f)[q] == f(out@[q]));
                assert(m.entries@.subrange(0, i + 1 as int).map_values(f)[q] == f(m.entries@[q]));
                if q < i {
                    assert(out@[q] == old_out[q]);
                    assert(old_out.map_values(f)[q] == f(old_out[q]));
                    assert(m.entries@.subrange(0, i as int).map_values(f)[q] == f(
                        m.entries@.subrange(0, i as int)[q],
                    ));
                } else {
                    assert(out@[q]@ == ev);
                }
            }
            assert(out@.map_values(f) =~= m.entries@.subrange(0, i + 1 as int).map_values(f));
        }
        i = i + 1;
    }
    proof {
        assert(m.entries@.subrange(0, n as int) =~= m.entries@);
        assert(PropMap { entries: out }@ == m@);
    }
    PropMap { entries: out }
}

/// Parse a whole vertex payload: the label and the properties of the one
/// object the text holds.
pub fn exec_parse_vertex_payload(s: &Vec<char>) -> (r: Option<(String, PropMap)>)
    ensures
        match r {
            Some((l, pm)) => parse_vertex_payload(s@) == Some((l@, pm@)),
            None => parse_vertex_payload(s@) is None,
        },
{
    let i = exec_skip_ws(s, 0);
    match exec_parse_top_object(s, i) {
        None => None,
        Some((ms, j)) => {
            let k = exec_skip_ws(s, j);
            if k != s.len() {
                return None;
            }
            let label_member = exec_find_top(&ms, "label");
            proof {
                reveal_strlit("label");
                assert("label"@ =~= label_key());
            }
            match label_member {
                Some(TopValue::Val(PropValue::Scalar(ScalarValue::Str(l)))) => {
                    let props_member = exec_find_top(&ms, "properties");
                    proof {
                        reveal_strlit("properties");
                        assert("properties"@ =~= properties_key());
                    }
                    match props_member {
                        Some(TopValue::Obj(pm)) => {
                            let lc = l.clone();
                            let pmc = clone_prop_map(pm);
                            Some((lc, pmc))
                        },
                        _ => None,
                    }
                },
                _ => None,
            }
        },
    }
}

} // verus!
