//! The canonical encoding of property values back into payload text: the
//! inverse of the parser on well-formed values. Strings are quoted with
//! quote, backslash and control characters escaped; numbers keep their
//! token text; members and elements are joined with commas and no spaces.

use vstd::prelude::*;
use crate::json::{ScalarV, PropValueV, ScalarValue, PropValue, PropEntry, PropMap};
use crate::text::{str_chars, string_from_chars};

verus! {

/// The lowercase hexadecimal digit of a value below 16.
pub open spec fn hex_digit_char(n: int) -> char {
    if n == 0 {
        '0'
    } else if n == 1 {
        '1'
    } else if n == 2 {
        '2'
    } else if n == 3 {
        '3'
    } else if n == 4 {
        '4'
    } else if n == 5 {
        '5'
    } else if n == 6 {
        '6'
    } else if n == 7 {
        '7'
    } else if n == 8 {
        '8'
    } else if n == 9 {
        '9'
    } else if n == 10 {
        'a'
    } else if n == 11 {
        'b'
    } else if n == 12 {
        'c'
    } else if n == 13 {
        'd'
    } else if n == 14 {
        'e'
    } else {
        'f'
    }
}

/// The encoding of one character inside a string body: quote and backslash
/// get a backslash escape, control characters a `\u00..` escape, everything
/// else stands for itself.
pub open spec fn encode_char(c: char) -> Seq<char> {
    if c == '"' {
        seq!['\\', '"']
    } else if c == '\\' {
        seq!['\\', '\\']
    } else if (c as u32) < 0x20 {
        seq!['\\', 'u', '0', '0', hex_digit_char(((c as u32) / 16) as int), hex_digit_char(((c as u32) % 16) as int)]
    } else {
        seq![c]
    }
}

/// The encoded body of a string, character by character.
pub open spec fn encode_string_body(s: Seq<char>) -> Seq<char>
    decreases s.len(),
{
    if s.len() == 0 {
        Seq::empty()
    } else {
        encode_char(s[0]) + encode_string_body(s.drop_first())
    }
}

/// A quoted, escaped string.
pub open spec fn encode_json_string(s: Seq<char>) -> Seq<char> {
    seq!['"'] + encode_string_body(s) + seq!['"']
}

/// The encoding of a scalar.
pub open spec fn encode_scalar(v: ScalarV) -> Seq<char> {
    match v {
        ScalarV::Str(s) => encode_json_string(s),
        ScalarV::Num(t) => t,
        ScalarV::Bool(b) => if b {
            crate::json_parse::true_token()
        } else {
            crate::json_parse::false_token()
        },
        ScalarV::Null => crate::json_parse::null_token(),
    }
}

/// The comma-joined elements of a non-empty array.
pub open spec fn encode_array_items(vs: Seq<ScalarV>) -> Seq<char>
    decreases vs.len(),
{
    if vs.len() == 0 {
        Seq::empty()
    } else if vs.len() == 1 {
        encode_scalar(vs[0])
    } else {
        encode_scalar(vs[0]) + seq![','] + encode_array_items(vs.drop_first())
    }
}

/// A bracketed array.
pub open spec fn encode_array(vs: Seq<ScalarV>) -> Seq<char> {
    seq!['['] + encode_array_items(vs) + seq![']']
}

/// The encoding of a property value.
pub open spec fn encode_prop_value(v: PropValueV) -> Seq<char> {
    match v {
        PropValueV::Scalar(sc) => encode_scalar(sc),
        PropValueV::Arr(vs) => encode_array(vs),
    }
}

/// One `"key":value` member.
pub open spec fn encode_member(e: (Seq<char>, PropValueV)) -> Seq<char> {
    encode_json_string(e.0) + seq![':'] + encode_prop_value(e.1)
}

/// The comma-joined members of a non-empty object.
pub open spec fn encode_members(ms: Seq<(Seq<char>, PropValueV)>) -> Seq<char>
    decreases ms.len(),
{
    if ms.len() == 0 {
        Seq::empty()
    } else if ms.len() == 1 {
        encode_member(ms[0])
    } else {
        encode_member(ms[0]) + seq![','] + encode_members(ms.drop_first())
    }
}

/// A braced property object.
pub open spec fn encode_props(ms: Seq<(Seq<char>, PropValueV)>) -> Seq<char> {
    seq!['{'] + encode_members(ms) + seq!['}']
}

/// Appending one character extends the encoded body at its end.
pub proof fn lemma_encode_body_snoc(s: Seq<char>, c: char)
    ensures
        encode_string_body(s.push(c)) == encode_string_body(s) + encode_char(c),
    decreases s.len(),
{
    if s.len() == 0 {
        assert(s.push(c)[0] == c);
        assert(s.push(c).drop_first() =~= Seq::<char>::empty());
        assert(encode_string_body(s.push(c)) == encode_char(c) + encode_string_body(
            Seq::<char>::empty(),
        ));
        assert(encode_char(c) + encode_string_body(Seq::<char>::empty()) =~= encode_char(c));
        assert(encode_string_body(s) + encode_char(c) =~= encode_char(c));
    } else {
        assert(s.push(c).drop_first() =~= s.drop_first().push(c));
        lemma_encode_body_snoc(s.drop_first(), c);
        assert(s.push(c)[0] == s[0]);
        assert(encode_string_body(s.push(c)) == encode_char(s[0]) + (encode_string_body(
            s.drop_first(),
        ) + encode_char(c)));
        assert(encode_char(s[0]) + (encode_string_body(s.drop_first()) + encode_char(c)) =~= (
        encode_char(s[0]) + encode_string_body(s.drop_first())) + encode_char(c));
    }
}

/// Appending one element extends the joined array items at their end.
pub proof fn lemma_encode_items_snoc(vs: Seq<ScalarV>, v: ScalarV)
    ensures
        encode_array_items(vs.push(v)) == if vs.len() == 0 {
            encode_scalar(v)
        } else {
            encode_array_items(vs) + seq![','] + encode_scalar(v)
        },
    decreases vs.len(),
{
    if vs.len() == 0 {
        assert(vs.push(v)[0] == v);
        assert(vs.push(v).len() == 1);
        assert(encode_array_items(vs.push(v)) == encode_scalar(v));
    } else {
        assert(vs.push(v).drop_first() =~= vs.drop_first().push(v));
        lemma_encode_items_snoc(vs.drop_first(), v);
        assert(vs.push(v)[0] == vs[0]);
        if vs.len() == 1 {
            assert(encode_array_items(vs.push(v)) == encode_scalar(vs[0]) + seq![',']
                + encode_scalar(v));
            assert(encode_array_items(vs) == encode_scalar(vs[0]));
        } else {
            assert(encode_array_items(vs.push(v)) == encode_scalar(vs[0]) + seq![','] + (
            encode_array_items(vs.drop_first()) + seq![','] + encode_scalar(v)));
            assert(encode_scalar(vs[0]) + seq![','] + (encode_array_items(vs.drop_first())
                + seq![','] + encode_scalar(v)) =~= (encode_scalar(vs[0]) + seq![',']
                + encode_array_items(vs.drop_first())) + seq![','] + encode_scalar(v));
        }
    }
}

/// Appending one member extends the joined members at their end.
pub proof fn lemma_encode_members_snoc(ms: Seq<(Seq<char>, PropValueV)>, e: (Seq<char>, PropValueV))
    ensures
        encode_members(ms.push(e)) == if ms.len() == 0 {
            encode_member(e)
        } else {
            encode_members(ms) + seq![','] + encode_member(e)
        },
    decreases ms.len(),
{
    if ms.len() == 0 {
        assert(ms.push(e)[0] == e);
        assert(ms.push(e).len() == 1);
        assert(encode_members(ms.push(e)) == encode_member(e));
    } else {
        assert(ms.push(e).drop_first() =~= ms.drop_first().push(e));
        lemma_encode_members_snoc(ms.drop_first(), e);
        assert(ms.push(e)[0] == ms[0]);
        if ms.len() == 1 {
            assert(encode_members(ms.push(e)) == encode_member(ms[0]) + seq![','] + encode_member(
                e,
            ));
            assert(encode_members(ms) == encode_member(ms[0]));
        } else {
            assert(encode_members(ms.push(e)) == encode_member(ms[0]) + seq![','] + (
            encode_members(ms.drop_first()) + seq![','] + encode_member(e)));
            assert(encode_member(ms[0]) + seq![','] + (encode_members(ms.drop_first()) + seq![',']
                + encode_member(e)) =~= (encode_member(ms[0]) + seq![','] + encode_members(
                ms.drop_first(),
            )) + seq![','] + encode_member(e));
        }
    }
}

fn emit_encoded_char(out: &mut Vec<char>, c: char)
    ensures
        final(out)@ == old(out)@ + encode_char(c),
{
    if c == '"' {
        out.push('\\');
        out.push('"');
    } else if c == '\\' {
        out.push('\\');
        out.push('\\');
    } else if (c as u32) < 0x20 {
        let v = c as u32;
        out.push('\\');
        out.push('u');
        out.push('0');
        out.push('0');
        out.push(exec_hex_digit_char(v / 16));
        out.push(exec_hex_digit_char(v % 16));
    } else {
        out.push(c);
    }
    proof {
        assert(final(out)@ =~= old(out)@ + encode_char(c));
    }
}

fn exec_hex_digit_char(n: u32) -> (r: char)
    requires
        n < 16,
    ensures
        r == hex_digit_char(n as int),
{
    if n == 0 {
        '0'
    } else if n == 1 {
        '1'
    } else if n == 2 {
        '2'
    } else if n == 3 {
        '3'
    } else if n == 4 {
        '4'
    } else if n == 5 {
        '5'
    } else if n == 6 {
        '6'
    } else if n == 7 {
        '7'
    } else if n == 8 {
        '8'
    } else if n == 9 {
        '9'
    } else if n == 10 {
        'a'
    } else if n == 11 {
        'b'
    } else if n == 12 {
        'c'
    } else if n == 13 {
        'd'
    } else if n == 14 {
        'e'
    } else {
        'f'
    }
}

/// Append the quoted, escaped form of `s`.
fn emit_json_string(out: &mut Vec<char>, s: &str)
    ensures
        final(out)@ == old(out)@ + encode_json_string(s@),
{
    let cs = str_chars(s);
    out.push('"');
    let n = cs.len();
    let mut i: usize = 0;
    while i < n
        invariant
            i <= n,
            n == cs@.len(),
            cs@ == s@,
            out@ == old(out)@ + seq!['"'] + encode_string_body(s@.subrange(0, i as int)),
        decreases n - i,
    {
        proof {
            assert(s@.subrange(0, i as int).push(s@[i as int]) =~= s@.subrange(0, i + 1 as int));
            lemma_encode_body_snoc(s@.subrange(0, i as int), s@[i as int]);
        }
        emit_encoded_char(out, cs[i]);
        proof {
            assert(out@ =~= old(out)@ + seq!['"'] + encode_string_body(
                s@.subrange(0, i + 1 as int),
            ));
        }
        i = i + 1;
    }
    out.push('"');
    proof {
        assert(s@.subrange(0, n as int) =~= s@);
        assert(out@ =~= old(out)@ + encode_json_string(s@));
    }
}

/// Append the encoding of a scalar.
fn emit_scalar(out: &mut Vec<char>, v: &ScalarValue)
    ensures
        final(out)@ == old(out)@ + encode_scalar(v@),
{
    match v {
        ScalarValue::Str(s) => {
            emit_json_string(out, s.as_str());
        },
        ScalarValue::Num(t) => {
            let cs = str_chars(t.as_str());
            let n = cs.len();
            let mut i: usize = 0;
            while i < n
                invariant
                    i <= n,
                    n == cs@.len(),
                    cs@ == t@,
                    out@ == old(out)@ + t@.subrange(0, i as int),
                decreases n - i,
            {
                out.push(cs[i]);
                proof {
                    assert(out@ =~= old(out)@ + t@.subrange(0, i + 1 as int));
                }
                i = i + 1;
            }
            proof {
                assert(t@.subrange(0, n as int) =~= t@);
            }
        },
        ScalarValue::Bool(b) => {
            if *b {
                out.push('t');
                out.push('r');
                out.push('u');
                out.push('e');
                proof {
                    assert(out@ =~= old(out)@ + crate::json_parse::true_token());
                }
            } else {
                out.push('f');
                out.push('a');
                out.push('l');
                out.push('s');
                out.push('e');
                proof {
                    assert(out@ =~= old(out)@ + crate::json_parse::false_token());
                }
            }
        },
        ScalarValue::Null => {
            out.push('n');
            out.push('u');
            out.push('l');
            out.push('l');
            proof {
                assert(out@ =~= old(out)@ + crate::json_parse::null_token());
            }
        },
    }
}

/// Append the encoding of a property value.
fn emit_prop_value(out: &mut Vec<char>, v: &PropValue)
    ensures
        final(out)@ == old(out)@ + encode_prop_value(v@),
{
    match v {
        PropValue::Scalar(sc) => {
            emit_scalar(out, sc);
        },
        PropValue::Arr(vs) => {
            out.push('[');
            let n = vs.len();
            let ghost vsv = vs@.map_values(|x: ScalarValue| x@);
            let mut i: usize = 0;
            while i < n
                invariant
                    i <= n,
                    n == vs@.len(),
                    vsv == vs@.map_values(|x: ScalarValue| x@),
                    out@ == old(out)@ + seq!['['] + encode_array_items(vsv.subrange(0, i as int)),
                decreases n - i,
            {
                if i > 0 {
                    out.push(',');
                }
                emit_scalar(out, &vs[i]);
                proof {
                    assert(vsv.subrange(0, i as int).push(vsv[i as int]) =~= vsv.subrange(
                        0,
                        i + 1 as int,
                    ));
                    lemma_encode_items_snoc(vsv.subrange(0, i as int), vsv[i as int]);
                    assert(vsv[i as int] == vs@[i as int]@);
                    assert(out@ =~= old(out)@ + seq!['['] + encode_array_items(
                        vsv.subrange(0, i + 1 as int),
                    ));
                }
                i = i + 1;
            }
            out.push(']');
            proof {
                assert(vsv.subrange(0, n as int) =~= vsv);
                assert(out@ =~= old(out)@ + encode_array(vsv));
            }
        },
    }
}

/// Append the encoding of a whole property map.
fn emit_props(out: &mut Vec<char>, m: &PropMap)
    ensures
        final(out)@ == old(out)@ + encode_props(m@),
{
    out.push('{');
    let n = m.entries.len();
    let ghost mv = m@;
    let mut i: usize = 0;
    while i < n
        invariant
            i <= n,
            n == m.entries@.len(),
            mv == m@,
            out@ == old(out)@ + seq!['{'] + encode_members(mv.subrange(0, i as int)),
        decreases n - i,
    {
        if i > 0 {
            out.push(',');
        }
        emit_json_string(out, m.entries[i].key.as_str());
        out.push(':');
        emit_prop_value(out, &m.entries[i].value);
        proof {
            assert(mv.subrange(0, i as int).push(mv[i as int]) =~= mv.subrange(0, i + 1 as int));
            lemma_encode_members_snoc(mv.subrange(0, i as int), mv[i as int]);
            assert(mv[i as int] == m.entries@[i as int]@);
            assert(encode_member(mv[i as int]) == encode_json_string(m.entries@[i as int].key@)
                + seq![':'] + encode_prop_value(m.entries@[i as int].value@));
            assert(out@ =~= old(out)@ + seq!['{'] + encode_members(mv.subrange(0, i + 1 as int)));
        }
        i = i + 1;
    }
    out.push('}');
    proof {
        assert(mv.subrange(0, n as int) =~= mv);
        assert(out@ =~= old(out)@ + encode_props(mv));
    }
}

/// The encoded property object as a string.
pub fn encode_props_string(m: &PropMap) -> (r: String)
    ensures
        r@ == encode_props(m@),
{
    let mut out: Vec<char> = Vec::new();
    emit_props(&mut out, m);
    proof {
        assert(Seq::<char>::empty() + encode_props(m@) =~= encode_props(m@));
    }
    string_from_chars(&out)
}

/// The payload text of a vertex: an object with the label and the
/// properties, in that member order and without spaces.
pub open spec fn encode_vertex_payload(label: Seq<char>, props: Seq<(Seq<char>, PropValueV)>) -> Seq<
    char,
> {
    seq!['{'] + encode_json_string(crate::json_parse::label_key()) + seq![':']
        + encode_json_string(label) + seq![','] + encode_json_string(
        crate::json_parse::properties_key(),
    ) + seq![':'] + encode_props(props) + seq!['}']
}

/// Render the payload text of a vertex.
pub fn exec_encode_vertex_payload(label: &str, props: &PropMap) -> (r: String)
    ensures
        r@ == encode_vertex_payload(label@, props@),
{
    let mut out: Vec<char> = Vec::new();
    out.push('{');
    emit_json_string(&mut out, "label");
    out.push(':');
    emit_json_string(&mut out, label);
    out.push(',');
    emit_json_string(&mut out, "properties");
    out.push(':');
    emit_props(&mut out, props);
    out.push('}');
    proof {
        reveal_strlit("label");
        reveal_strlit("properties");
        assert("label"@ =~= crate::json_parse::label_key());
        assert("properties"@ =~= crate::json_parse::properties_key());
        assert(out@ =~= encode_vertex_payload(label@, props@));
    }
    string_from_chars(&out)
}

} // verus!
