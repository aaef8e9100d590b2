//! The round trip at the heart of the wire format: encoding a vertex and
//! decoding the result gives back exactly the label and the property map.
//! The proof walks the grammar: each encoded piece, embedded at any
//! position and followed by any delimiter, parses back to the value it
//! encodes.

use vstd::prelude::*;
use crate::text::is_ascii_digit;
use crate::json::{ScalarV, PropValueV, digits_end, parse_number_at, is_number_text, scalar_wf,
    prop_value_wf, prop_map_wf};
use crate::json_parse::{parse_string_body, parse_string_at, parse_hex4, parse_token, parse_scalar_at,
    parse_array_items, parse_array_at, parse_prop_value_at, parse_member_at, parse_members,
    parse_props_at, parse_top_value_at, parse_top_member_at, parse_top_members,
    parse_top_object_at, parse_vertex_payload, find_top, skip_ws, simple_escape, hex_val,
    is_hex_digit, is_high_surrogate, is_low_surrogate, true_token, false_token, null_token,
    label_key, properties_key, TopValueV};
use crate::json_encode::{encode_char, encode_string_body, encode_json_string, encode_scalar,
    encode_array_items, encode_array, encode_prop_value, encode_member, encode_members,
    encode_props, encode_vertex_payload, hex_digit_char};

verus! {

/// A character that could extend a number token.
pub open spec fn num_cont_char(c: char) -> bool {
    is_ascii_digit(c) || c == '.' || c == 'e' || c == 'E' || c == '+' || c == '-'
}

/// A delimiter that may follow an encoded value: a comma, a closing brace
/// or a closing bracket.
pub open spec fn delim_char(c: char) -> bool {
    c == ',' || c == '}' || c == ']'
}

proof fn lemma_hex_digit_val(d: int)
    requires
        0 <= d < 16,
    ensures
        hex_val(hex_digit_char(d)) == d,
        is_hex_digit(hex_digit_char(d)),
{
}

/// An encoded string body at any position, closed by its quote, parses
/// back to the text it encodes.
proof fn lemma_parse_body_of_encoded(prefix: Seq<char>, text: Seq<char>, suffix: Seq<char>)
    ensures
        parse_string_body(
            prefix + encode_string_body(text) + seq!['"'] + suffix,
            prefix.len() as int,
        ) == Some((text, (prefix.len() + encode_string_body(text).len() + 1) as int)),
    decreases text.len(),
{
    let s = prefix + encode_string_body(text) + seq!['"'] + suffix;
    let p = prefix.len() as int;
    if text.len() == 0 {
        assert(encode_string_body(text) =~= Seq::<char>::empty());
        assert(s =~= prefix + seq!['"'] + suffix);
        assert(s[p] == '"');
        assert(parse_string_body(s, p) == Some((Seq::<char>::empty(), p + 1)));
        assert(text =~= Seq::<char>::empty());
    } else {
        let c = text[0];
        let rest = text.drop_first();
        assert(encode_string_body(text) == encode_char(c) + encode_string_body(rest));
        let prefix2 = prefix + encode_char(c);
        lemma_parse_body_of_encoded(prefix2, rest, suffix);
        assert(prefix2 + encode_string_body(rest) + seq!['"'] + suffix =~= s);
        let p2 = prefix2.len() as int;
        let inner = parse_string_body(s, p2);
        assert(inner == Some(
            (rest, (prefix2.len() + encode_string_body(rest).len() + 1) as int),
        ));
        assert(forall|k: int|
            0 <= k < encode_char(c).len() ==> #[trigger] s[p + k] == encode_char(c)[k]) by {
            assert(s =~= prefix2 + (encode_string_body(rest) + seq!['"'] + suffix));
        }
        if c == '"' {
            assert(s[p] == '\\' && s[p + 1] == '"');
            assert(simple_escape(s[p + 1]) == Some('"'));
            assert(parse_string_body(s, p) == Some((seq![c] + rest, p2 + encode_string_body(
                rest,
            ).len() + 1)));
        } else if c == '\\' {
            assert(s[p] == '\\' && s[p + 1] == '\\');
            assert(simple_escape(s[p + 1]) == Some('\\'));
            assert(parse_string_body(s, p) == Some((seq![c] + rest, p2 + encode_string_body(
                rest,
            ).len() + 1)));
        } else if (c as u32) < 0x20 {
            assert(s[p] == '\\' && s[p + 1] == 'u' && s[p + 2] == '0' && s[p + 3] == '0');
            let cv = (c as u32) as int;
            let hi = ((c as u32) / 16) as int;
            let lo = ((c as u32) % 16) as int;
            assert(0 <= hi < 2 && 0 <= lo < 16 && hi * 16 + lo == cv);
            assert(s[p + 4] == hex_digit_char(hi) && s[p + 5] == hex_digit_char(lo));
            lemma_hex_digit_val(hi);
            lemma_hex_digit_val(lo);
            assert(hex_val('0') == 0);
            assert(is_hex_digit('0'));
            assert(parse_hex4(s, p + 2) == Some((cv, p + 6)));
            assert(!is_high_surrogate(cv) && !is_low_surrogate(cv));
            vstd::utf8::char_u32_cast(c, c as u32);
            assert((cv as char) == c);
            assert(parse_string_body(s, p) == Some((seq![c] + rest, p2 + encode_string_body(
                rest,
            ).len() + 1)));
        } else {
            assert(encode_char(c) =~= seq![c]);
            assert(s[p] == c);
            assert(c != '"' && c != '\\' && !((c as u32) < 0x20));
            assert(parse_string_body(s, p) == Some((seq![c] + rest, p2 + encode_string_body(
                rest,
            ).len() + 1)));
        }
        assert(seq![c] + rest =~= text);
        assert(p2 + encode_string_body(rest).len() + 1 == p + encode_string_body(text).len() + 1);
    }
}

/// An encoded string at any position parses back to the text it encodes.
proof fn lemma_parse_string_of_encoded(prefix: Seq<char>, text: Seq<char>, suffix: Seq<char>)
    ensures
        parse_string_at(prefix + encode_json_string(text) + suffix, prefix.len() as int) == Some(
            (text, (prefix.len() + encode_json_string(text).len()) as int),
        ),
{
    let s = prefix + encode_json_string(text) + suffix;
    let p = prefix.len() as int;
    assert(s =~= (prefix + seq!['"']) + encode_string_body(text) + seq!['"'] + suffix);
    lemma_parse_body_of_encoded(prefix + seq!['"'], text, suffix);
    assert(s[p] == '"') by {
        assert(s =~= prefix + (encode_json_string(text) + suffix));
        assert(encode_json_string(text)[0] == '"');
    }
    assert((prefix + seq!['"']).len() == p + 1);
    assert(parse_string_body(s, p + 1) == Some(
        (text, (p + 1 + encode_string_body(text).len() + 1) as int),
    ));
    assert(encode_json_string(text).len() == encode_string_body(text).len() + 2);
}

/// A digit run inside an embedded text ends where the text's own run ends,
/// as long as the text is not followed by another digit.
proof fn lemma_digits_end_embed(prefix: Seq<char>, t: Seq<char>, suffix: Seq<char>, k: int)
    requires
        0 <= k <= t.len(),
        suffix.len() == 0 || !is_ascii_digit(suffix[0]),
    ensures
        digits_end(prefix + t + suffix, prefix.len() + k) == prefix.len() + digits_end(t, k),
    decreases t.len() - k,
{
    let s = prefix + t + suffix;
    let p = prefix.len() as int;
    assert(s =~= prefix + (t + suffix));
    if k < t.len() {
        assert(s[p + k] == t[k]);
        if is_ascii_digit(t[k]) {
            lemma_digits_end_embed(prefix, t, suffix, k + 1);
        }
    } else {
        if suffix.len() > 0 {
            assert(s[p + k] == suffix[0]);
        }
    }
}

/// A whole number token, embedded at any position and followed by nothing
/// that could extend it, parses back to itself.
proof fn lemma_parse_number_embed(prefix: Seq<char>, t: Seq<char>, suffix: Seq<char>)
    requires
        is_number_text(t),
        suffix.len() == 0 || !num_cont_char(suffix[0]),
    ensures
        parse_number_at(prefix + t + suffix, prefix.len() as int) == Some(
            (t, (prefix.len() + t.len()) as int),
        ),
{
    let s = prefix + t + suffix;
    let p = prefix.len() as int;
    let n = t.len() as int;
    assert(s =~= prefix + (t + suffix));
    assert(forall|x: int| 0 <= x < n ==> #[trigger] s[p + x] == t[x]);
    assert(s.len() == p + n + suffix.len());
    if suffix.len() > 0 {
        assert(s[p + n] == suffix[0]);
    }
    assert(parse_number_at(t, 0) == Some((t, n)));
    assert forall|k: int| 0 <= k <= n implies #[trigger] digits_end(s, p + k) == p + digits_end(
        t,
        k,
    ) by {
        if suffix.len() == 0 || !is_ascii_digit(suffix[0]) {
            lemma_digits_end_embed(prefix, t, suffix, k);
        }
    }
    assert(s.subrange(p, p + n) =~= t);
    let j0 = if 0 < t.len() && t[0] == '-' {
        1int
    } else {
        0int
    };
    assert(j0 < n && is_ascii_digit(t[j0]));
    let j0s = if p < s.len() && s[p] == '-' {
        p + 1
    } else {
        p
    };
    assert(j0s == p + j0);
    assert(s[j0s] == t[j0]);
    let j1 = if t[j0] == '0' {
        j0 + 1
    } else {
        digits_end(t, j0)
    };
    assert(j0 < j1 <= n) by {
        crate::json_parse::lemma_digits_end_bounds(t, j0);
        if t[j0] != '0' {
            assert(digits_end(t, j0) == digits_end(t, j0 + 1));
            crate::json_parse::lemma_digits_end_bounds(t, j0 + 1);
        }
    }
    let j1s = if s[j0s] == '0' {
        j0s + 1
    } else {
        digits_end(s, j0s)
    };
    assert(j1s == p + j1);
    let frac_end = if j1 < n && t[j1] == '.' {
        if j1 + 1 < n && is_ascii_digit(t[j1 + 1]) {
            Some(digits_end(t, j1 + 1))
        } else {
            None
        }
    } else {
        Some(j1)
    };
    assert(frac_end is Some);
    let j2 = frac_end->Some_0;
    assert(j1 <= j2 <= n) by {
        if j1 < n && t[j1] == '.' {
            crate::json_parse::lemma_digits_end_bounds(t, j1 + 1);
        }
    }
    let fs = if j1s < s.len() && s[j1s] == '.' {
        if j1s + 1 < s.len() && is_ascii_digit(s[j1s + 1]) {
            Some(digits_end(s, j1s + 1))
        } else {
            None
        }
    } else {
        Some(j1s)
    };
    assert((j1 < n && t[j1] == '.') == (j1s < s.len() && s[j1s] == '.')) by {
        if j1 == n {
            if suffix.len() > 0 {
                assert(s[j1s] == suffix[0]);
                assert(!num_cont_char(suffix[0]));
            }
        } else {
            assert(s[j1s] == t[j1]);
        }
    }
    assert(fs == Some(p + j2)) by {
        if j1 < n && t[j1] == '.' {
            assert(j1 + 1 < n && is_ascii_digit(t[j1 + 1]));
            assert(s[j1s + 1] == t[j1 + 1]);
            assert(digits_end(s, p + (j1 + 1)) == p + digits_end(t, j1 + 1));
            assert(j1s + 1 == p + (j1 + 1));
        }
    }
    let exp_end = if j2 < n && (t[j2] == 'e' || t[j2] == 'E') {
        let k = if j2 + 1 < n && (t[j2 + 1] == '+' || t[j2 + 1] == '-') {
            j2 + 2
        } else {
            j2 + 1
        };
        if k < n && is_ascii_digit(t[k]) {
            Some(digits_end(t, k))
        } else {
            None
        }
    } else {
        Some(j2)
    };
    assert(exp_end == Some(n));
    let j2s = p + j2;
    assert((j2 < n && (t[j2] == 'e' || t[j2] == 'E')) == (j2s < s.len() && (s[j2s] == 'e' || s[j2s]
        == 'E'))) by {
        if j2 == n {
            if suffix.len() > 0 {
                assert(s[j2s] == suffix[0]);
                assert(!num_cont_char(suffix[0]));
            }
        } else {
            assert(s[j2s] == t[j2]);
        }
    }
    if j2 < n && (t[j2] == 'e' || t[j2] == 'E') {
        let k = if j2 + 1 < n && (t[j2 + 1] == '+' || t[j2 + 1] == '-') {
            j2 + 2
        } else {
            j2 + 1
        };
        assert(k < n && is_ascii_digit(t[k]));
        assert(digits_end(t, k) == n);
        let ks = if j2s + 1 < s.len() && (s[j2s + 1] == '+' || s[j2s + 1] == '-') {
            j2s + 2
        } else {
            j2s + 1
        };
        assert((j2 + 1 < n && (t[j2 + 1] == '+' || t[j2 + 1] == '-')) == (j2s + 1 < s.len() && (
        s[j2s + 1] == '+' || s[j2s + 1] == '-'))) by {
            if j2 + 1 == n {
                if suffix.len() > 0 {
                    assert(s[j2s + 1] == suffix[0]);
                    assert(!num_cont_char(suffix[0]));
                }
            } else {
                assert(s[j2s + 1] == t[j2 + 1]);
            }
        }
        assert(ks == p + k);
        assert(s[ks] == t[k]);
        assert(digits_end(s, p + k) == p + digits_end(t, k));
        assert(digits_end(s, ks) == p + n);
        assert(parse_number_at(s, p) == Some((s.subrange(p, p + n), p + n)));
    } else {
        assert(j2 == n);
        assert(parse_number_at(s, p) == Some((s.subrange(p, p + n), p + n)));
    }
    assert(parse_number_at(s, p) == Some((t, p + n)));
}

/// A fixed token, embedded at any position, parses back.
proof fn lemma_parse_token_embed(prefix: Seq<char>, tok: Seq<char>, suffix: Seq<char>)
    ensures
        parse_token(prefix + tok + suffix, prefix.len() as int, tok) == Some(
            (prefix.len() + tok.len()) as int,
        ),
{
    let s = prefix + tok + suffix;
    let p = prefix.len() as int;
    assert(s.subrange(p, p + tok.len() as int) =~= tok);
}

/// An encoded well-formed scalar, embedded at any position and followed by
/// a delimiter (or nothing), parses back to itself.
proof fn lemma_parse_scalar_of_encoded(prefix: Seq<char>, v: ScalarV, suffix: Seq<char>)
    requires
        scalar_wf(v),
        suffix.len() == 0 || delim_char(suffix[0]),
    ensures
        parse_scalar_at(prefix + encode_scalar(v) + suffix, prefix.len() as int) == Some(
            (v, (prefix.len() + encode_scalar(v).len()) as int),
        ),
{
    let s = prefix + encode_scalar(v) + suffix;
    let p = prefix.len() as int;
    assert(s =~= prefix + (encode_scalar(v) + suffix));
    match v {
        ScalarV::Str(text) => {
            assert(encode_scalar(v) == encode_json_string(text));
            assert(s[p] == encode_json_string(text)[0]);
            assert(encode_json_string(text)[0] == '"');
            lemma_parse_string_of_encoded(prefix, text, suffix);
            assert(s =~= prefix + encode_json_string(text) + suffix);
        },
        ScalarV::Num(t) => {
            assert(is_number_text(t));
            let n = t.len() as int;
            assert(parse_number_at(t, 0) == Some((t, n)));
            let j0 = if 0 < t.len() && t[0] == '-' {
                1int
            } else {
                0int
            };
            assert(j0 < n && is_ascii_digit(t[j0]));
            assert(t[0] == '-' || is_ascii_digit(t[0]));
            assert(s[p] == t[0]);
            assert(s[p] != '"');
            assert(suffix.len() == 0 || !num_cont_char(suffix[0]));
            lemma_parse_number_embed(prefix, t, suffix);
            assert(s =~= prefix + t + suffix);
        },
        ScalarV::Bool(b) => {
            if b {
                assert(encode_scalar(v) == true_token());
                assert(s[p] == true_token()[0]);
                assert(s[p] == 't');
                lemma_parse_token_embed(prefix, true_token(), suffix);
                assert(s =~= prefix + true_token() + suffix);
            } else {
                assert(encode_scalar(v) == false_token());
                assert(s[p] == false_token()[0]);
                assert(s[p] == 'f');
                lemma_parse_token_embed(prefix, false_token(), suffix);
                assert(s =~= prefix + false_token() + suffix);
            }
        },
        ScalarV::Null => {
            assert(encode_scalar(v) == null_token());
            assert(s[p] == null_token()[0]);
            assert(s[p] == 'n');
            lemma_parse_token_embed(prefix, null_token(), suffix);
            assert(s =~= prefix + null_token() + suffix);
        },
    }
}

/// A character an encoded scalar can start with.
pub open spec fn scalar_first_char(c: char) -> bool {
    c == '"' || c == '-' || is_ascii_digit(c) || c == 't' || c == 'f' || c == 'n'
}

/// An encoded scalar is never empty and starts with a quote, a sign, a
/// digit or a keyword letter — never whitespace or a delimiter.
proof fn lemma_encode_scalar_first(v: ScalarV)
    requires
        scalar_wf(v),
    ensures
        encode_scalar(v).len() > 0,
        scalar_first_char(encode_scalar(v)[0]),
{
    match v {
        ScalarV::Str(text) => {
            assert(encode_json_string(text)[0] == '"');
        },
        ScalarV::Num(t) => {
            assert(parse_number_at(t, 0) == Some((t, t.len() as int)));
            let j0 = if 0 < t.len() && t[0] == '-' {
                1int
            } else {
                0int
            };
            assert(j0 < t.len() && is_ascii_digit(t[j0]));
            assert(t[0] == '-' || is_ascii_digit(t[0]));
        },
        ScalarV::Bool(b) => {
            if b {
                assert(encode_scalar(v)[0] == 't');
            } else {
                assert(encode_scalar(v)[0] == 'f');
            }
        },
        ScalarV::Null => {
            assert(encode_scalar(v)[0] == 'n');
        },
    }
}

/// A character an encoded property value can start with.
pub open spec fn value_first_char(c: char) -> bool {
    scalar_first_char(c) || c == '['
}

/// An encoded property value is never empty and never starts with
/// whitespace or a delimiter.
proof fn lemma_encode_value_first(v: PropValueV)
    requires
        prop_value_wf(v),
    ensures
        encode_prop_value(v).len() > 0,
        value_first_char(encode_prop_value(v)[0]),
{
    match v {
        PropValueV::Scalar(sc) => {
            lemma_encode_scalar_first(sc);
        },
        PropValueV::Arr(vs) => {
            assert(encode_prop_value(v)[0] == '[');
        },
    }
}

/// The encoded elements of a non-empty array, closed by the bracket, parse
/// back to the elements.
#[verifier::rlimit(60)]
proof fn lemma_parse_items_of_encoded(prefix: Seq<char>, vs: Seq<ScalarV>, suffix: Seq<char>)
    requires
        vs.len() > 0,
        forall|i: int| 0 <= i < vs.len() ==> scalar_wf(#[trigger] vs[i]),
    ensures
        parse_array_items(
            prefix + encode_array_items(vs) + seq![']'] + suffix,
            prefix.len() as int,
        ) == Some((vs, (prefix.len() + encode_array_items(vs).len() + 1) as int)),
    decreases vs.len(),
{
    let s = prefix + encode_array_items(vs) + seq![']'] + suffix;
    let p = prefix.len() as int;
    let v0 = vs[0];
    let e0 = encode_scalar(v0);
    lemma_encode_scalar_first(v0);
    if vs.len() == 1 {
        assert(encode_array_items(vs) == e0);
        lemma_parse_scalar_of_encoded(prefix, v0, seq![']'] + suffix);
        assert(prefix + e0 + (seq![']'] + suffix) =~= s);
        let j = p + e0.len() as int;
        assert(parse_scalar_at(s, p) == Some((v0, j)));
        assert(s[j] == ']') by {
            assert(s =~= (prefix + e0) + (seq![']'] + suffix));
        }
        assert(skip_ws(s, j) == j);
        assert(parse_array_items(s, p) == Some((seq![v0], j + 1)));
        assert(seq![v0] =~= vs);
    } else {
        let rest = vs.drop_first();
        assert(encode_array_items(vs) == e0 + seq![','] + encode_array_items(rest));
        let tail = seq![','] + (encode_array_items(rest) + seq![']'] + suffix);
        lemma_parse_scalar_of_encoded(prefix, v0, tail);
        assert(prefix + e0 + tail =~= s);
        let j = p + e0.len() as int;
        assert(parse_scalar_at(s, p) == Some((v0, j)));
        assert(s[j] == ',') by {
            assert(s =~= (prefix + e0) + tail);
        }
        assert(skip_ws(s, j) == j);
        let prefix2 = prefix + e0 + seq![','];
        lemma_parse_items_of_encoded(prefix2, rest, suffix);
        assert(prefix2 + encode_array_items(rest) + seq![']'] + suffix =~= s);
        let m = prefix2.len() as int;
        assert(m == j + 1);
        assert(forall|i: int| 0 <= i < rest.len() ==> scalar_wf(#[trigger] rest[i]));
        assert(parse_array_items(s, m) == Some(
            (rest, (prefix2.len() + encode_array_items(rest).len() + 1) as int),
        ));
        assert(s[m] == encode_array_items(rest)[0]) by {
            assert(s =~= prefix2 + (encode_array_items(rest) + seq![']'] + suffix));
            assert(encode_array_items(rest).len() > 0) by {
                lemma_encode_scalar_first(rest[0]);
                if rest.len() > 1 {
                    assert(encode_array_items(rest) == encode_scalar(rest[0]) + seq![',']
                        + encode_array_items(rest.drop_first()));
                }
            }
        }
        assert(skip_ws(s, m) == m) by {
            lemma_encode_scalar_first(rest[0]);
            assert(encode_array_items(rest)[0] == encode_scalar(rest[0])[0]) by {
                if rest.len() > 1 {
                    assert(encode_array_items(rest) == encode_scalar(rest[0]) + seq![',']
                        + encode_array_items(rest.drop_first()));
                }
            }
        }
        assert(parse_array_items(s, p) == Some(
            (seq![v0] + rest, (prefix2.len() + encode_array_items(rest).len() + 1) as int),
        ));
        assert(seq![v0] + rest =~= vs);
        assert(prefix2.len() + encode_array_items(rest).len() + 1 == prefix.len()
            + encode_array_items(vs).len() + 1);
    }
}

/// An encoded array parses back to its elements.
proof fn lemma_parse_array_of_encoded(prefix: Seq<char>, vs: Seq<ScalarV>, suffix: Seq<char>)
    requires
        forall|i: int| 0 <= i < vs.len() ==> scalar_wf(#[trigger] vs[i]),
    ensures
        parse_array_at(prefix + encode_array(vs) + suffix, prefix.len() as int) == Some(
            (vs, (prefix.len() + encode_array(vs).len()) as int),
        ),
{
    let s = prefix + encode_array(vs) + suffix;
    let p = prefix.len() as int;
    assert(s[p] == '[') by {
        assert(s =~= prefix + (encode_array(vs) + suffix));
        assert(encode_array(vs)[0] == '[');
    }
    if vs.len() == 0 {
        assert(encode_array(vs) =~= seq!['[', ']']);
        assert(s =~= prefix + seq!['[', ']'] + suffix);
        assert(s[p + 1] == ']');
        assert(skip_ws(s, p + 1) == p + 1);
        assert(parse_array_at(s, p) == Some((Seq::<ScalarV>::empty(), p + 2)));
        assert(vs =~= Seq::<ScalarV>::empty());
    } else {
        let prefix2 = prefix + seq!['['];
        lemma_parse_items_of_encoded(prefix2, vs, suffix);
        assert(prefix2 + encode_array_items(vs) + seq![']'] + suffix =~= s);
        assert(parse_array_items(s, p + 1) == Some(
            (vs, (prefix2.len() + encode_array_items(vs).len() + 1) as int),
        ));
        lemma_encode_scalar_first(vs[0]);
        assert(encode_array_items(vs).len() > 0 && encode_array_items(vs)[0] == encode_scalar(
            vs[0],
        )[0]) by {
            if vs.len() > 1 {
                assert(encode_array_items(vs) == encode_scalar(vs[0]) + seq![',']
                    + encode_array_items(vs.drop_first()));
            }
        }
        assert(s[p + 1] == encode_array_items(vs)[0]) by {
            assert(s =~= prefix2 + (encode_array_items(vs) + seq![']'] + suffix));
        }
        assert(skip_ws(s, p + 1) == p + 1);
        assert(s[p + 1] != ']');
        assert(parse_array_at(s, p) == Some(
            (vs, (prefix.len() + encode_array(vs).len()) as int),
        ));
    }
}

/// An encoded property value, followed by a delimiter, parses back to
/// itself.
proof fn lemma_parse_value_of_encoded(prefix: Seq<char>, v: PropValueV, suffix: Seq<char>)
    requires
        prop_value_wf(v),
        suffix.len() == 0 || delim_char(suffix[0]),
    ensures
        parse_prop_value_at(prefix + encode_prop_value(v) + suffix, prefix.len() as int) == Some(
            (v, (prefix.len() + encode_prop_value(v).len()) as int),
        ),
{
    let s = prefix + encode_prop_value(v) + suffix;
    let p = prefix.len() as int;
    lemma_encode_value_first(v);
    assert(s[p] == encode_prop_value(v)[0]) by {
        assert(s =~= prefix + (encode_prop_value(v) + suffix));
    }
    match v {
        PropValueV::Scalar(sc) => {
            lemma_encode_scalar_first(sc);
            assert(s[p] != '[');
            lemma_parse_scalar_of_encoded(prefix, sc, suffix);
            assert(prefix + encode_scalar(sc) + suffix =~= s);
        },
        PropValueV::Arr(vs) => {
            assert(s[p] == '[');
            lemma_parse_array_of_encoded(prefix, vs, suffix);
            assert(prefix + encode_array(vs) + suffix =~= s);
        },
    }
}

/// The key of an encoded member parses first, with the colon right after.
#[verifier::rlimit(100)]
proof fn lemma_parse_member_key(prefix: Seq<char>, e: (Seq<char>, PropValueV), suffix: Seq<char>)
    ensures
        ({
            let s = prefix + encode_member(e) + suffix;
            let j = (prefix.len() + encode_json_string(e.0).len()) as int;
            &&& parse_string_at(s, prefix.len() as int) == Some((e.0, j))
            &&& s[j] == ':'
        }),
{
    let s = prefix + encode_member(e) + suffix;
    let p = prefix.len() as int;
    let ks = encode_json_string(e.0);
    let vs = encode_prop_value(e.1);
    assert(encode_member(e) == ks + seq![':'] + vs);
    lemma_parse_string_of_encoded(prefix, e.0, seq![':'] + vs + suffix);
    assert(prefix + ks + (seq![':'] + vs + suffix) =~= s);
    let j = p + ks.len() as int;
    assert(parse_string_at(s, p) == Some((e.0, j)));
    assert(s[j] == ':') by {
        assert(s =~= (prefix + ks) + (seq![':'] + vs + suffix));
    }
}

/// An encoded member, followed by a delimiter, parses back to itself.
#[verifier::rlimit(100)]
proof fn lemma_parse_member_of_encoded(
    prefix: Seq<char>,
    e: (Seq<char>, PropValueV),
    suffix: Seq<char>,
)
    requires
        prop_value_wf(e.1),
        suffix.len() == 0 || delim_char(suffix[0]),
    ensures
        parse_member_at(prefix + encode_member(e) + suffix, prefix.len() as int) == Some(
            (e, (prefix.len() + encode_member(e).len()) as int),
        ),
{
    let s = prefix + encode_member(e) + suffix;
    let p = prefix.len() as int;
    let ks = encode_json_string(e.0);
    let vs = encode_prop_value(e.1);
    assert(encode_member(e) == ks + seq![':'] + vs);
    lemma_parse_member_key(prefix, e, suffix);
    let j = p + ks.len() as int;
    assert(skip_ws(s, j) == j);
    let prefix2 = prefix + ks + seq![':'];
    lemma_parse_value_of_encoded(prefix2, e.1, suffix);
    assert(prefix2 + vs + suffix =~= s);
    let m = prefix2.len() as int;
    assert(m == j + 1);
    assert(parse_prop_value_at(s, m) == Some((e.1, (prefix2.len() + vs.len()) as int)));
    lemma_encode_value_first(e.1);
    assert(s[m] == vs[0]) by {
        assert(s =~= prefix2 + (vs + suffix));
    }
    assert(skip_ws(s, m) == m);
    assert(parse_member_at(s, p) == Some((e, (prefix.len() + encode_member(e).len()) as int)));
}

/// A non-empty member list's encoding starts with the first key's quote.
proof fn lemma_encode_members_first(ms: Seq<(Seq<char>, PropValueV)>)
    requires
        ms.len() > 0,
    ensures
        encode_members(ms).len() > 0,
        encode_members(ms)[0] == '"',
{
    assert(encode_member(ms[0])[0] == '"') by {
        assert(encode_json_string(ms[0].0)[0] == '"');
    }
    if ms.len() > 1 {
        assert(encode_members(ms) == encode_member(ms[0]) + seq![','] + encode_members(
            ms.drop_first(),
        ));
    }
}

/// One encoded member, closed by the brace, parses as a one-member list.
#[verifier::rlimit(100)]
proof fn lemma_parse_members_single(
    prefix: Seq<char>,
    e0: (Seq<char>, PropValueV),
    suffix: Seq<char>,
)
    requires
        prop_value_wf(e0.1),
    ensures
        parse_members(prefix + encode_member(e0) + seq!['}'] + suffix, prefix.len() as int)
            == Some((seq![e0], (prefix.len() + encode_member(e0).len() + 1) as int)),
{
    let s = prefix + encode_member(e0) + seq!['}'] + suffix;
    let p = prefix.len() as int;
    let enc0 = encode_member(e0);
    lemma_parse_member_of_encoded(prefix, e0, seq!['}'] + suffix);
    assert(prefix + enc0 + (seq!['}'] + suffix) =~= s);
    let j = p + enc0.len() as int;
    assert(parse_member_at(s, p) == Some((e0, j)));
    assert(s[j] == '}') by {
        assert(s =~= (prefix + enc0) + (seq!['}'] + suffix));
    }
    assert(skip_ws(s, j) == j);
    assert(parse_members(s, p) == Some((seq![e0], j + 1)));
}

/// The encoded members of a non-empty object, closed by the brace, parse
/// back to the members.
#[verifier::rlimit(100)]
proof fn lemma_parse_members_of_encoded(
    prefix: Seq<char>,
    ms: Seq<(Seq<char>, PropValueV)>,
    suffix: Seq<char>,
)
    requires
        ms.len() > 0,
        prop_map_wf(ms),
    ensures
        parse_members(prefix + encode_members(ms) + seq!['}'] + suffix, prefix.len() as int)
            == Some((ms, (prefix.len() + encode_members(ms).len() + 1) as int)),
    decreases ms.len(),
{
    let s = prefix + encode_members(ms) + seq!['}'] + suffix;
    let p = prefix.len() as int;
    let e0 = ms[0];
    let enc0 = encode_member(e0);
    assert(prop_value_wf(e0.1));
    if ms.len() == 1 {
        assert(encode_members(ms) == enc0);
        lemma_parse_members_single(prefix, e0, suffix);
        assert(prefix + enc0 + seq!['}'] + suffix =~= s);
        assert(seq![e0] =~= ms);
    } else {
        let rest = ms.drop_first();
        assert(encode_members(ms) == enc0 + seq![','] + encode_members(rest));
        let tail = seq![','] + (encode_members(rest) + seq!['}'] + suffix);
        lemma_parse_member_of_encoded(prefix, e0, tail);
        assert(prefix + enc0 + tail =~= s);
        let j = p + enc0.len() as int;
        assert(parse_member_at(s, p) == Some((e0, j)));
        assert(s[j] == ',') by {
            assert(s =~= (prefix + enc0) + tail);
        }
        assert(skip_ws(s, j) == j);
        let prefix2 = prefix + enc0 + seq![','];
        assert(forall|i: int| 0 <= i < rest.len() ==> prop_value_wf(#[trigger] rest[i].1));
        lemma_parse_members_of_encoded(prefix2, rest, suffix);
        assert(prefix2 + encode_members(rest) + seq!['}'] + suffix =~= s);
        let m = prefix2.len() as int;
        assert(m == j + 1);
        assert(parse_members(s, m) == Some(
            (rest, (prefix2.len() + encode_members(rest).len() + 1) as int),
        ));
        lemma_encode_members_first(rest);
        assert(s[m] == encode_members(rest)[0]) by {
            assert(s =~= prefix2 + (encode_members(rest) + seq!['}'] + suffix));
        }
        assert(skip_ws(s, m) == m);
        assert(parse_members(s, p) == Some(
            (seq![e0] + rest, (prefix2.len() + encode_members(rest).len() + 1) as int),
        ));
        assert(seq![e0] + rest =~= ms);
        assert(prefix2.len() + encode_members(rest).len() + 1 == prefix.len() + encode_members(
            ms,
        ).len() + 1);
    }
}

/// An encoded property object parses back to its members.
#[verifier::rlimit(100)]
proof fn lemma_parse_props_of_encoded(
    prefix: Seq<char>,
    ms: Seq<(Seq<char>, PropValueV)>,
    suffix: Seq<char>,
)
    requires
        prop_map_wf(ms),
    ensures
        parse_props_at(prefix + encode_props(ms) + suffix, prefix.len() as int) == Some(
            (ms, (prefix.len() + encode_props(ms).len()) as int),
        ),
{
    let s = prefix + encode_props(ms) + suffix;
    let p = prefix.len() as int;
    assert(s[p] == '{') by {
        assert(s =~= prefix + (encode_props(ms) + suffix));
        assert(encode_props(ms)[0] == '{');
    }
    if ms.len() == 0 {
        assert(encode_props(ms) =~= seq!['{', '}']);
        assert(s =~= prefix + seq!['{', '}'] + suffix);
        assert(s[p + 1] == '}');
        assert(skip_ws(s, p + 1) == p + 1);
        assert(parse_props_at(s, p) == Some((Seq::<(Seq<char>, PropValueV)>::empty(), p + 2)));
        assert(ms =~= Seq::<(Seq<char>, PropValueV)>::empty());
    } else {
        let prefix2 = prefix + seq!['{'];
        lemma_parse_members_of_encoded(prefix2, ms, suffix);
        assert(prefix2 + encode_members(ms) + seq!['}'] + suffix =~= s);
        assert(parse_members(s, p + 1) == Some(
            (ms, (prefix2.len() + encode_members(ms).len() + 1) as int),
        ));
        lemma_encode_members_first(ms);
        assert(s[p + 1] == encode_members(ms)[0]) by {
            assert(s =~= prefix2 + (encode_members(ms) + seq!['}'] + suffix));
        }
        assert(skip_ws(s, p + 1) == p + 1);
        assert(s[p + 1] != '}');
        assert(parse_props_at(s, p) == Some(
            (ms, (prefix.len() + encode_props(ms).len()) as int),
        ));
    }
}

/// The label member of an encoded payload parses at position one.
#[verifier::rlimit(100)]
proof fn lemma_payload_member_label(label: Seq<char>, props: Seq<(Seq<char>, PropValueV)>)
    requires
        prop_map_wf(props),
    ensures
        ({
            let s = encode_vertex_payload(label, props);
            let k1 = encode_json_string(label_key());
            let lv = encode_json_string(label);
            let j2 = (2 + k1.len() + lv.len()) as int;
            &&& parse_top_member_at(s, 1) == Some(
                (
                    (label_key(), TopValueV::Val(PropValueV::Scalar(ScalarV::Str(label)))),
                    j2,
                ),
            )
            &&& s[0] == '{'
            &&& s[1] == '"'
            &&& s[j2] == ','
            &&& s[j2 + 1] == '"'
        }),
{
    let s = encode_vertex_payload(label, props);
    let k1 = encode_json_string(label_key());
    let lv = encode_json_string(label);
    let k2 = encode_json_string(properties_key());
    let pv = encode_props(props);
    assert(s == seq!['{'] + k1 + seq![':'] + lv + seq![','] + k2 + seq![':'] + pv + seq!['}']);
    let j1 = 1 + k1.len() as int;
    let m = j1 + 1;
    let j2 = m + lv.len() as int;
    assert(s[0] == '{' && s[1] == '"') by {
        assert(s =~= seq!['{'] + (k1 + seq![':'] + lv + seq![','] + k2 + seq![':'] + pv
            + seq!['}']));
        assert(k1[0] == '"');
    }
    lemma_parse_string_of_encoded(
        seq!['{'],
        label_key(),
        seq![':'] + lv + seq![','] + k2 + seq![':'] + pv + seq!['}'],
    );
    assert(seq!['{'] + k1 + (seq![':'] + lv + seq![','] + k2 + seq![':'] + pv + seq!['}']) =~= s);
    assert(parse_string_at(s, 1) == Some((label_key(), j1)));
    assert(s[j1] == ':') by {
        assert(s =~= (seq!['{'] + k1) + (seq![':'] + lv + seq![','] + k2 + seq![':'] + pv
            + seq!['}']));
    }
    assert(skip_ws(s, j1) == j1);
    let lvv = PropValueV::Scalar(ScalarV::Str(label));
    assert(encode_prop_value(lvv) == lv);
    lemma_parse_value_of_encoded(
        seq!['{'] + k1 + seq![':'],
        lvv,
        seq![','] + k2 + seq![':'] + pv + seq!['}'],
    );
    assert(seq!['{'] + k1 + seq![':'] + lv + (seq![','] + k2 + seq![':'] + pv + seq!['}']) =~= s);
    assert((seq!['{'] + k1 + seq![':']).len() == m);
    assert(parse_prop_value_at(s, m) == Some((lvv, j2)));
    assert(s[m] == '"') by {
        assert(s =~= (seq!['{'] + k1 + seq![':']) + (lv + seq![','] + k2 + seq![':'] + pv
            + seq!['}']));
        assert(lv[0] == '"');
    }
    assert(skip_ws(s, m) == m);
    assert(s[m] != '{');
    assert(parse_top_value_at(s, m) == Some((TopValueV::Val(lvv), j2)));
    assert(parse_top_member_at(s, 1) == Some(((label_key(), TopValueV::Val(lvv)), j2)));
    assert(s[j2] == ',' && s[j2 + 1] == '"') by {
        assert(s =~= (seq!['{'] + k1 + seq![':'] + lv) + (seq![','] + k2 + seq![':'] + pv
            + seq!['}']));
        assert(s =~= (seq!['{'] + k1 + seq![':'] + lv + seq![',']) + (k2 + seq![':'] + pv
            + seq!['}']));
        assert(k2[0] == '"');
    }
}

/// The properties member of an encoded payload parses right after the
/// label member's comma.
#[verifier::rlimit(100)]
proof fn lemma_payload_member_props(label: Seq<char>, props: Seq<(Seq<char>, PropValueV)>)
    requires
        prop_map_wf(props),
    ensures
        ({
            let s = encode_vertex_payload(label, props);
            let k1 = encode_json_string(label_key());
            let lv = encode_json_string(label);
            let k2 = encode_json_string(properties_key());
            let pv = encode_props(props);
            let m2 = (3 + k1.len() + lv.len()) as int;
            let j4 = m2 + k2.len() + 1 + pv.len();
            &&& parse_top_member_at(s, m2) == Some(
                ((properties_key(), TopValueV::Obj(props)), j4),
            )
            &&& s[j4] == '}'
            &&& s.len() == j4 + 1
        }),
{
    let s = encode_vertex_payload(label, props);
    let k1 = encode_json_string(label_key());
    let lv = encode_json_string(label);
    let k2 = encode_json_string(properties_key());
    let pv = encode_props(props);
    assert(s == seq!['{'] + k1 + seq![':'] + lv + seq![','] + k2 + seq![':'] + pv + seq!['}']);
    let m2 = 3 + k1.len() as int + lv.len() as int;
    let j3 = m2 + k2.len() as int;
    let m3 = j3 + 1;
    let j4 = m3 + pv.len() as int;
    assert(s.len() == j4 + 1);
    lemma_parse_string_of_encoded(
        seq!['{'] + k1 + seq![':'] + lv + seq![','],
        properties_key(),
        seq![':'] + pv + seq!['}'],
    );
    assert(seq!['{'] + k1 + seq![':'] + lv + seq![','] + k2 + (seq![':'] + pv + seq!['}']) =~= s);
    assert((seq!['{'] + k1 + seq![':'] + lv + seq![',']).len() == m2);
    assert(parse_string_at(s, m2) == Some((properties_key(), j3)));
    assert(s[j3] == ':') by {
        assert(s =~= (seq!['{'] + k1 + seq![':'] + lv + seq![','] + k2) + (seq![':'] + pv
            + seq!['}']));
    }
    assert(skip_ws(s, j3) == j3);
    lemma_parse_props_of_encoded(
        seq!['{'] + k1 + seq![':'] + lv + seq![','] + k2 + seq![':'],
        props,
        seq!['}'],
    );
    assert(seq!['{'] + k1 + seq![':'] + lv + seq![','] + k2 + seq![':'] + pv + seq!['}'] =~= s);
    assert((seq!['{'] + k1 + seq![':'] + lv + seq![','] + k2 + seq![':']).len() == m3);
    assert(parse_props_at(s, m3) == Some((props, j4)));
    assert(s[m3] == '{') by {
        assert(s =~= (seq!['{'] + k1 + seq![':'] + lv + seq![','] + k2 + seq![':']) + (pv
            + seq!['}']));
        assert(pv[0] == '{');
    }
    assert(skip_ws(s, m3) == m3);
    assert(parse_top_value_at(s, m3) == Some((TopValueV::Obj(props), j4)));
    assert(parse_top_member_at(s, m2) == Some(((properties_key(), TopValueV::Obj(props)), j4)));
    assert(s[j4] == '}') by {
        assert(s =~= (seq!['{'] + k1 + seq![':'] + lv + seq![','] + k2 + seq![':'] + pv)
            + seq!['}']);
    }
}

/// The encoded vertex payload parses back to exactly its label and its
/// property map.
#[verifier::rlimit(100)]
proof fn lemma_parse_payload_of_encoded(label: Seq<char>, props: Seq<(Seq<char>, PropValueV)>)
    requires
        prop_map_wf(props),
    ensures
        parse_vertex_payload(encode_vertex_payload(label, props)) == Some((label, props)),
{
    let s = encode_vertex_payload(label, props);
    let k1 = encode_json_string(label_key());
    let lv = encode_json_string(label);
    let k2 = encode_json_string(properties_key());
    let pv = encode_props(props);
    let j2 = (2 + k1.len() + lv.len()) as int;
    let m2 = j2 + 1;
    let j4 = m2 + k2.len() as int + 1 + pv.len() as int;
    let lvv = PropValueV::Scalar(ScalarV::Str(label));
    let e1 = (label_key(), TopValueV::Val(lvv));
    let e2 = (properties_key(), TopValueV::Obj(props));
    lemma_payload_member_label(label, props);
    lemma_payload_member_props(label, props);
    assert(parse_top_member_at(s, 1) == Some((e1, j2)));
    assert(parse_top_member_at(s, m2) == Some((e2, j4)));
    assert(skip_ws(s, 0) == 0);
    assert(skip_ws(s, j4) == j4);
    assert(parse_top_members(s, m2) == Some((seq![e2], j4 + 1)));
    assert(skip_ws(s, j2) == j2);
    assert(skip_ws(s, m2) == m2);
    assert(1 < m2 <= s.len());
    assert(parse_top_members(s, 1) == Some((seq![e1] + seq![e2], j4 + 1)));
    assert(seq![e1] + seq![e2] =~= seq![e1, e2]);
    assert(skip_ws(s, 1) == 1);
    assert(s[1] != '}');
    assert(parse_top_object_at(s, 0) == Some((seq![e1, e2], j4 + 1)));
    assert(skip_ws(s, j4 + 1) == s.len());
    let ms = seq![e1, e2];
    assert(find_top(ms, label_key()) == Some(TopValueV::Val(lvv))) by {
        assert(ms[0].0 == label_key());
    }
    assert(label_key().len() != properties_key().len());
    assert(find_top(ms, properties_key()) == Some(TopValueV::Obj(props))) by {
        assert(ms[0].0 != properties_key());
        assert(ms.drop_first() =~= seq![e2]);
        assert(find_top(seq![e2], properties_key()) == Some(TopValueV::Obj(props))) by {
            assert(seq![e2][0].0 == properties_key());
        }
    }
    assert(parse_vertex_payload(s) == Some((label, props)));
}

/// The greatest delimiter below `i` is the one that is known, where no
/// later one stands.
proof fn lemma_last_dsep_located(s: Seq<char>, j0: int, i: int)
    requires
        crate::wire::dsep_at(s, j0),
        j0 < i <= s.len(),
        forall|j: int| j0 < j < i ==> !crate::wire::dsep_at(s, j),
    ensures
        crate::wire::last_dsep_before(s, i) == Some(j0),
    decreases i,
{
    if i - 1 == j0 {
    } else {
        assert(!crate::wire::dsep_at(s, i - 1));
        lemma_last_dsep_located(s, j0, i - 1);
    }
}

/// Decoding the wire form of a vertex gives back exactly the label and
/// the property map that were encoded: the decoder and the encoder
/// round-trip on every well-formed property map.
pub proof fn lemma_decode_of_encoded_vertex(label: Seq<char>, props: Seq<(Seq<char>, PropValueV)>)
    requires
        prop_map_wf(props),
    ensures
        crate::wire::spec_decode_wire(crate::wire::encode_wire_vertex(label, props)) == Ok::<
            (Seq<char>, Seq<(Seq<char>, PropValueV)>),
            crate::wire::WireDecodeError,
        >((label, props)),
{
    let payload = encode_vertex_payload(label, props);
    let w = crate::wire::encode_wire_vertex(label, props);
    let pl = payload.len() as int;
    assert(w == payload + seq![':', ':'] + crate::wire::vertex_tag());
    assert(w.len() == pl + 8);
    assert(forall|k: int| 0 <= k < 8 ==> #[trigger] w[pl + k] == (seq![':', ':']
        + crate::wire::vertex_tag())[k]) by {
        assert(w =~= payload + (seq![':', ':'] + crate::wire::vertex_tag()));
    }
    assert(w[pl] == ':' && w[pl + 1] == ':');
    assert(crate::wire::dsep_at(w, pl));
    assert forall|j: int| pl < j < w.len() implies !crate::wire::dsep_at(w, j) by {
        if j == pl + 1 {
            assert(w[j + 1] == 'v');
        } else if j + 2 <= w.len() {
            let k = j - pl;
            assert(w[j] == (seq![':', ':'] + crate::wire::vertex_tag())[k]);
            assert(w[j] != ':');
        }
    }
    lemma_last_dsep_located(w, pl, w.len() as int);
    assert(crate::wire::last_dsep(w) == Some(pl));
    assert(w.subrange(pl + 2, w.len() as int) =~= crate::wire::vertex_tag());
    assert(w.subrange(0, pl) =~= payload);
    assert(payload[0] == '{') by {
        assert(payload =~= seq!['{'] + (encode_json_string(label_key()) + seq![':']
            + encode_json_string(label) + seq![','] + encode_json_string(properties_key())
            + seq![':'] + encode_props(props) + seq!['}']));
    }
    assert(!crate::wire::is_control_char('{')) by {
        assert(('{' as u32) == 0x7B);
    }
    assert(crate::wire::skip_control(payload, 0) == 0);
    assert(crate::wire::strip_leading_control(payload) =~= payload);
    lemma_parse_payload_of_encoded(label, props);
}

} // verus!
