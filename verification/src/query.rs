//! The query synthesizer: property clauses and whole statements in the
//! engine's query language. The one injection boundary defended here is
//! string content: single quotes inside rendered string values are
//! escaped. Property keys and label names are assumed to satisfy an
//! identifier-safe charset already — the schema store validates them; this
//! renderer does not re-validate.

use vstd::prelude::*;
use crate::json::{ScalarV, PropValueV, ScalarValue, PropValue, PropMap};
use crate::text::string_from_chars;

verus! {

/// The concatenation of `f` over every character of `s`.
pub open spec fn concat_map(s: Seq<char>, f: spec_fn(char) -> Seq<char>) -> Seq<char>
    decreases s.len(),
{
    if s.len() == 0 {
        Seq::empty()
    } else {
        f(s[0]) + concat_map(s.drop_first(), f)
    }
}

/// Appending one character extends the concatenation at its end.
pub proof fn lemma_concat_map_snoc(s: Seq<char>, c: char, f: spec_fn(char) -> Seq<char>)
    ensures
        concat_map(s.push(c), f) == concat_map(s, f) + f(c),
    decreases s.len(),
{
    if s.len() == 0 {
        assert(s.push(c)[0] == c);
        assert(s.push(c).drop_first() =~= Seq::<char>::empty());
        assert(f(c) + concat_map(Seq::<char>::empty(), f) =~= f(c));
        assert(concat_map(s, f) + f(c) =~= f(c));
    } else {
        assert(s.push(c).drop_first() =~= s.drop_first().push(c));
        lemma_concat_map_snoc(s.drop_first(), c, f);
        assert(s.push(c)[0] == s[0]);
        assert(f(s[0]) + (concat_map(s.drop_first(), f) + f(c)) =~= (f(s[0]) + concat_map(
            s.drop_first(),
            f,
        )) + f(c));
    }
}

/// A single quote under the backslash escape, as string values inside a
/// property clause carry it.
pub open spec fn bs_escape_char(c: char) -> Seq<char> {
    if c == '\'' {
        seq!['\\', '\'']
    } else {
        seq![c]
    }
}

/// The backslash-escaped form of a string value.
pub open spec fn bs_escape(s: Seq<char>) -> Seq<char> {
    concat_map(s, |c: char| bs_escape_char(c))
}

/// The escaping discipline of string values: in the backslash-escaped form
/// every single quote stands right after a backslash, so no rendered value
/// can close the quote that the clause opened around it.
pub proof fn lemma_bs_escape_covers_quotes(s: Seq<char>)
    ensures
        forall|i: int|
            0 <= i < bs_escape(s).len() && #[trigger] bs_escape(s)[i] == '\'' ==> i > 0
                && bs_escape(s)[i - 1] == '\\',
    decreases s.len(),
{
    let f = |c: char| bs_escape_char(c);
    if s.len() > 0 {
        lemma_bs_escape_covers_quotes(s.drop_first());
        let head = bs_escape_char(s[0]);
        let tail = bs_escape(s.drop_first());
        assert(bs_escape(s) == head + tail);
        assert forall|i: int|
            0 <= i < bs_escape(s).len() && #[trigger] bs_escape(s)[i] == '\'' implies i > 0
            && bs_escape(s)[i - 1] == '\\' by {
            let whole = head + tail;
            if i < head.len() {
                assert(whole[i] == head[i]);
                if s[0] == '\'' {
                    assert(head =~= seq!['\\', '\'']);
                } else {
                    assert(head =~= seq![s[0]]);
                }
            } else {
                assert(whole[i] == tail[i - head.len()]);
                assert(i - head.len() > 0) by {
                    if tail[0] == '\'' {
                        assert(tail[0 - 1] == '\\');
                    }
                }
                assert(tail[i - head.len() - 1] == '\\');
                assert(whole[i - 1] == tail[i - 1 - head.len()]);
            }
        }
    }
}

/// A single quote doubled, as quoted names inside a match pattern carry it.
pub open spec fn double_escape_char(c: char) -> Seq<char> {
    if c == '\'' {
        seq!['\'', '\'']
    } else {
        seq![c]
    }
}

/// The quote-doubled form of a name.
pub open spec fn double_escape(s: Seq<char>) -> Seq<char> {
    concat_map(s, |c: char| double_escape_char(c))
}

/// The escaping discipline of quoted names: in the quote-doubled form
/// every single quote stands next to another one, so no rendered name can
/// close the quote that the pattern opened around it.
pub proof fn lemma_double_escape_pairs_quotes(s: Seq<char>)
    ensures
        forall|i: int|
            0 <= i < double_escape(s).len() && #[trigger] double_escape(s)[i] == '\'' ==> (i + 1
                < double_escape(s).len() && double_escape(s)[i + 1] == '\'') || (i > 0
                && double_escape(s)[i - 1] == '\''),
    decreases s.len(),
{
    if s.len() > 0 {
        lemma_double_escape_pairs_quotes(s.drop_first());
        let head = double_escape_char(s[0]);
        let tail = double_escape(s.drop_first());
        assert(double_escape(s) == head + tail);
        assert forall|i: int|
            0 <= i < double_escape(s).len() && #[trigger] double_escape(s)[i] == '\'' implies (i + 1
            < double_escape(s).len() && double_escape(s)[i + 1] == '\'') || (i > 0 && double_escape(
            s,
        )[i - 1] == '\'') by {
            let whole = head + tail;
            if i < head.len() {
                assert(whole[i] == head[i]);
                if s[0] == '\'' {
                    assert(head =~= seq!['\'', '\'']);
                    if i == 0 {
                        assert(whole[1] == '\'');
                    } else {
                        assert(whole[0] == '\'');
                    }
                } else {
                    assert(head =~= seq![s[0]]);
                }
            } else {
                let k = i - head.len() as int;
                assert(whole[i] == tail[k]);
                if k + 1 < tail.len() && tail[k + 1] == '\'' {
                    assert(whole[i + 1] == tail[k + 1]);
                } else {
                    assert(k > 0 && tail[k - 1] == '\'');
                    assert(whole[i - 1] == tail[k - 1]);
                }
            }
        }
    }
}

fn emit_escaped(out: &mut Vec<char>, s: &str, doubled: bool)
    ensures
        final(out)@ == old(out)@ + if doubled {
            double_escape(s@)
        } else {
            bs_escape(s@)
        },
{
    let cs = crate::text::str_chars(s);
    let n = cs.len();
    let ghost f = if doubled {
        |c: char| double_escape_char(c)
    } else {
        |c: char| bs_escape_char(c)
    };
    let mut i: usize = 0;
    proof {
        assert(concat_map(s@.subrange(0, 0), f) =~= Seq::<char>::empty());
        assert(out@ =~= old(out)@ + concat_map(s@.subrange(0, 0), f));
    }
    while i < n
        invariant
            i <= n,
            n == cs@.len(),
            cs@ == s@,
            f == (if doubled {
                |c: char| double_escape_char(c)
            } else {
                |c: char| bs_escape_char(c)
            }),
            out@ == old(out)@ + concat_map(s@.subrange(0, i as int), f),
        decreases n - i,
    {
        let c = cs[i];
        if c == '\'' {
            if doubled {
                out.push('\'');
                out.push('\'');
            } else {
                out.push('\\');
                out.push('\'');
            }
        } else {
            out.push(c);
        }
        proof {
            assert(s@.subrange(0, i as int).push(s@[i as int]) =~= s@.subrange(0, i + 1 as int));
            lemma_concat_map_snoc(s@.subrange(0, i as int), s@[i as int], f);
            assert(out@ =~= old(out)@ + concat_map(s@.subrange(0, i + 1 as int), f));
        }
        i = i + 1;
    }
    proof {
        assert(s@.subrange(0, n as int) =~= s@);
    }
}

/// The rendering of one scalar inside a property clause: strings single-
/// quoted with the backslash escape, numbers and booleans as their literal
/// text, null as the literal `null`.
pub open spec fn render_scalar(v: ScalarV) -> Seq<char> {
    match v {
        ScalarV::Str(s) => seq!['\''] + bs_escape(s) + seq!['\''],
        ScalarV::Num(t) => t,
        ScalarV::Bool(b) => if b {
            crate::json_parse::true_token()
        } else {
            crate::json_parse::false_token()
        },
        ScalarV::Null => crate::json_parse::null_token(),
    }
}

/// The rendering of a property value: a scalar, or a bracketed,
/// comma-joined list of scalars.
pub open spec fn render_value(v: PropValueV) -> Seq<char> {
    match v {
        PropValueV::Scalar(sc) => render_scalar(sc),
        PropValueV::Arr(vs) => seq!['['] + render_array_items(vs) + seq![']'],
    }
}

/// The comma-joined renderings of array elements.
pub open spec fn render_array_items(vs: Seq<ScalarV>) -> Seq<char>
    decreases vs.len(),
{
    if vs.len() == 0 {
        Seq::empty()
    } else if vs.len() == 1 {
        render_scalar(vs[0])
    } else {
        render_scalar(vs[0]) + seq![',', ' '] + render_array_items(vs.drop_first())
    }
}

/// One `key: value` pair of a property clause. The key is rendered
/// unquoted.
pub open spec fn render_pair(e: (Seq<char>, PropValueV)) -> Seq<char> {
    e.0 + seq![':', ' '] + render_value(e.1)
}

/// The comma-joined pairs of a property clause.
pub open spec fn render_pairs(m: Seq<(Seq<char>, PropValueV)>) -> Seq<char>
    decreases m.len(),
{
    if m.len() == 0 {
        Seq::empty()
    } else if m.len() == 1 {
        render_pair(m[0])
    } else {
        render_pair(m[0]) + seq![',', ' '] + render_pairs(m.drop_first())
    }
}

/// The brace-delimited property clause of a whole map.
pub open spec fn spec_props_clause(m: Seq<(Seq<char>, PropValueV)>) -> Seq<char> {
    seq!['{'] + render_pairs(m) + seq!['}']
}

pub proof fn lemma_render_pairs_snoc(m: Seq<(Seq<char>, PropValueV)>, e: (Seq<char>, PropValueV))
    ensures
        render_pairs(m.push(e)) == if m.len() == 0 {
            render_pair(e)
        } else {
            render_pairs(m) + seq![',', ' '] + render_pair(e)
        },
    decreases m.len(),
{
    if m.len() == 0 {
        assert(m.push(e)[0] == e);
        assert(m.push(e).len() == 1);
    } else {
        assert(m.push(e).drop_first() =~= m.drop_first().push(e));
        lemma_render_pairs_snoc(m.drop_first(), e);
        assert(m.push(e)[0] == m[0]);
        if m.len() == 1 {
            assert(render_pairs(m) == render_pair(m[0]));
        } else {
            assert(render_pair(m[0]) + seq![',', ' '] + (render_pairs(m.drop_first()) + seq![
                ',',
                ' ',
            ] + render_pair(e)) =~= (render_pair(m[0]) + seq![',', ' '] + render_pairs(
                m.drop_first(),
            )) + seq![',', ' '] + render_pair(e));
        }
    }
}

proof fn lemma_render_items_snoc(vs: Seq<ScalarV>, v: ScalarV)
    ensures
        render_array_items(vs.push(v)) == if vs.len() == 0 {
            render_scalar(v)
        } else {
            render_array_items(vs) + seq![',', ' '] + render_scalar(v)
        },
    decreases vs.len(),
{
    if vs.len() == 0 {
        assert(vs.push(v)[0] == v);
        assert(vs.push(v).len() == 1);
    } else {
        assert(vs.push(v).drop_first() =~= vs.drop_first().push(v));
        lemma_render_items_snoc(vs.drop_first(), v);
        assert(vs.push(v)[0] == vs[0]);
        if vs.len() == 1 {
            assert(render_array_items(vs) == render_scalar(vs[0]));
        } else {
            assert(render_scalar(vs[0]) + seq![',', ' '] + (render_array_items(vs.drop_first())
                + seq![',', ' '] + render_scalar(v)) =~= (render_scalar(vs[0]) + seq![',', ' ']
                + render_array_items(vs.drop_first())) + seq![',', ' '] + render_scalar(v));
        }
    }
}

fn emit_rendered_scalar(out: &mut Vec<char>, v: &ScalarValue)
    ensures
        final(out)@ == old(out)@ + render_scalar(v@),
{
    match v {
        ScalarValue::Str(s) => {
            out.push('\'');
            emit_escaped(out, s.as_str(), false);
            out.push('\'');
            proof {
                assert(out@ =~= old(out)@ + render_scalar(v@));
            }
        },
        ScalarValue::Num(t) => {
            let cs = crate::text::str_chars(t.as_str());
            let n = cs.len();
            let mut i: usize = 0;
            while i < n
                invariant
                    i <= n,
                    n == cs@.len(),
                    cs@ == t@,
                    out@ == old(out)@ + t@.subrange(0, i as int),
                decreases n - i,
            {
                out.push(cs[i]);
                proof {
                    assert(out@ =~= old(out)@ + t@.subrange(0, i + 1 as int));
                }
                i = i + 1;
            }
            proof {
                assert(t@.subrange(0, n as int) =~= t@);
            }
        },
        ScalarValue::Bool(b) => {
            if *b {
                out.push('t');
                out.push('r');
                out.push('u');
                out.push('e');
                proof {
                    assert(out@ =~= old(out)@ + crate::json_parse::true_token());
                }
            } else {
                out.push('f');
                out.push('a');
                out.push('l');
                out.push('s');
                out.push('e');
                proof {
                    assert(out@ =~= old(out)@ + crate::json_parse::false_token());
                }
            }
        },
        ScalarValue::Null => {
            out.push('n');
            out.push('u');
            out.push('l');
            out.push('l');
            proof {
                assert(out@ =~= old(out)@ + crate::json_parse::null_token());
            }
        },
    }
}

fn emit_rendered_value(out: &mut Vec<char>, v: &PropValue)
    ensures
        final(out)@ == old(out)@ + render_value(v@),
{
    match v {
        PropValue::Scalar(sc) => {
            emit_rendered_scalar(out, sc);
        },
        PropValue::Arr(vs) => {
            out.push('[');
            let n = vs.len();
            let ghost vsv = vs@.map_values(|x: ScalarValue| x@);
            let mut i: usize = 0;
            while i < n
                invariant
                    i <= n,
                    n == vs@.len(),
                    vsv == vs@.map_values(|x: ScalarValue| x@),
                    out@ == old(out)@ + seq!['['] + render_array_items(vsv.subrange(0, i as int)),
                decreases n - i,
            {
                if i > 0 {
                    out.push(',');
                    out.push(' ');
                }
                emit_rendered_scalar(out, &vs[i]);
                proof {
                    assert(vsv.subrange(0, i as int).push(vsv[i as int]) =~= vsv.subrange(
                        0,
                        i + 1 as int,
                    ));
                    lemma_render_items_snoc(vsv.subrange(0, i as int), vsv[i as int]);
                    assert(vsv[i as int] == vs@[i as int]@);
                    assert(out@ =~= old(out)@ + seq!['['] + render_array_items(
                        vsv.subrange(0, i + 1 as int),
                    ));
                }
                i = i + 1;
            }
            out.push(']');
            proof {
                assert(vsv.subrange(0, n as int) =~= vsv);
                assert(out@ =~= old(out)@ + render_value(v@));
            }
        },
    }
}

/// Render the brace-delimited property clause of a map: each key unquoted,
/// each value per its kind, pairs joined with commas.
pub fn generate_props_clause(properties: &PropMap) -> (r: String)
    ensures
        r@ == spec_props_clause(properties@),
{
    let mut out: Vec<char> = Vec::new();
    out.push('{');
    let n = properties.entries.len();
    let ghost mv = properties@;
    let mut i: usize = 0;
    while i < n
        invariant
            i <= n,
            n == properties.entries@.len(),
            mv == properties@,
            out@ == seq!['{'] + render_pairs(mv.subrange(0, i as int)),
        decreases n - i,
    {
        if i > 0 {
            out.push(',');
            out.push(' ');
        }
        let key_chars = crate::text::str_chars(properties.entries[i].key.as_str());
        let kn = key_chars.len();
        let ghost pre = out@;
        let mut q: usize = 0;
        while q < kn
            invariant
                q <= kn,
                kn == key_chars@.len(),
                out@ == pre + key_chars@.subrange(0, q as int),
            decreases kn - q,
        {
            out.push(key_chars[q]);
            proof {
                assert(out@ =~= pre + key_chars@.subrange(0, q + 1 as int));
            }
            q = q + 1;
        }
        out.push(':');
        out.push(' ');
        emit_rendered_value(&mut out, &properties.entries[i].value);
        proof {
            assert(key_chars@.subrange(0, kn as int) =~= key_chars@);
            assert(mv.subrange(0, i as int).push(mv[i as int]) =~= mv.subrange(0, i + 1 as int));
            lemma_render_pairs_snoc(mv.subrange(0, i as int), mv[i as int]);
            assert(mv[i as int] == properties.entries@[i as int]@);
            assert(render_pair(mv[i as int]) == properties.entries@[i as int].key@ + seq![':', ' ']
                + render_value(properties.entries@[i as int].value@));
            assert(out@ =~= seq!['{'] + render_pairs(mv.subrange(0, i + 1 as int)));
        }
        i = i + 1;
    }
    out.push('}');
    proof {
        assert(mv.subrange(0, n as int) =~= mv);
        assert(out@ =~= spec_props_clause(mv));
    }
    string_from_chars(&out)
}

/// The digit character of a value below ten.
pub open spec fn digit_char(n: int) -> char {
    if n == 0 {
        '0'
    } else if n == 1 {
        '1'
    } else if n == 2 {
        '2'
    } else if n == 3 {
        '3'
    } else if n == 4 {
        '4'
    } else if n == 5 {
        '5'
    } else if n == 6 {
        '6'
    } else if n == 7 {
        '7'
    } else if n == 8 {
        '8'
    } else {
        '9'
    }
}

/// The decimal text of a nonnegative value.
pub open spec fn spec_decimal(n: int) -> Seq<char>
    decreases n,
{
    if n < 10 {
        seq![digit_char(n)]
    } else {
        spec_decimal(n / 10) + seq![digit_char(n % 10)]
    }
}

fn exec_digit_char(n: u64) -> (r: char)
    requires
        n < 10,
    ensures
        r == digit_char(n as int),
{
    if n == 0 {
        '0'
    } else if n == 1 {
        '1'
    } else if n == 2 {
        '2'
    } else if n == 3 {
        '3'
    } else if n == 4 {
        '4'
    } else if n == 5 {
        '5'
    } else if n == 6 {
        '6'
    } else if n == 7 {
        '7'
    } else if n == 8 {
        '8'
    } else {
        '9'
    }
}

/// Append the decimal text of `n`.
fn push_decimal(out: &mut Vec<char>, n: u64)
    ensures
        final(out)@ == old(out)@ + spec_decimal(n as int),
    decreases n,
{
    if n < 10 {
        out.push(exec_digit_char(n));
    } else {
        push_decimal(out, n / 10);
        out.push(exec_digit_char(n % 10));
        proof {
            assert(out@ =~= old(out)@ + spec_decimal(n as int));
        }
    }
}

/// The creation statement for a node: the label and the property clause
/// embedded in the engine's statement template.
pub open spec fn spec_create_node_query(
    gid: Seq<char>,
    label: Seq<char>,
    clause: Seq<char>,
) -> Seq<char> {
    "SELECT * FROM cypher('"@ + gid + "', $$ CREATE (n:"@ + label + " "@ + clause
        + ") RETURN n $$) as (row agtype)"@
}

/// Render the creation statement for a node with the given properties.
pub fn render_create_query(graph_id: &str, label: &str, properties: &PropMap) -> (r: String)
    ensures
        r@ == spec_create_node_query(graph_id@, label@, spec_props_clause(properties@)),
{
    let clause = generate_props_clause(properties);
    let mut out = String::new();
    out.append("SELECT * FROM cypher('");
    out.append(graph_id);
    out.append("', $$ CREATE (n:");
    out.append(label);
    out.append(" ");
    out.append(clause.as_str());
    out.append(") RETURN n $$) as (row agtype)");
    proof {
        reveal_strlit(" ");
        assert(" "@ =~= seq![' ']);
        assert(out@ =~= spec_create_node_query(graph_id@, label@, spec_props_clause(properties@)));
    }
    out
}

/// The lookup statement for a node of a type with a given `name` property.
/// The name is single-quoted with its quotes doubled.
pub open spec fn spec_match_by_name_query(
    gid: Seq<char>,
    label: Seq<char>,
    name: Seq<char>,
) -> Seq<char> {
    "SELECT * FROM cypher('"@ + gid + "', $$ MATCH (n:"@ + label + " {name: '"@ + double_escape(
        name,
    ) + "'}) RETURN n $$) as (row agtype)"@
}

/// Render the lookup statement for a node of a type with a given name.
pub fn render_match_by_name_query(graph_id: &str, label: &str, name: &str) -> (r: String)
    ensures
        r@ == spec_match_by_name_query(graph_id@, label@, name@),
{
    let mut escaped: Vec<char> = Vec::new();
    emit_escaped(&mut escaped, name, true);
    proof {
        assert(Seq::<char>::empty() + double_escape(name@) =~= double_escape(name@));
    }
    let esc = string_from_chars(&escaped);
    let mut out = String::new();
    out.append("SELECT * FROM cypher('");
    out.append(graph_id);
    out.append("', $$ MATCH (n:");
    out.append(label);
    out.append(" {name: '");
    out.append(esc.as_str());
    out.append("'}) RETURN n $$) as (row agtype)");
    proof {
        assert(out@ =~= spec_match_by_name_query(graph_id@, label@, name@));
    }
    out
}

/// The listing statement for nodes of a graph: optionally restricted to a
/// label, ordered by name, with five nodes to a page.
pub open spec fn spec_list_query(gid: Seq<char>, label: Option<Seq<char>>, offset: int) -> Seq<
    char,
> {
    match label {
        Some(l) => "SELECT * FROM cypher('"@ + gid + "', $$ MATCH (v:"@ + l
            + ") RETURN v ORDER BY v.name SKIP "@ + spec_decimal(offset) + " LIMIT 5 $$) as (row agtype)"@,
        None => "SELECT * FROM cypher('"@ + gid + "', $$ MATCH (v) RETURN v ORDER BY v.name SKIP "@
            + spec_decimal(offset) + " LIMIT 5 $$) as (row agtype)"@,
    }
}

/// The page size of a listing.
pub open spec fn page_size() -> int {
    5
}

/// Render the listing statement for a page of nodes. Pages are numbered
/// from one; the offset skips the earlier pages.
pub fn render_list_query(graph_id: &str, label: Option<&str>, page: u32) -> (r: String)
    requires
        page >= 1,
    ensures
        r@ == spec_list_query(
            graph_id@,
            match label {
                Some(l) => Some(l@),
                None => None,
            },
            (page - 1) * page_size(),
        ),
{
    let offset: u64 = (page as u64 - 1) * 5;
    let mut digits: Vec<char> = Vec::new();
    push_decimal(&mut digits, offset);
    proof {
        assert(Seq::<char>::empty() + spec_decimal(offset as int) =~= spec_decimal(offset as int));
    }
    let off = string_from_chars(&digits);
    let mut out = String::new();
    out.append("SELECT * FROM cypher('");
    out.append(graph_id);
    match label {
        Some(l) => {
            out.append("', $$ MATCH (v:");
            out.append(l);
            out.append(") RETURN v ORDER BY v.name SKIP ");
            out.append(off.as_str());
            out.append(" LIMIT 5 $$) as (row agtype)");
            proof {
                assert(out@ =~= spec_list_query(
                    graph_id@,
                    Some(l@),
                    (page - 1) as int * page_size(),
                ));
            }
        },
        None => {
            out.append("', $$ MATCH (v) RETURN v ORDER BY v.name SKIP ");
            out.append(off.as_str());
            out.append(" LIMIT 5 $$) as (row agtype)");
            proof {
                assert(out@ =~= spec_list_query(graph_id@, None, (page - 1) as int * page_size()));
            }
        },
    }
    out
}

} // verus!
