//! The decoder for the graph engine's tagged wire encoding of query
//! results. A wire value is `<content>::<type-tag>`: the text after the
//! last `::` is the type tag, the text before it is the content. Only the
//! `vertex` tag is decodable; the content is then one payload object with
//! a string `label` and a `properties` object.

use vstd::prelude::*;
use crate::json::{PropValueV, PropMap};
use crate::json_parse::{parse_vertex_payload, exec_parse_vertex_payload, copy_range};
use crate::text::str_chars;

verus! {

/// A decoded vertex: its label and its properties.
#[derive(Debug)]
pub struct Vertex {
    pub label: String,
    pub properties: PropMap,
}

/// A decoded wire value, tagged by the engine type that produced it.
#[derive(Debug)]
pub enum WireValue {
    Vertex(Vertex),
}

/// Why a wire value could not be decoded.
#[derive(Debug, PartialEq, Eq, Structural, Clone, Copy)]
pub enum WireDecodeError {
    /// The string holds no `::` delimiter at all.
    MalformedWireValue,
    /// The type tag is not one the decoder knows.
    UnsupportedWireType,
    /// The tag is known but the content is not a well-formed payload.
    MalformedPayload,
}

/// A `::` delimiter stands at `j`.
pub open spec fn dsep_at(s: Seq<char>, j: int) -> bool {
    0 <= j && j + 2 <= s.len() && s[j] == ':' && s[j + 1] == ':'
}

/// The greatest delimiter position strictly below `i`, if any.
pub open spec fn last_dsep_before(s: Seq<char>, i: int) -> Option<int>
    decreases i when i >= 0
{
    if i <= 0 {
        None
    } else if dsep_at(s, i - 1) {
        Some(i - 1)
    } else {
        last_dsep_before(s, i - 1)
    }
}

/// The position of the last `::` delimiter of the string, if any.
pub open spec fn last_dsep(s: Seq<char>) -> Option<int> {
    last_dsep_before(s, s.len() as int)
}

/// A control character: the Unicode control category, code points up to
/// 0x1F and 0x7F through 0x9F.
pub open spec fn is_control_char(c: char) -> bool {
    (c as u32) < 0x20 || (0x7F <= (c as u32) && (c as u32) <= 0x9F)
}

/// The first index at or after `i` holding no control character.
pub open spec fn skip_control(s: Seq<char>, i: int) -> int
    decreases s.len() - i when 0 <= i <= s.len()
{
    if i < s.len() && is_control_char(s[i]) {
        skip_control(s, i + 1)
    } else {
        i
    }
}

/// The string with its leading control characters removed.
pub open spec fn strip_leading_control(s: Seq<char>) -> Seq<char> {
    s.subrange(skip_control(s, 0), s.len() as int)
}

pub open spec fn vertex_tag() -> Seq<char> {
    seq!['v', 'e', 'r', 't', 'e', 'x']
}

/// What decoding a raw wire string yields: the label and properties of a
/// vertex, or the error that the string earns. No `::` at all is malformed;
/// a last tag other than `vertex` is unsupported; a `vertex` tag whose
/// content (after the control trim) is no payload object is a malformed
/// payload.
pub open spec fn spec_decode_wire(s: Seq<char>) -> Result<
    (Seq<char>, Seq<(Seq<char>, PropValueV)>),
    WireDecodeError,
> {
    match last_dsep(s) {
        None => Err(WireDecodeError::MalformedWireValue),
        Some(j) => {
            if s.subrange(j + 2, s.len() as int) == vertex_tag() {
                let content = strip_leading_control(s.subrange(0, j));
                match parse_vertex_payload(content) {
                    Some((l, props)) => Ok((l, props)),
                    None => Err(WireDecodeError::MalformedPayload),
                }
            } else {
                Err(WireDecodeError::UnsupportedWireType)
            }
        },
    }
}

fn exec_last_dsep(s: &Vec<char>) -> (r: Option<usize>)
    ensures
        match r {
            Some(j) => last_dsep(s@) == Some(j as int) && j + 2 <= s@.len(),
            None => last_dsep(s@) is None,
        },
{
    let n = s.len();
    let mut i = n;
    while i > 0
        invariant
            i <= n,
            n == s@.len(),
            last_dsep(s@) == last_dsep_before(s@, i as int),
        decreases i,
    {
        if i < n && s[i - 1] == ':' && s[i] == ':' {
            proof {
                assert(dsep_at(s@, i - 1));
            }
            return Some(i - 1);
        }
        proof {
            assert(!dsep_at(s@, i - 1));
        }
        i = i - 1;
    }
    None
}

fn exec_skip_control(s: &Vec<char>, i: usize) -> (r: usize)
    requires
        i <= s@.len(),
    ensures
        r == skip_control(s@, i as int),
        i <= r <= s@.len(),
{
    let n = s.len();
    let mut p = i;
    while p < n && ((s[p] as u32) < 0x20 || (0x7F <= (s[p] as u32) && (s[p] as u32) <= 0x9F))
        invariant
            i <= p <= n,
            n == s@.len(),
            skip_control(s@, i as int) == skip_control(s@, p as int),
        decreases n - p,
    {
        p = p + 1;
    }
    p
}

/// Decode one raw wire string into a structured wire value, or say exactly
/// why it cannot be decoded.
pub fn decode_wire_value(raw: &str) -> (r: Result<WireValue, WireDecodeError>)
    ensures
        match r {
            Ok(WireValue::Vertex(v)) => spec_decode_wire(raw@) == Ok::<
                (Seq<char>, Seq<(Seq<char>, PropValueV)>),
                WireDecodeError,
            >((v.label@, v.properties@)),
            Err(e) => spec_decode_wire(raw@) == Err::<
                (Seq<char>, Seq<(Seq<char>, PropValueV)>),
                WireDecodeError,
            >(e),
        },
{
    let chars = str_chars(raw);
    let n = chars.len();
    match exec_last_dsep(&chars) {
        None => Err(WireDecodeError::MalformedWireValue),
        Some(j) => {
            let tag = copy_range(&chars, j + 2, n);
            let vt = vec!['v', 'e', 'r', 't', 'e', 'x'];
            proof {
                assert(vt@ =~= vertex_tag());
            }
            if crate::text::chars_eq(&tag, &vt) {
                let head = copy_range(&chars, 0, j);
                let start = exec_skip_control(&head, 0);
                let content = copy_range(&head, start, head.len());
                proof {
                    assert(content@ =~= strip_leading_control(raw@.subrange(0, j as int)));
                }
                match exec_parse_vertex_payload(&content) {
                    Some((l, pm)) => Ok(WireValue::Vertex(Vertex { label: l, properties: pm })),
                    None => Err(WireDecodeError::MalformedPayload),
                }
            } else {
                Err(WireDecodeError::UnsupportedWireType)
            }
        },
    }
}

/// The wire form of a vertex: its payload text followed by the vertex tag.
pub open spec fn encode_wire_vertex(label: Seq<char>, props: Seq<(Seq<char>, PropValueV)>) -> Seq<
    char,
> {
    crate::json_encode::encode_vertex_payload(label, props) + seq![':', ':'] + vertex_tag()
}

/// Render the wire form of a vertex.
pub fn exec_encode_wire_vertex(label: &str, props: &PropMap) -> (r: String)
    ensures
        r@ == encode_wire_vertex(label@, props@),
{
    let payload = crate::json_encode::exec_encode_vertex_payload(label, props);
    let chars = str_chars(payload.as_str());
    let mut out = chars;
    out.push(':');
    out.push(':');
    out.push('v');
    out.push('e');
    out.push('r');
    out.push('t');
    out.push('e');
    out.push('x');
    proof {
        assert(out@ =~= encode_wire_vertex(label@, props@));
    }
    crate::text::string_from_chars(&out)
}

/// An unrecognized type tag always fails the decode with
/// `UnsupportedWireType`: no part of the content is ever interpreted.
pub proof fn lemma_unsupported_tag_rejected(s: Seq<char>, j: int)
    requires
        last_dsep(s) == Some(j),
        s.subrange(j + 2, s.len() as int) != vertex_tag(),
    ensures
        spec_decode_wire(s) == Err::<(Seq<char>, Seq<(Seq<char>, PropValueV)>), WireDecodeError>(
            WireDecodeError::UnsupportedWireType,
        ),
{
}

/// A string without any `::` delimiter always fails the decode with
/// `MalformedWireValue`.
pub proof fn lemma_no_delimiter_rejected(s: Seq<char>)
    requires
        last_dsep(s) is None,
    ensures
        spec_decode_wire(s) == Err::<(Seq<char>, Seq<(Seq<char>, PropValueV)>), WireDecodeError>(
            WireDecodeError::MalformedWireValue,
        ),
{
}

} // verus!
