//! The value model for entity properties: scalars (string, number, boolean,
//! null) and flat arrays of scalars. Nested arrays and nested objects are
//! outside the data model and are rejected wherever they could arise.
//!
//! A number is carried as its literal token text; the text is well-formed
//! when it parses as a complete JSON number token.

use vstd::prelude::*;
use crate::text::is_ascii_digit;

verus! {

/// A scalar property value.
#[derive(Debug, Clone)]
pub enum ScalarValue {
    Str(String),
    /// The literal text of a JSON number token.
    Num(String),
    Bool(bool),
    Null,
}

/// A property value: a scalar or a flat array of scalars.
#[derive(Debug, Clone)]
pub enum PropValue {
    Scalar(ScalarValue),
    Arr(Vec<ScalarValue>),
}

/// One key/value pair of a property map.
#[derive(Debug, Clone)]
pub struct PropEntry {
    pub key: String,
    pub value: PropValue,
}

/// A property map: key/value pairs in a fixed order. Lookup takes the first
/// entry with the given key.
#[derive(Debug, Clone)]
pub struct PropMap {
    pub entries: Vec<PropEntry>,
}

/// The mathematical form of a scalar.
pub enum ScalarV {
    Str(Seq<char>),
    Num(Seq<char>),
    Bool(bool),
    Null,
}

/// The mathematical form of a property value.
pub enum PropValueV {
    Scalar(ScalarV),
    Arr(Seq<ScalarV>),
}

impl View for ScalarValue {
    type V = ScalarV;

    open spec fn view(&self) -> ScalarV {
        match self {
            ScalarValue::Str(s) => ScalarV::Str(s@),
            ScalarValue::Num(t) => ScalarV::Num(t@),
            ScalarValue::Bool(b) => ScalarV::Bool(*b),
            ScalarValue::Null => ScalarV::Null,
        }
    }
}

impl View for PropValue {
    type V = PropValueV;

    open spec fn view(&self) -> PropValueV {
        match self {
            PropValue::Scalar(v) => PropValueV::Scalar(v@),
            PropValue::Arr(vs) => PropValueV::Arr(vs@.map_values(|v: ScalarValue| v@)),
        }
    }
}

impl View for PropEntry {
    type V = (Seq<char>, PropValueV);

    open spec fn view(&self) -> (Seq<char>, PropValueV) {
        (self.key@, self.value@)
    }
}

impl View for PropMap {
    type V = Seq<(Seq<char>, PropValueV)>;

    open spec fn view(&self) -> Seq<(Seq<char>, PropValueV)> {
        self.entries@.map_values(|e: PropEntry| e@)
    }
}

/// The first index of `s` at or after `i` that holds no decimal digit.
pub open spec fn digits_end(s: Seq<char>, i: int) -> int
    decreases s.len() - i when 0 <= i <= s.len()
{
    if i < s.len() && is_ascii_digit(s[i]) {
        digits_end(s, i + 1)
    } else {
        i
    }
}

/// Parse a JSON number token of `s` starting at `i`: an optional minus sign,
/// an integer part (`0`, or a nonzero digit followed by digits), an optional
/// fraction, and an optional exponent. Returns the token text and the
/// position after it.
pub open spec fn parse_number_at(s: Seq<char>, i: int) -> Option<(Seq<char>, int)> {
    let j0 = if i < s.len() && s[i] == '-' {
        i + 1
    } else {
        i
    };
    if !(j0 < s.len() && is_ascii_digit(s[j0])) {
        None
    } else {
        let j1 = if s[j0] == '0' {
            j0 + 1
        } else {
            digits_end(s, j0)
        };
        let frac_end = if j1 < s.len() && s[j1] == '.' {
            if j1 + 1 < s.len() && is_ascii_digit(s[j1 + 1]) {
                Some(digits_end(s, j1 + 1))
            } else {
                None
            }
        } else {
            Some(j1)
        };
        match frac_end {
            None => None,
            Some(j2) => {
                let exp_end = if j2 < s.len() && (s[j2] == 'e' || s[j2] == 'E') {
                    let k = if j2 + 1 < s.len() && (s[j2 + 1] == '+' || s[j2 + 1] == '-') {
                        j2 + 2
                    } else {
                        j2 + 1
                    };
                    if k < s.len() && is_ascii_digit(s[k]) {
                        Some(digits_end(s, k))
                    } else {
                        None
                    }
                } else {
                    Some(j2)
                };
                match exp_end {
                    None => None,
                    Some(j3) => Some((s.subrange(i, j3), j3)),
                }
            },
        }
    }
}

/// The text is one complete, well-formed JSON number token.
pub open spec fn is_number_text(s: Seq<char>) -> bool {
    parse_number_at(s, 0) == Some((s, s.len() as int))
}

/// A well-formed scalar: number texts are complete number tokens.
pub open spec fn scalar_wf(v: ScalarV) -> bool {
    match v {
        ScalarV::Num(t) => is_number_text(t),
        _ => true,
    }
}

/// A well-formed property value: its scalars are well-formed.
pub open spec fn prop_value_wf(v: PropValueV) -> bool {
    match v {
        PropValueV::Scalar(s) => scalar_wf(s),
        PropValueV::Arr(vs) => forall|i: int| 0 <= i < vs.len() ==> scalar_wf(#[trigger] vs[i]),
    }
}

/// A well-formed property map: every value is well-formed.
pub open spec fn prop_map_wf(m: Seq<(Seq<char>, PropValueV)>) -> bool {
    forall|i: int| 0 <= i < m.len() ==> prop_value_wf(#[trigger] m[i].1)
}

/// The value of the first entry whose key is `key`, if any.
pub open spec fn spec_lookup(m: Seq<(Seq<char>, PropValueV)>, key: Seq<char>) -> Option<PropValueV>
    decreases m.len(),
{
    if m.len() == 0 {
        None
    } else if m[0].0 == key {
        Some(m[0].1)
    } else {
        spec_lookup(m.drop_first(), key)
    }
}

/// The map without any entry bound to `key`, order kept.
pub open spec fn spec_remove_key(
    m: Seq<(Seq<char>, PropValueV)>,
    key: Seq<char>,
) -> Seq<(Seq<char>, PropValueV)>
    decreases m.len(),
{
    if m.len() == 0 {
        Seq::empty()
    } else if m[0].0 == key {
        spec_remove_key(m.drop_first(), key)
    } else {
        seq![m[0]] + spec_remove_key(m.drop_first(), key)
    }
}

/// The map with `key` bound to `v`: earlier bindings of the key dropped,
/// the new one at the end.
pub open spec fn spec_set(
    m: Seq<(Seq<char>, PropValueV)>,
    key: Seq<char>,
    v: PropValueV,
) -> Seq<(Seq<char>, PropValueV)> {
    spec_remove_key(m, key).push((key, v))
}

/// Removing a key removes every binding of it and no other.
pub proof fn lemma_remove_key_lookup(
    m: Seq<(Seq<char>, PropValueV)>,
    key: Seq<char>,
    other: Seq<char>,
)
    ensures
        spec_lookup(spec_remove_key(m, key), key) is None,
        other != key ==> spec_lookup(spec_remove_key(m, key), other) == spec_lookup(m, other),
    decreases m.len(),
{
    if m.len() > 0 {
        lemma_remove_key_lookup(m.drop_first(), key, other);
        if m[0].0 == key {
        } else {
            let rest = spec_remove_key(m.drop_first(), key);
            assert((seq![m[0]] + rest).drop_first() =~= rest);
        }
    }
}

/// After a binding is set, looking its key up finds exactly the new value,
/// and every other key resolves as before.
pub proof fn lemma_lookup_after_set(
    m: Seq<(Seq<char>, PropValueV)>,
    key: Seq<char>,
    v: PropValueV,
    other: Seq<char>,
)
    ensures
        spec_lookup(spec_set(m, key, v), key) == Some(v),
        other != key ==> spec_lookup(spec_set(m, key, v), other) == spec_lookup(m, other),
{
    lemma_remove_key_lookup(m, key, other);
    lemma_lookup_push(spec_remove_key(m, key), key, v, key);
    lemma_lookup_push(spec_remove_key(m, key), key, v, other);
}

/// Looking a key up in a map with one binding appended: an existing
/// binding still wins; otherwise the appended one is found.
proof fn lemma_lookup_push(
    m: Seq<(Seq<char>, PropValueV)>,
    key: Seq<char>,
    v: PropValueV,
    probe: Seq<char>,
)
    ensures
        spec_lookup(m.push((key, v)), probe) == (match spec_lookup(m, probe) {
            Some(w) => Some(w),
            None => if probe == key {
                Some(v)
            } else {
                None
            },
        }),
    decreases m.len(),
{
    if m.len() == 0 {
        assert(m.push((key, v)).len() == 1);
        assert(m.push((key, v))[0] == (key, v));
    } else {
        assert(m.push((key, v)).drop_first() =~= m.drop_first().push((key, v)));
        lemma_lookup_push(m.drop_first(), key, v, probe);
        assert(m.push((key, v))[0] == m[0]);
    }
}

impl PropMap {
    /// The empty property map.
    pub fn new() -> (r: PropMap)
        ensures
            r@ =~= Seq::<(Seq<char>, PropValueV)>::empty(),
    {
        PropMap { entries: Vec::new() }
    }

    pub open spec fn spec_len(&self) -> nat {
        self@.len()
    }

    pub fn len(&self) -> (r: usize)
        ensures
            r == self.spec_len(),
    {
        self.entries.len()
    }

    /// The value bound to `key`: the first entry with that key, if any.
    pub fn get(&self, key: &str) -> (r: Option<&PropValue>)
        ensures
            match r {
                Some(v) => spec_lookup(self@, key@) == Some(v@),
                None => spec_lookup(self@, key@) is None,
            },
    {
        let n = self.entries.len();
        let mut i: usize = 0;
        proof {
            assert(self@.skip(0) =~= self@);
        }
        while i < n
            invariant
                n == self.entries.len(),
                i <= n,
                spec_lookup(self@, key@) == spec_lookup(self@.skip(i as int), key@),
                forall|j: int| 0 <= j < i ==> #[trigger] self@[j].0 != key@,
            decreases n - i,
        {
            proof {
                assert(self@.skip(i as int)[0] == self@[i as int]);
            }
            if crate::text::str_eq(self.entries[i].key.as_str(), key) {
                return Some(&self.entries[i].value);
            }
            proof {
                assert(self@.skip(i as int).drop_first() =~= self@.skip(i + 1 as int));
            }
            i = i + 1;
        }
        proof {
            assert(self@.skip(n as int) =~= Seq::<(Seq<char>, PropValueV)>::empty());
        }
        None
    }

    /// Whether some entry has the key.
    pub fn contains_key(&self, key: &str) -> (r: bool)
        ensures
            r == (spec_lookup(self@, key@) is Some),
    {
        self.get(key).is_some()
    }

    /// Bind `key` to `value`: any earlier entries with the key are dropped
    /// and the new binding stands at the end.
    pub fn set(&mut self, key: String, value: PropValue)
        ensures
            final(self)@ == spec_set(old(self)@, key@, value@),
    {
        let n = self.entries.len();
        let ghost mv = self@;
        let mut out: Vec<PropEntry> = Vec::new();
        let mut i: usize = 0;
        proof {
            assert(mv.skip(0) =~= mv);
            assert(out@.map_values(|e: PropEntry| e@) =~= Seq::<(Seq<char>, PropValueV)>::empty());
            assert(spec_remove_key(mv, key@) =~= out@.map_values(|e: PropEntry| e@)
                + spec_remove_key(mv.skip(0), key@));
        }
        while i < n
            invariant
                i <= n,
                n == self.entries@.len(),
                mv == self@,
                spec_remove_key(mv, key@) == out@.map_values(|e: PropEntry| e@) + spec_remove_key(
                    mv.skip(i as int),
                    key@,
                ),
            decreases n - i,
        {
            let ghost pre = out@.map_values(|e: PropEntry| e@);
            proof {
                assert(mv.skip(i as int)[0] == mv[i as int]);
                assert(mv.skip(i as int).drop_first() =~= mv.skip(i + 1 as int));
            }
            if !crate::text::str_eq(self.entries[i].key.as_str(), key.as_str()) {
                let e = PropEntry {
                    key: self.entries[i].key.clone(),
                    value: crate::json_parse::clone_prop_value(&self.entries[i].value),
                };
                let ghost ev = e@;
                out.push(e);
                proof {
                    let f = |x: PropEntry| x@;
                    assert(ev == mv[i as int]);
                    assert(out@.map_values(f) =~= pre.push(ev)) by {
                        assert(out@.map_values(f).len() == pre.len() + 1);
                        assert forall|q: int| 0 <= q < out@.len() implies out@.map_values(f)[q]
                            == pre.push(ev)[q] by {
                            assert(out@.map_values(f)[q] == f(out@[q]));
                            if q < pre.len() {
                                assert(pre[q] == f(out@[q]));
                            }
                        }
                    }
                    assert(pre + (seq![ev] + spec_remove_key(mv.skip(i + 1 as int), key@)) =~= pre.push(
                        ev,
                    ) + spec_remove_key(mv.skip(i + 1 as int), key@));
                }
            }
            i = i + 1;
        }
        proof {
            assert(mv.skip(n as int) =~= Seq::<(Seq<char>, PropValueV)>::empty());
            assert(spec_remove_key(mv, key@) =~= out@.map_values(|e: PropEntry| e@));
        }
        let ghost keyv = key@;
        let ghost valv = value@;
        out.push(PropEntry { key, value });
        proof {
            let f = |x: PropEntry| x@;
            assert(out@.map_values(f) =~= spec_remove_key(mv, keyv).push((keyv, valv))) by {
                assert(out@.map_values(f).len() == spec_remove_key(mv, keyv).len() + 1);
                assert forall|q: int| 0 <= q < out@.len() implies out@.map_values(f)[q]
                    == spec_remove_key(mv, keyv).push((keyv, valv))[q] by {
                    assert(out@.map_values(f)[q] == f(out@[q]));
                    if q < spec_remove_key(mv, keyv).len() {
                        assert(out@.drop_last().map_values(f)[q] == f(out@.drop_last()[q]));
                        assert(out@.drop_last()[q] == out@[q]);
                    }
                }
            }
        }
        self.entries = out;
    }

    /// Append an entry at the end.
    pub fn push(&mut self, key: String, value: PropValue)
        ensures
            final(self)@ =~= old(self)@.push((key@, value@)),
    {
        self.entries.push(PropEntry { key, value });
    }
}

} // verus!
