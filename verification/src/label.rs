//! Naming rules for labels and shape rules for property maps: what a
//! label may be called, and what keys and values a property map may carry
//! before it is let anywhere near the query synthesizer.

use vstd::prelude::*;
use crate::text::{is_ascii_letter, is_ascii_alphanumeric, str_chars};
use crate::json::{PropMap, PropValueV, ScalarV, PropValue, ScalarValue};

verus! {

/// A label character: an ASCII letter, a digit or an underscore.
pub open spec fn is_label_char(c: char) -> bool {
    is_ascii_alphanumeric(c) || c == '_'
}

/// Every character of the label is a label character.
pub open spec fn label_chars_ok(s: Seq<char>) -> bool {
    forall|i: int| 0 <= i < s.len() ==> is_label_char(#[trigger] s[i])
}

/// Why a label name was refused.
#[derive(Debug, PartialEq, Eq, Structural, Clone, Copy)]
pub enum LabelError {
    Empty,
    TooLong,
    MustStartWithLetter,
    InvalidCharacters,
}

impl LabelError {
    /// The report text of the refusal.
    pub open spec fn spec_message(&self) -> Seq<char> {
        match self {
            LabelError::Empty => "Label name cannot be empty"@,
            LabelError::TooLong => "Label name too long (max 50 chars)"@,
            LabelError::MustStartWithLetter => "Label must start with a letter"@,
            LabelError::InvalidCharacters => "Label can only contain letters, numbers, and underscores"@,
        }
    }

    /// Render the refusal for a report.
    pub fn message(&self) -> (r: &'static str)
        ensures
            r@ == self.spec_message(),
    {
        match self {
            LabelError::Empty => "Label name cannot be empty",
            LabelError::TooLong => "Label name too long (max 50 chars)",
            LabelError::MustStartWithLetter => "Label must start with a letter",
            LabelError::InvalidCharacters => "Label can only contain letters, numbers, and underscores",
        }
    }
}

/// A request to register a label with the graph engine.
pub struct CreateLabelRequest {
    pub label: String,
}

impl CreateLabelRequest {
    /// Check the label against the engine's naming rules: not empty, at
    /// most fifty bytes, first character an ASCII letter, every character
    /// a letter, digit or underscore. The first broken rule is reported.
    pub fn validate(&self) -> (r: Result<(), LabelError>)
        ensures
            match r {
                Ok(_) => self.label@.len() > 0 && self.label@.len() <= 50
                    && is_ascii_letter(self.label@[0]) && label_chars_ok(self.label@),
                Err(LabelError::Empty) => self.label@.len() == 0,
                Err(LabelError::TooLong) => self.label@.len() > 0 && self.label@.len() > 50,
                Err(LabelError::MustStartWithLetter) => self.label@.len() > 0 && self.label@.len() <= 50 && !is_ascii_letter(self.label@[0]),
                Err(LabelError::InvalidCharacters) => self.label@.len() > 0 && self.label@.len() <= 50 && is_ascii_letter(self.label@[0]) && !label_chars_ok(self.label@),
            },
    {
        let chars = str_chars(self.label.as_str());
        if chars.len() == 0 {
            return Err(LabelError::Empty);
        }
        if chars.len() > 50 {
            return Err(LabelError::TooLong);
        }
        let c0 = chars[0];
        if !(('A' <= c0 && c0 <= 'Z') || ('a' <= c0 && c0 <= 'z')) {
            return Err(LabelError::MustStartWithLetter);
        }
        match first_bad_label_char(&chars) {
            Some(_) => Err(LabelError::InvalidCharacters),
            None => Ok(()),
        }
    }
}

/// The first character of the label that no label may carry, if any.
fn first_bad_label_char(chars: &Vec<char>) -> (r: Option<usize>)
    ensures
        match r {
            Some(i) => 0 <= i < chars@.len() && !is_label_char(chars@[i as int]),
            None => label_chars_ok(chars@),
        },
{
    let n = chars.len();
    let mut i: usize = 0;
    while i < n
        invariant
            i <= n,
            n == chars@.len(),
            forall|q: int| 0 <= q < i ==> is_label_char(#[trigger] chars@[q]),
        decreases n - i,
    {
        let c = chars[i];
        if !(crate::text::exec_is_ascii_alphanumeric(c) || c == '_') {
            return Some(i);
        }
        i = i + 1;
    }
    None
}

/// Why a label or property map broke a shape rule. The rule's name is the
/// code under which the refusal is reported.
#[derive(Debug, PartialEq, Eq, Structural, Clone, Copy)]
pub enum PropertyRuleError {
    LabelMustStartWithLetter,
    InvalidLabelCharacters,
    EdgeLabelTooLong,
    EdgeLabelContainsArrow,
    TooManyProperties,
    PropertyKeyTooLong,
    InvalidPropertyKeyCharacters,
    StringValueTooLong,
    ArrayTooLarge,
    ArrayStringTooLong,
    NullValuesNotAllowed,
}

impl PropertyRuleError {
    /// The code under which the broken rule is reported.
    pub open spec fn spec_code(&self) -> Seq<char> {
        match self {
            PropertyRuleError::LabelMustStartWithLetter => "label_must_start_with_letter"@,
            PropertyRuleError::InvalidLabelCharacters => "invalid_label_characters"@,
            PropertyRuleError::EdgeLabelTooLong => "edge_label_too_long"@,
            PropertyRuleError::EdgeLabelContainsArrow => "edge_label_contains_arrow"@,
            PropertyRuleError::TooManyProperties => "too_many_properties"@,
            PropertyRuleError::PropertyKeyTooLong => "property_key_too_long"@,
            PropertyRuleError::InvalidPropertyKeyCharacters => "invalid_property_key_characters"@,
            PropertyRuleError::StringValueTooLong => "string_value_too_long"@,
            PropertyRuleError::ArrayTooLarge => "array_too_large"@,
            PropertyRuleError::ArrayStringTooLong => "array_string_too_long"@,
            PropertyRuleError::NullValuesNotAllowed => "null_values_not_allowed"@,
        }
    }

    /// The rule's code.
    pub fn code(&self) -> (r: &'static str)
        ensures
            r@ == self.spec_code(),
    {
        match self {
            PropertyRuleError::LabelMustStartWithLetter => "label_must_start_with_letter",
            PropertyRuleError::InvalidLabelCharacters => "invalid_label_characters",
            PropertyRuleError::EdgeLabelTooLong => "edge_label_too_long",
            PropertyRuleError::EdgeLabelContainsArrow => "edge_label_contains_arrow",
            PropertyRuleError::TooManyProperties => "too_many_properties",
            PropertyRuleError::PropertyKeyTooLong => "property_key_too_long",
            PropertyRuleError::InvalidPropertyKeyCharacters => "invalid_property_key_characters",
            PropertyRuleError::StringValueTooLong => "string_value_too_long",
            PropertyRuleError::ArrayTooLarge => "array_too_large",
            PropertyRuleError::ArrayStringTooLong => "array_string_too_long",
            PropertyRuleError::NullValuesNotAllowed => "null_values_not_allowed",
        }
    }
}

/// The rule a label breaks, if any: it must start with an ASCII letter and
/// hold only letters, digits and underscores.
pub open spec fn spec_label_rule(s: Seq<char>) -> Option<PropertyRuleError> {
    if !(s.len() > 0 && is_ascii_letter(s[0])) {
        Some(PropertyRuleError::LabelMustStartWithLetter)
    } else if !label_chars_ok(s) {
        Some(PropertyRuleError::InvalidLabelCharacters)
    } else {
        None
    }
}

/// Check a label against the charset rules; the first broken rule is
/// reported by its code.
pub fn validate_label(label: &str) -> (r: Result<(), PropertyRuleError>)
    ensures
        match r {
            Ok(_) => spec_label_rule(label@) is None,
            Err(e) => spec_label_rule(label@) == Some(e),
        },
{
    let chars = str_chars(label);
    if chars.len() == 0 {
        return Err(PropertyRuleError::LabelMustStartWithLetter);
    }
    let c0 = chars[0];
    if !(('A' <= c0 && c0 <= 'Z') || ('a' <= c0 && c0 <= 'z')) {
        return Err(PropertyRuleError::LabelMustStartWithLetter);
    }
    match first_bad_label_char(&chars) {
        Some(_) => Err(PropertyRuleError::InvalidLabelCharacters),
        None => Ok(()),
    }
}

/// An arrow (`->` or `<-`) stands at `i`.
pub open spec fn arrow_at(s: Seq<char>, i: int) -> bool {
    0 <= i && i + 2 <= s.len() && ((s[i] == '-' && s[i + 1] == '>') || (s[i] == '<' && s[i + 1]
        == '-'))
}

/// The label holds `->` or `<-` somewhere.
pub open spec fn has_arrow(s: Seq<char>) -> bool {
    exists|i: int| arrow_at(s, i)
}

/// Check an edge label: at most fifty characters, the charset rules, and no
/// arrow text inside it.
pub fn validate_edge_type(label: &str) -> (r: Result<(), PropertyRuleError>)
    ensures
        match r {
            Ok(_) => label@.len() <= 50 && spec_label_rule(label@) is None
                && !has_arrow(label@),
            Err(PropertyRuleError::EdgeLabelTooLong) => label@.len() > 50,
            Err(PropertyRuleError::EdgeLabelContainsArrow) => label@.len() <= 50
                && spec_label_rule(label@) is None && has_arrow(label@),
            Err(e) => label@.len() <= 50 && spec_label_rule(label@) == Some(e),
        },
{
    let all = str_chars(label);
    if all.len() > 50 {
        return Err(PropertyRuleError::EdgeLabelTooLong);
    }
    match validate_label(label) {
        Err(e) => {
            return Err(e);
        },
        Ok(_) => {},
    }
    let chars = str_chars(label);
    let n = chars.len();
    let mut i: usize = 0;
    while i < n
        invariant
            i <= n,
            n == chars@.len(),
            chars@ == label@,
            label@.len() <= 50,
            spec_label_rule(label@) is None,
            forall|q: int| 0 <= q < i ==> !arrow_at(chars@, q),
        decreases n - i,
    {
        if i + 1 < n {
            let a = chars[i];
            let b = chars[i + 1];
            if (a == '-' && b == '>') || (a == '<' && b == '-') {
                proof {
                    assert(arrow_at(label@, i as int));
                    assert(has_arrow(label@));
                    assert(label@.len() <= 50);
                }
                return Err(PropertyRuleError::EdgeLabelContainsArrow);
            }
            proof {
                assert(!arrow_at(chars@, i as int));
            }
        }
        proof {
            assert(!arrow_at(chars@, i as int));
        }
        i = i + 1;
    }
    proof {
        assert forall|q: int| !arrow_at(label@, q) by {
            if 0 <= q && q + 2 <= label@.len() {
                assert(!arrow_at(chars@, q));
            }
        }
        assert(!has_arrow(label@));
    }
    Ok(())
}

/// The rule a property key breaks, if any: at most fifty characters, letters,
/// digits and underscores only.
pub open spec fn spec_key_rule(key: Seq<char>) -> Option<PropertyRuleError> {
    if key.len() > 50 {
        Some(PropertyRuleError::PropertyKeyTooLong)
    } else if !label_chars_ok(key) {
        Some(PropertyRuleError::InvalidPropertyKeyCharacters)
    } else {
        None
    }
}

/// The rule a single scalar inside an array breaks, if any.
pub open spec fn spec_array_elem_rule(v: ScalarV) -> Option<PropertyRuleError> {
    match v {
        ScalarV::Str(s) => if s.len() > 1000 {
            Some(PropertyRuleError::ArrayStringTooLong)
        } else {
            None
        },
        ScalarV::Null => Some(PropertyRuleError::NullValuesNotAllowed),
        _ => None,
    }
}

/// The first rule the elements of an array break, if any.
pub open spec fn spec_array_rule_from(vs: Seq<ScalarV>, i: int) -> Option<PropertyRuleError>
    decreases vs.len() - i when 0 <= i <= vs.len()
{
    if i >= vs.len() {
        None
    } else {
        match spec_array_elem_rule(vs[i]) {
            Some(e) => Some(e),
            None => spec_array_rule_from(vs, i + 1),
        }
    }
}

/// The rule a property value breaks, if any: a string at most a thousand
/// characters, an array at most a hundred elements each following the element
/// rules, and no null.
pub open spec fn spec_value_rule(v: PropValueV) -> Option<PropertyRuleError> {
    match v {
        PropValueV::Scalar(ScalarV::Str(s)) => if s.len() > 1000 {
            Some(PropertyRuleError::StringValueTooLong)
        } else {
            None
        },
        PropValueV::Scalar(ScalarV::Null) => Some(PropertyRuleError::NullValuesNotAllowed),
        PropValueV::Scalar(_) => None,
        PropValueV::Arr(vs) => if vs.len() > 100 {
            Some(PropertyRuleError::ArrayTooLarge)
        } else {
            spec_array_rule_from(vs, 0)
        },
    }
}

/// The first rule the keys break, walking the entries in order.
pub open spec fn spec_keys_rule_from(
    m: Seq<(Seq<char>, PropValueV)>,
    i: int,
) -> Option<PropertyRuleError>
    decreases m.len() - i when 0 <= i <= m.len()
{
    if i >= m.len() {
        None
    } else {
        match spec_key_rule(m[i].0) {
            Some(e) => Some(e),
            None => spec_keys_rule_from(m, i + 1),
        }
    }
}

/// The first rule the values break, walking the entries in order.
pub open spec fn spec_values_rule_from(
    m: Seq<(Seq<char>, PropValueV)>,
    i: int,
) -> Option<PropertyRuleError>
    decreases m.len() - i when 0 <= i <= m.len()
{
    if i >= m.len() {
        None
    } else {
        match spec_value_rule(m[i].1) {
            Some(e) => Some(e),
            None => spec_values_rule_from(m, i + 1),
        }
    }
}

/// The first shape rule a property map breaks: at most a hundred entries,
/// then every key, then every value.
pub open spec fn spec_props_rule(m: Seq<(Seq<char>, PropValueV)>) -> Option<PropertyRuleError> {
    if m.len() > 100 {
        Some(PropertyRuleError::TooManyProperties)
    } else {
        match spec_keys_rule_from(m, 0) {
            Some(e) => Some(e),
            None => spec_values_rule_from(m, 0),
        }
    }
}

fn exec_key_rule(key: &String) -> (r: Option<PropertyRuleError>)
    ensures
        r == spec_key_rule(key@),
{
    let chars = str_chars(key.as_str());
    if chars.len() > 50 {
        return Some(PropertyRuleError::PropertyKeyTooLong);
    }
    match first_bad_label_char(&chars) {
        Some(_) => Some(PropertyRuleError::InvalidPropertyKeyCharacters),
        None => None,
    }
}

fn exec_array_elem_rule(v: &ScalarValue) -> (r: Option<PropertyRuleError>)
    ensures
        r == spec_array_elem_rule(v@),
{
    match v {
        ScalarValue::Str(s) => {
            if s.as_str().unicode_len() > 1000 {
                Some(PropertyRuleError::ArrayStringTooLong)
            } else {
                None
            }
        },
        ScalarValue::Null => Some(PropertyRuleError::NullValuesNotAllowed),
        _ => None,
    }
}

fn exec_value_rule(v: &PropValue) -> (r: Option<PropertyRuleError>)
    ensures
        r == spec_value_rule(v@),
{
    match v {
        PropValue::Scalar(ScalarValue::Str(s)) => {
            if s.as_str().unicode_len() > 1000 {
                Some(PropertyRuleError::StringValueTooLong)
            } else {
                None
            }
        },
        PropValue::Scalar(ScalarValue::Null) => Some(PropertyRuleError::NullValuesNotAllowed),
        PropValue::Scalar(_) => None,
        PropValue::Arr(vs) => {
            let ghost vsv = vs@.map_values(|x: ScalarValue| x@);
            if vs.len() > 100 {
                return Some(PropertyRuleError::ArrayTooLarge);
            }
            let n = vs.len();
            let mut i: usize = 0;
            while i < n
                invariant
                    i <= n,
                    n == vs@.len(),
                    vsv == vs@.map_values(|x: ScalarValue| x@),
                    v@ == PropValueV::Arr(vsv),
                    vsv.len() <= 100,
                    spec_array_rule_from(vsv, 0) == spec_array_rule_from(vsv, i as int),
                decreases n - i,
            {
                proof {
                    assert(vsv[i as int] == vs@[i as int]@);
                }
                match exec_array_elem_rule(&vs[i]) {
                    Some(e) => {
                        proof {
                            assert(vsv.len() == vs@.len());
                            assert(spec_array_elem_rule(vsv[i as int]) == Some(e));
                            assert(spec_array_rule_from(vsv, i as int) == Some(e));
                            assert(spec_array_rule_from(vsv, 0) == Some(e));
                            assert(v@ == PropValueV::Arr(vsv));
                            assert(spec_value_rule(v@) == Some(e));
                        }
                        return Some(e);
                    },
                    None => {},
                }
                i = i + 1;
            }
            None
        },
    }
}

/// Check a property map against the shape rules: at most a hundred
/// entries, keys identifier-safe and at most fifty characters, strings at most
/// a thousand characters, arrays flat with at most a hundred elements, no
/// nulls. The first broken rule is reported by its code.
pub fn validate_properties(props: &PropMap) -> (r: Result<(), PropertyRuleError>)
    ensures
        match r {
            Ok(_) => spec_props_rule(props@) is None,
            Err(e) => spec_props_rule(props@) == Some(e),
        },
{
    let n = props.entries.len();
    if n > 100 {
        return Err(PropertyRuleError::TooManyProperties);
    }
    let ghost mv = props@;
    let mut i: usize = 0;
    while i < n
        invariant
            i <= n,
            n == props.entries@.len(),
            mv == props@,
            mv.len() <= 100,
            spec_keys_rule_from(mv, 0) == spec_keys_rule_from(mv, i as int),
        decreases n - i,
    {
        proof {
            assert(mv[i as int] == props.entries@[i as int]@);
        }
        match exec_key_rule(&props.entries[i].key) {
            Some(e) => {
                return Err(e);
            },
            None => {},
        }
        i = i + 1;
    }
    let mut j: usize = 0;
    while j < n
        invariant
            j <= n,
            n == props.entries@.len(),
            mv == props@,
            mv.len() <= 100,
            spec_keys_rule_from(mv, 0) is None,
            spec_values_rule_from(mv, 0) == spec_values_rule_from(mv, j as int),
        decreases n - j,
    {
        proof {
            assert(mv[j as int] == props.entries@[j as int]@);
        }
        match exec_value_rule(&props.entries[j].value) {
            Some(e) => {
                return Err(e);
            },
            None => {},
        }
        j = j + 1;
    }
    Ok(())
}

} // verus!
