//! The validation engine: a property map checked against a type's
//! attribute definitions. Attributes are walked in their defined order;
//! only `required` attributes are checked; every failure is collected, so
//! the caller sees all problems at once. A `String` attribute accepts any
//! value: that permissiveness is deliberate and part of the contract.

use vstd::prelude::*;
use crate::json::{PropValueV, ScalarV, PropValue, ScalarValue, PropMap, spec_lookup};
use crate::schema::{AttributeDataType, AttributeDefinition};

verus! {

/// Whether the text parses as an RFC 3339 date-time, as
/// `chrono::DateTime::parse_from_rfc3339` decides it: a function of the
/// characters alone.
pub uninterp spec fn rfc3339_parses(s: Seq<char>) -> bool;

/// Relies on `chrono::DateTime::parse_from_rfc3339`: whether the text is a
/// well-formed RFC 3339 date-time depends on the text alone.
#[verifier::external_body]
pub fn is_rfc3339(s: &str) -> (r: bool)
    ensures
        r == rfc3339_parses(s@),
{
    chrono::DateTime::parse_from_rfc3339(s).is_ok()
}

/// One validation failure of a property map against an attribute.
#[derive(Debug)]
pub enum AttributeValidationError {
    MissingAttribute { name: String },
    WrongType { name: String, expected: String },
}

/// The mathematical form of a validation failure.
pub enum AttrErrV {
    Missing(Seq<char>),
    WrongType(Seq<char>, Seq<char>),
}

impl View for AttributeValidationError {
    type V = AttrErrV;

    open spec fn view(&self) -> AttrErrV {
        match self {
            AttributeValidationError::MissingAttribute { name } => AttrErrV::Missing(name@),
            AttributeValidationError::WrongType { name, expected } => AttrErrV::WrongType(
                name@,
                expected@,
            ),
        }
    }
}

/// The expected-type text reported for a wrong value of each data type.
pub open spec fn expected_text(d: AttributeDataType) -> Seq<char> {
    match d {
        AttributeDataType::String => seq!['s', 't', 'r', 'i', 'n', 'g'],
        AttributeDataType::Number => seq!['n', 'u', 'm', 'b', 'e', 'r'],
        AttributeDataType::Boolean => seq!['b', 'o', 'o', 'l', 'e', 'a', 'n'],
        AttributeDataType::Date => {
            seq![
                'R',
                'F',
                'C',
                '3',
                '3',
                '3',
                '9',
                ' ',
                'd',
                'a',
                't',
                'e',
                ' ',
                's',
                't',
                'r',
                'i',
                'n',
                'g',
            ]
        },
    }
}

/// Whether a property value satisfies a declared data type: a number must
/// be a number literal, a boolean a boolean literal, a date a string that
/// parses as RFC 3339; a string attribute accepts anything.
pub open spec fn spec_value_ok(d: AttributeDataType, v: PropValueV) -> bool {
    match d {
        AttributeDataType::String => true,
        AttributeDataType::Number => v matches PropValueV::Scalar(ScalarV::Num(_)),
        AttributeDataType::Boolean => v matches PropValueV::Scalar(ScalarV::Bool(_)),
        AttributeDataType::Date => v matches PropValueV::Scalar(ScalarV::Str(s))
            && rfc3339_parses(s),
    }
}

/// The failure one attribute earns against the property map, if any: a
/// non-required attribute is never checked; a required one is missing or
/// must satisfy its data type.
pub open spec fn spec_check_attr(
    attr: AttributeDefinition,
    props: Seq<(Seq<char>, PropValueV)>,
) -> Option<AttrErrV> {
    if !attr.required {
        None
    } else {
        match spec_lookup(props, attr.name@) {
            None => Some(AttrErrV::Missing(attr.name@)),
            Some(v) => if spec_value_ok(attr.data_type, v) {
                None
            } else {
                Some(AttrErrV::WrongType(attr.name@, expected_text(attr.data_type)))
            },
        }
    }
}

/// All failures, one per violated attribute, in attribute-declaration
/// order.
pub open spec fn spec_validation_errors(
    attrs: Seq<AttributeDefinition>,
    props: Seq<(Seq<char>, PropValueV)>,
) -> Seq<AttrErrV>
    decreases attrs.len(),
{
    if attrs.len() == 0 {
        Seq::empty()
    } else {
        let rest = spec_validation_errors(attrs.drop_first(), props);
        match spec_check_attr(attrs[0], props) {
            Some(e) => seq![e] + rest,
            None => rest,
        }
    }
}

/// The collected failures of one validation run.
#[derive(Debug)]
pub struct ValidationErrorList(pub Vec<AttributeValidationError>);

impl View for ValidationErrorList {
    type V = Seq<AttrErrV>;

    open spec fn view(&self) -> Seq<AttrErrV> {
        self.0@.map_values(|e: AttributeValidationError| e@)
    }
}

fn exec_value_ok(d: &AttributeDataType, v: &PropValue) -> (r: bool)
    ensures
        r == spec_value_ok(*d, v@),
{
    match d {
        AttributeDataType::String => true,
        AttributeDataType::Number => match v {
            PropValue::Scalar(ScalarValue::Num(_)) => true,
            _ => false,
        },
        AttributeDataType::Boolean => match v {
            PropValue::Scalar(ScalarValue::Bool(_)) => true,
            _ => false,
        },
        AttributeDataType::Date => match v {
            PropValue::Scalar(ScalarValue::Str(s)) => is_rfc3339(s.as_str()),
            _ => false,
        },
    }
}

fn exec_check_attr(attr: &AttributeDefinition, props: &PropMap) -> (r: Option<
    AttributeValidationError,
>)
    ensures
        match r {
            Some(e) => spec_check_attr(*attr, props@) == Some(e@),
            None => spec_check_attr(*attr, props@) is None,
        },
{
    if !attr.required {
        return None;
    }
    match props.get(attr.name.as_str()) {
        None => Some(AttributeValidationError::MissingAttribute { name: attr.name.clone() }),
        Some(v) => {
            if exec_value_ok(&attr.data_type, v) {
                None
            } else {
                let expected = match attr.data_type {
                    AttributeDataType::String => "string",
                    AttributeDataType::Number => "number",
                    AttributeDataType::Boolean => "boolean",
                    AttributeDataType::Date => "RFC3339 date string",
                };
                proof {
                    reveal_strlit("string");
                    reveal_strlit("number");
                    reveal_strlit("boolean");
                    reveal_strlit("RFC3339 date string");
                    assert(expected@ =~= expected_text(attr.data_type));
                }
                Some(
                    AttributeValidationError::WrongType {
                        name: attr.name.clone(),
                        expected: expected.to_owned(),
                    },
                )
            }
        },
    }
}

/// Validate a property map against a type's attribute definitions: walk
/// the attributes in order, check only the required ones, and collect
/// every failure. Success is distinct from an empty failure list.
pub fn validate_properties_against(attrs: &Vec<AttributeDefinition>, props: &PropMap) -> (r: Result<
    (),
    ValidationErrorList,
>)
    ensures
        match r {
            Ok(_) => spec_validation_errors(attrs@, props@).len() == 0,
            Err(l) => l@ == spec_validation_errors(attrs@, props@) && l@.len() > 0,
        },
{
    let n = attrs.len();
    let mut out: Vec<AttributeValidationError> = Vec::new();
    let mut i: usize = 0;
    proof {
        assert(attrs@.skip(0) =~= attrs@);
        assert(out@.map_values(|e: AttributeValidationError| e@) =~= Seq::<AttrErrV>::empty());
    }
    while i < n
        invariant
            i <= n,
            n == attrs@.len(),
            spec_validation_errors(attrs@, props@) == out@.map_values(
                |e: AttributeValidationError| e@,
            ) + spec_validation_errors(attrs@.skip(i as int), props@),
        decreases n - i,
    {
        let ghost pre = out@.map_values(|e: AttributeValidationError| e@);
        proof {
            assert(attrs@.skip(i as int)[0] == attrs@[i as int]);
            assert(attrs@.skip(i as int).drop_first() =~= attrs@.skip(i + 1 as int));
        }
        match exec_check_attr(&attrs[i], props) {
            Some(e) => {
                let ghost ev = e@;
                out.push(e);
                proof {
                    let f = |x: AttributeValidationError| x@;
                    assert(out@.map_values(f) =~= pre.push(ev)) by {
                        assert(out@.map_values(f).len() == pre.len() + 1);
                        assert forall|q: int| 0 <= q < out@.len() implies out@.map_values(f)[q]
                            == pre.push(ev)[q] by {
                            assert(out@.map_values(f)[q] == f(out@[q]));
                            if q < pre.len() {
                                assert(pre[q] == f(out@[q]));
                            }
                        }
                    }
                    assert(pre + (seq![ev] + spec_validation_errors(
                        attrs@.skip(i + 1 as int),
                        props@,
                    )) =~= pre.push(ev) + spec_validation_errors(attrs@.skip(i + 1 as int), props@));
                }
            },
            None => {},
        }
        i = i + 1;
    }
    proof {
        assert(attrs@.skip(n as int) =~= Seq::<AttributeDefinition>::empty());
        assert(spec_validation_errors(attrs@, props@) =~= out@.map_values(
            |e: AttributeValidationError| e@,
        ) + Seq::<AttrErrV>::empty());
        assert(spec_validation_errors(attrs@, props@) =~= out@.map_values(
            |e: AttributeValidationError| e@,
        ));
    }
    if out.len() == 0 {
        Ok(())
    } else {
        Err(ValidationErrorList(out))
    }
}

impl AttributeValidationError {
    /// The failure's report text.
    pub open spec fn spec_message(&self) -> Seq<char> {
        match self {
            AttributeValidationError::MissingAttribute { name } => "Missing attribute: "@ + name@,
            AttributeValidationError::WrongType { name, expected } => "Attribute '"@ + name@
                + "' must be of type "@ + expected@,
        }
    }

    /// Render the failure for a report.
    pub fn message(&self) -> (r: String)
        ensures
            r@ == self.spec_message(),
    {
        match self {
            AttributeValidationError::MissingAttribute { name } => {
                let mut out = String::new();
                out.append("Missing attribute: ");
                out.append(name.as_str());
                proof {
                    assert(out@ =~= self.spec_message());
                }
                out
            },
            AttributeValidationError::WrongType { name, expected } => {
                let mut out = String::new();
                out.append("Attribute '");
                out.append(name.as_str());
                out.append("' must be of type ");
                out.append(expected.as_str());
                proof {
                    assert(out@ =~= self.spec_message());
                }
                out
            },
        }
    }
}

impl ValidationErrorList {
    /// How many failures were collected.
    pub fn len(&self) -> (r: usize)
        ensures
            r == self@.len(),
    {
        self.0.len()
    }

    /// The report text of every failure, in order.
    pub fn messages(&self) -> (r: Vec<String>)
        ensures
            r@.len() == self@.len(),
            forall|i: int|
                0 <= i < r@.len() ==> #[trigger] r@[i]@ == self.0@[i].spec_message(),
    {
        let n = self.0.len();
        let mut out: Vec<String> = Vec::new();
        let mut i: usize = 0;
        while i < n
            invariant
                i <= n,
                n == self.0@.len(),
                out@.len() == i,
                forall|q: int| 0 <= q < i ==> #[trigger] out@[q]@ == self.0@[q].spec_message(),
            decreases n - i,
        {
            out.push(self.0[i].message());
            i = i + 1;
        }
        out
    }
}

/// Where no required attribute is violated, validation reports nothing.
pub proof fn lemma_errors_all_none(
    attrs: Seq<AttributeDefinition>,
    props: Seq<(Seq<char>, PropValueV)>,
)
    requires
        forall|i: int| 0 <= i < attrs.len() ==> spec_check_attr(#[trigger] attrs[i], props) is None,
    ensures
        spec_validation_errors(attrs, props) =~= Seq::<AttrErrV>::empty(),
    decreases attrs.len(),
{
    if attrs.len() > 0 {
        assert(spec_check_attr(attrs[0], props) is None);
        assert(forall|i: int|
            0 <= i < attrs.drop_first().len() ==> attrs.drop_first()[i] == attrs[i + 1]);
        lemma_errors_all_none(attrs.drop_first(), props);
    }
}

/// Where exactly one attribute is violated, validation reports exactly its
/// failure.
pub proof fn lemma_errors_single(
    attrs: Seq<AttributeDefinition>,
    props: Seq<(Seq<char>, PropValueV)>,
    k: int,
    e: AttrErrV,
)
    requires
        0 <= k < attrs.len(),
        spec_check_attr(attrs[k], props) == Some(e),
        forall|i: int|
            0 <= i < attrs.len() && i != k ==> spec_check_attr(#[trigger] attrs[i], props) is None,
    ensures
        spec_validation_errors(attrs, props) =~= seq![e],
    decreases attrs.len(),
{
    assert(forall|i: int|
        0 <= i < attrs.drop_first().len() ==> attrs.drop_first()[i] == attrs[i + 1]);
    if k == 0 {
        lemma_errors_all_none(attrs.drop_first(), props);
    } else {
        lemma_errors_single(attrs.drop_first(), props, k - 1, e);
    }
}

/// Where exactly two attributes are violated, validation reports exactly
/// their two failures, in attribute-declaration order.
pub proof fn lemma_errors_pair(
    attrs: Seq<AttributeDefinition>,
    props: Seq<(Seq<char>, PropValueV)>,
    k1: int,
    k2: int,
    e1: AttrErrV,
    e2: AttrErrV,
)
    requires
        0 <= k1 < k2 < attrs.len(),
        spec_check_attr(attrs[k1], props) == Some(e1),
        spec_check_attr(attrs[k2], props) == Some(e2),
        forall|i: int|
            0 <= i < attrs.len() && i != k1 && i != k2 ==> spec_check_attr(
                #[trigger] attrs[i],
                props,
            ) is None,
    ensures
        spec_validation_errors(attrs, props) =~= seq![e1, e2],
    decreases attrs.len(),
{
    assert(forall|i: int|
        0 <= i < attrs.drop_first().len() ==> attrs.drop_first()[i] == attrs[i + 1]);
    if k1 == 0 {
        lemma_errors_single(attrs.drop_first(), props, k2 - 1, e2);
        assert(seq![e1] + seq![e2] =~= seq![e1, e2]);
    } else {
        lemma_errors_pair(attrs.drop_first(), props, k1 - 1, k2 - 1, e1, e2);
    }
}

/// Validating against a type whose only violated-able requirement is one
/// required number attribute: an absent value is reported as exactly one
/// missing-attribute failure, a present non-number as exactly one
/// wrong-type failure naming `number`, and a number passes clean.
pub proof fn lemma_required_number_attribute(
    attrs: Seq<AttributeDefinition>,
    props: Seq<(Seq<char>, PropValueV)>,
    k: int,
)
    requires
        0 <= k < attrs.len(),
        attrs[k].required,
        attrs[k].data_type == AttributeDataType::Number,
        forall|i: int|
            0 <= i < attrs.len() && i != k ==> spec_check_attr(#[trigger] attrs[i], props) is None,
    ensures
        spec_lookup(props, attrs[k].name@) is None ==> spec_validation_errors(attrs, props)
            =~= seq![AttrErrV::Missing(attrs[k].name@)],
        (spec_lookup(props, attrs[k].name@) matches Some(v) && !(v matches PropValueV::Scalar(
            ScalarV::Num(_),
        ))) ==> spec_validation_errors(attrs, props) =~= seq![
            AttrErrV::WrongType(attrs[k].name@, expected_text(AttributeDataType::Number)),
        ],
        (spec_lookup(props, attrs[k].name@) matches Some(PropValueV::Scalar(ScalarV::Num(_))))
            ==> spec_validation_errors(attrs, props) =~= Seq::<AttrErrV>::empty(),
{
    match spec_lookup(props, attrs[k].name@) {
        None => {
            lemma_errors_single(attrs, props, k, AttrErrV::Missing(attrs[k].name@));
        },
        Some(v) => {
            if v matches PropValueV::Scalar(ScalarV::Num(_)) {
                lemma_errors_all_none(attrs, props);
            } else {
                lemma_errors_single(
                    attrs,
                    props,
                    k,
                    AttrErrV::WrongType(attrs[k].name@, expected_text(AttributeDataType::Number)),
                );
            }
        },
    }
}

} // verus!
