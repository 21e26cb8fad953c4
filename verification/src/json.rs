//! JSON values, their texts and their schemas, as the outside crates give them.

use vstd::prelude::*;
use vstd::string::*;

use crate::effect::{CanonicalError, CanonicalErrorView};

verus! {

/// A JSON value of `serde_json`, carried unread.
#[verifier::external_type_specification]
#[verifier::external_body]
pub struct ExValue(serde_json::Value);

/// `Clone` of [`serde_json::Value`] copies the whole value.
pub assume_specification [<serde_json::Value as Clone>::clone] (value: &serde_json::Value) -> (r: serde_json::Value)
    ensures
        r == *value,
;

/// The compact text that a JSON value prints.
pub uninterp spec fn json_text(value: serde_json::Value) -> Seq<char>;

/// What [`serde_json::from_str`] reads from a whole text: the value, or the text of its error.
pub uninterp spec fn json_parse(text: Seq<char>) -> Result<serde_json::Value, Seq<char>>;

/// The first value that a `serde_json` stream reads from the front of a text, if it reads one.
pub uninterp spec fn json_front(text: Seq<char>) -> Option<serde_json::Value>;

/// Whether [`jsonschema::validator_for`] refuses a schema.
pub uninterp spec fn schema_refused(schema: serde_json::Value) -> bool;

/// Text of the first error that a value shows against a schema, if it shows one.
pub uninterp spec fn schema_violation(
    schema: serde_json::Value,
    value: serde_json::Value,
) -> Option<Seq<char>>;

/// `Display` of [`serde_json::Value`] prints the compact text of the value.
#[verifier::external_body]
pub(crate) fn print_json(value: &serde_json::Value) -> (r: String)
    ensures
        r@ == json_text(*value),
{
    value.to_string()
}

/// The indented text of a JSON value, if it can be written.
pub uninterp spec fn json_pretty(value: serde_json::Value) -> Option<Seq<char>>;

/// [`serde_json::to_string_pretty`] writes the indented text of a value, or fails.
#[verifier::external_body]
pub(crate) fn print_pretty(value: &serde_json::Value) -> (r: Option<String>)
    ensures
        r.deep_view() == json_pretty(*value),
{
    serde_json::to_string_pretty(value).ok()
}

/// [`serde_json::from_str`] reads one value from a whole text; its error is taken as its text.
#[verifier::external_body]
pub(crate) fn parse_json(text: &str) -> (r: Result<serde_json::Value, String>)
    ensures
        match r {
            Ok(value) => json_parse(text@) == Ok::<serde_json::Value, Seq<char>>(value),
            Err(message) => json_parse(text@) == Err::<serde_json::Value, Seq<char>>(message@),
        },
{
    serde_json::from_str(text).map_err(|error| error.to_string())
}

/// The first item of a [`serde_json::StreamDeserializer`] over a text, unless it is an error.
#[verifier::external_body]
pub(crate) fn parse_front(text: &str) -> (r: Option<serde_json::Value>)
    ensures
        r == json_front(text@),
{
    serde_json::Deserializer::from_str(text).into_iter::<serde_json::Value>().next().and_then(
        Result::ok,
    )
}

/// [`serde_json::Value::is_null`] tells the null value, the only one that prints `null`.
pub assume_specification [serde_json::Value::is_null] (value: &serde_json::Value) -> (r: bool)
    ensures
        r == (json_text(*value) == "null"@),
;

/// The JSON object with the given text members, a later one in place of an earlier one of the
/// same name.
pub uninterp spec fn json_object(members: Seq<(Seq<char>, Seq<char>)>) -> serde_json::Value;

/// Collecting into a [`serde_json::Map`] makes a JSON object of its members; each member is
/// handed over as a JSON string.
#[verifier::external_body]
pub(crate) fn make_object(members: Vec<(String, String)>) -> (r: serde_json::Value)
    ensures
        r == json_object(members.deep_view()),
{
    serde_json::Value::Object(
        members.into_iter().map(|(name, text)| (name, serde_json::Value::String(text))).collect(),
    )
}

/// Whether a JSON value is an object.
pub uninterp spec fn json_is_object(value: serde_json::Value) -> bool;

/// [`serde_json::Value::is_object`] tells whether a value is an object.
pub assume_specification [serde_json::Value::is_object] (value: &serde_json::Value) -> (r: bool)
    ensures
        r == json_is_object(*value),
;

/// The JSON object with the members of two objects, those of the second in place of those of the
/// first with the same name.
pub uninterp spec fn json_merged(
    base: serde_json::Value,
    over: serde_json::Value,
) -> serde_json::Value;

/// [`serde_json::Map::append`] moves the members of an object into another, where they replace
/// members of the same name.
#[verifier::external_body]
pub(crate) fn extend_object(base: serde_json::Value, over: serde_json::Value) -> (r:
    serde_json::Value)
    requires
        json_is_object(base),
        json_is_object(over),
    ensures
        r == json_merged(base, over),
        json_is_object(r),
{
    let (mut base, mut over) = (base, over);
    if let (Some(members), Some(more)) = (base.as_object_mut(), over.as_object_mut()) {
        members.append(more);
    }
    base
}

/// Text of the error with which a [`schemars::Schema`] refuses to be read from a value, if it
/// does.
pub uninterp spec fn schema_rejection(value: serde_json::Value) -> Option<Seq<char>>;

/// Reading a [`schemars::Schema`] from a value takes it whole or refuses it; the error is taken as
/// its text.
#[verifier::external_body]
pub(crate) fn reject_schema(value: &serde_json::Value) -> (r: Option<String>)
    ensures
        r.deep_view() == schema_rejection(*value),
{
    serde_json::from_value::<schemars::Schema>(value.clone()).err().map(|error| error.to_string())
}

/// [`jsonschema::validator_for`] compiles a schema or refuses it; its error is taken as its text.
/// The crate is built without retrieval from files or the network, so whether it refuses a schema
/// rests on the schema alone: a reference to a document that the crate does not hold is refused.
/// Nothing is said of the text. It may name one of several documents or vocabularies, in the order
/// of a hash set with a random seed.
#[verifier::external_body]
pub(crate) fn refuse_schema(schema: &serde_json::Value) -> (r: Option<String>)
    ensures
        r is Some == schema_refused(*schema),
{
    jsonschema::validator_for(schema).err().map(|error| error.to_string())
}

/// [`jsonschema::validate`] compiles a schema and gives the first error of a value against it,
/// which is taken as its text. It panics on a schema that [`jsonschema::validator_for`] refuses.
#[verifier::external_body]
pub(crate) fn refuse_value(schema: &serde_json::Value, value: &serde_json::Value) -> (r: Option<
    String,
>)
    requires
        !schema_refused(*schema),
    ensures
        r.deep_view() == schema_violation(*schema, *value),
{
    jsonschema::validate(schema, value).err().map(|error| error.to_string())
}

/// First value that can be read from a `{` or `[` of the text at position `from` or later.
pub open spec fn embedded_json(text: Seq<char>, from: int) -> Option<serde_json::Value>
    decreases text.len() - from,
{
    if from < 0 || from >= text.len() {
        None
    } else if (text[from] == '{' || text[from] == '[') && json_front(
        text.subrange(from, text.len() as int),
    ) is Some {
        json_front(text.subrange(from, text.len() as int))
    } else {
        embedded_json(text, from + 1)
    }
}

/// The JSON value of a response: the whole text, or else the first value embedded in it.
pub open spec fn response_json(text: Seq<char>) -> Result<serde_json::Value, Seq<char>> {
    match json_parse(text) {
        Ok(value) => Ok(value),
        Err(message) => match embedded_json(text, 0) {
            Some(value) => Ok(value),
            None => Err(message),
        },
    }
}

/// An error that says why structured output was refused.
pub open spec fn output_error(prefix: Seq<char>, reason: Seq<char>) -> CanonicalErrorView {
    CanonicalErrorView::InvalidStructuredOutput(prefix + reason)
}

/// What the outside results say about a structured response.
pub open spec fn structured_output_verdict(
    value: Result<serde_json::Value, Seq<char>>,
    fault: Option<Seq<char>>,
    violation: Option<Seq<char>>,
) -> Result<(), CanonicalErrorView> {
    match (value, fault, violation) {
        (Err(reason), _, _) => Err(output_error("response was not JSON: "@, reason)),
        (Ok(_), Some(reason), _) => Err(output_error("invalid output schema: "@, reason)),
        (Ok(_), None, Some(reason)) => Err(output_error("schema validation failed: "@, reason)),
        (Ok(_), None, None) => Ok(()),
    }
}

/// Whether a text satisfies a schema, and how it fails where it does not. A schema that is itself
/// refused fails with the given reason; otherwise the reason has no part in it.
pub open spec fn structured_output(
    schema: serde_json::Value,
    text: Seq<char>,
    reason: Seq<char>,
) -> Result<(), CanonicalErrorView> {
    let value = response_json(text);
    structured_output_verdict(
        value,
        if schema_refused(schema) {
            Some(reason)
        } else {
            None
        },
        match value {
            Ok(value) => schema_violation(schema, value),
            Err(_) => None,
        },
    )
}

/// Where a schema is not refused, the verdict on a text is fixed; where it is, only the reason is
/// left open, and only for a text that holds JSON.
pub proof fn law_only_refused_schemas_leave_a_reason_open(
    schema: serde_json::Value,
    text: Seq<char>,
    first: Seq<char>,
    second: Seq<char>,
)
    ensures
        !schema_refused(schema) || response_json(text) is Err ==> structured_output(
            schema,
            text,
            first,
        ) == structured_output(schema, text, second),
        schema_refused(schema) && response_json(text) is Ok ==> structured_output(
            schema,
            text,
            first,
        ) == Err::<(), CanonicalErrorView>(output_error("invalid output schema: "@, first)),
{
}

fn refused(prefix: &str, reason: &str) -> (r: CanonicalError)
    ensures
        r@ == output_error(prefix@, reason@),
{
    let mut message = prefix.to_owned();
    message.append(reason);
    CanonicalError::InvalidStructuredOutput(message)
}

/// Decides on a structured response from the outside results.
pub fn judge_structured_output(
    value: &Result<serde_json::Value, String>,
    fault: &Option<String>,
    violation: &Option<String>,
) -> (r: Result<(), CanonicalError>)
    ensures
        (match r {
            Ok(_) => Ok::<(), CanonicalErrorView>(()),
            Err(error) => Err::<(), CanonicalErrorView>(error@),
        }) == structured_output_verdict(
            match value {
                Ok(value) => Ok::<serde_json::Value, Seq<char>>(*value),
                Err(message) => Err::<serde_json::Value, Seq<char>>(message@),
            },
            fault.deep_view(),
            violation.deep_view(),
        ),
{
    match value {
        Err(reason) => Err(refused("response was not JSON: ", reason.as_str())),
        Ok(_) => match fault {
            Some(reason) => Err(refused("invalid output schema: ", reason.as_str())),
            None => match violation {
                Some(reason) => Err(refused("schema validation failed: ", reason.as_str())),
                None => Ok(()),
            },
        },
    }
}

/// The value of a response: the whole text, or else the first value embedded in it.
pub fn read_response(text: &str) -> (r: Result<serde_json::Value, String>)
    ensures
        (match r {
            Ok(value) => Ok::<serde_json::Value, Seq<char>>(value),
            Err(message) => Err::<serde_json::Value, Seq<char>>(message@),
        }) == response_json(text@),
{
    match parse_json(text) {
        Ok(value) => Ok(value),
        Err(message) => {
            let n: usize = text.unicode_len();
            let mut i: usize = 0;
            while i < n
                invariant
                    i <= n,
                    n == text@.len(),
                    embedded_json(text@, 0) == embedded_json(text@, i as int),
                    json_parse(text@) == Err::<serde_json::Value, Seq<char>>(message@),
                decreases n - i,
            {
                let c = text.get_char(i);
                if c == '{' || c == '[' {
                    if let Some(value) = parse_front(text.substring_char(i, n)) {
                        return Ok(value);
                    }
                }
                i = i + 1;
            }
            Err(message)
        },
    }
}

/// Checks that a response holds JSON that satisfies the schema. The reason for which a schema is
/// refused is the outside crate's.
pub fn validate_structured_output(schema: &serde_json::Value, text: &str) -> (r: Result<
    (),
    CanonicalError,
>)
    ensures
        exists|reason: Seq<char>|
            (match r {
                Ok(_) => Ok::<(), CanonicalErrorView>(()),
                Err(error) => Err::<(), CanonicalErrorView>(error@),
            }) == #[trigger] structured_output(*schema, text@, reason),
{
    let value = read_response(text);
    let fault = refuse_schema(schema);
    let mut violation: Option<String> = None;
    if fault.is_none() {
        if let Ok(instance) = &value {
            violation = refuse_value(schema, instance);
        }
    }
    let ghost reason = match fault {
        Some(ref text) => text@,
        None => Seq::empty(),
    };
    let r = judge_structured_output(&value, &fault, &violation);
    assert((match r {
        Ok(_) => Ok::<(), CanonicalErrorView>(()),
        Err(error) => Err::<(), CanonicalErrorView>(error@),
    }) == structured_output(*schema, text@, reason));
    r
}

} // verus!
