//! Structured output, identities and the unit-like parts of the library.

use rig_runtime::effect::CanonicalError;
use rig_runtime::identity::{IdentityError, StableId, TenantId};
use rig_runtime::json::{judge_structured_output, read_response, validate_structured_output};
use rig_runtime::run::{InstallError, RuntimeConfig};
use rig_runtime::runtime::{install_runtime, Runtime};
use rig_runtime::sorting::{sort_values, KeyPart};
use rig_runtime::unique::make_unique;
use rig_runtime::world::World;

fn json(text: &str) -> serde_json::Value {
    serde_json::from_str(text).unwrap()
}

fn refused(message: &str) -> Result<(), CanonicalError> {
    Err(CanonicalError::InvalidStructuredOutput(message.to_owned()))
}

#[test]
fn responses_are_read_whole_or_from_within_a_text() {
    assert_eq!(read_response(" [1, 2] "), Ok(json("[1,2]")));
    assert_eq!(
        read_response("Here you are: {\"a\": 1} and more"),
        Ok(json(r#"{"a":1}"#))
    );
    assert_eq!(
        read_response("a { b [1] c"),
        Ok(json("[1]"))
    );
    assert!(read_response("nothing here").is_err());
}

#[test]
fn structured_output_faults_come_in_order() {
    let schema = json(r#"{"type":"object","required":["a"]}"#);
    assert_eq!(validate_structured_output(&schema, r#"{"a":1}"#), Ok(()));
    assert!(matches!(
        validate_structured_output(&schema, "no"),
        Err(CanonicalError::InvalidStructuredOutput(message))
            if message.starts_with("response was not JSON: ")
    ));
    assert!(matches!(
        validate_structured_output(&schema, "{}"),
        Err(CanonicalError::InvalidStructuredOutput(message))
            if message.starts_with("schema validation failed: ") && message.contains("\"a\"")
    ));
    assert!(matches!(
        validate_structured_output(&json(r#"{"type":"nonsense"}"#), "{}"),
        Err(CanonicalError::InvalidStructuredOutput(message))
            if message.starts_with("invalid output schema: ")
    ));
    assert!(matches!(
        validate_structured_output(&json(r#"{"type":"nonsense"}"#), "no"),
        Err(CanonicalError::InvalidStructuredOutput(message))
            if message.starts_with("response was not JSON: ")
    ));
}

#[test]
fn verdicts_follow_the_results() {
    let value = Ok(json("1"));
    assert_eq!(judge_structured_output(&value, &None, &None), Ok(()));
    assert_eq!(
        judge_structured_output(&Err("x".to_owned()), &None, &None),
        refused("response was not JSON: x")
    );
    assert_eq!(
        judge_structured_output(&value, &Some("y".to_owned()), &Some("z".to_owned())),
        refused("invalid output schema: y")
    );
    assert_eq!(
        judge_structured_output(&value, &None, &Some("z".to_owned())),
        refused("schema validation failed: z")
    );
}

#[test]
fn identities_are_not_blank() {
    assert_eq!(StableId::new("\u{2003}\n".to_owned()), Err(IdentityError::Empty));
    assert_eq!(TenantId::new(String::new()), Err(IdentityError::Empty));
    assert_eq!(StableId::new(" a ".to_owned()).unwrap().as_str(), " a ");
    assert_eq!(IdentityError::Empty.text(), "identity must not be empty");
}

#[test]
fn a_world_takes_one_runtime() {
    let mut world = World::new();
    install_runtime(&mut world, RuntimeConfig::default(), 1).unwrap();
    assert!(matches!(
        install_runtime(&mut world, RuntimeConfig::default(), 2),
        Err(InstallError::AlreadyInstalled)
    ));
    assert!(matches!(
        Runtime::new(
            RuntimeConfig {
                progress_limit: 0,
                ..RuntimeConfig::default()
            },
            1
        ),
        Err(InstallError::InvalidCapacity)
    ));
}

#[test]
fn ids_are_made_unique() {
    let used = vec!["a".to_owned(), "a-2".to_owned()];
    assert_eq!(make_unique(&used, &"b".to_owned(), 0), "b");
    assert_eq!(make_unique(&used, &"a".to_owned(), 2), "a-3");
    assert_eq!(make_unique(&used, &"a".to_owned(), 10), "a-10");
}

#[test]
fn rows_are_sorted_by_their_keys() {
    let row = |order: u64, name: &str, value: u64| {
        (
            vec![KeyPart::Number(order), KeyPart::Text(name.to_owned())],
            value,
        )
    };
    assert_eq!(
        sort_values(vec![row(2, "a", 1), row(1, "b", 2), row(1, "a", 3), row(1, "a", 4)]),
        vec![3, 4, 2, 1]
    );
}

#[test]
fn schemas_with_references_to_other_documents_are_refused() {
    let schema = json(
        r#"{"anyOf":[{"$ref":"http://a.example/x"},{"$ref":"http://b.example/y"}]}"#,
    );
    assert!(matches!(
        validate_structured_output(&schema, "{}"),
        Err(CanonicalError::InvalidStructuredOutput(message))
            if message.starts_with("invalid output schema: ") && message.contains(".example/")
    ));
    let dangling = json(r##"{"$ref":"#/$defs/missing"}"##);
    assert!(matches!(
        validate_structured_output(&dangling, "{}"),
        Err(CanonicalError::InvalidStructuredOutput(message))
            if message.starts_with("invalid output schema: ") && message.contains("missing")
    ));
}

#[test]
fn a_meta_schema_with_unknown_vocabularies_is_refused() {
    let schema = json(
        r#"{
            "$schema": "json-schema:///meta",
            "$id": "json-schema:///meta",
            "$vocabulary": {"urn:a:x": true, "urn:b:y": true}
        }"#,
    );
    assert!(matches!(
        validate_structured_output(&schema, "{}"),
        Err(CanonicalError::InvalidStructuredOutput(message))
            if message.starts_with("invalid output schema: ")
    ));
}
