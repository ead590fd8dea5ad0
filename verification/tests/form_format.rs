use kiota::date_only::DateOnly;
use kiota::form_parse_node::{FormParseNode, FormParseNodeFactory};
use kiota::form_serialization_writer::{FormSerializationWriter, FormSerializationWriterFactory};
use kiota::json_value::{JsonNumber, JsonValue};
use kiota::string_map::StringMap;
use kiota::time_only::TimeOnly;

#[test]
fn from_bytes_parses_form_data() {
    let node = FormParseNode::from_bytes(b"name=John&age=30").unwrap();
    assert_eq!(node.fields().get("name").unwrap(), "John");
    assert_eq!(node.fields().get("age").unwrap(), "30");
}

#[test]
fn get_child_node_sets_value() {
    let node = FormParseNode::from_bytes(b"name=Alice&color=blue").unwrap();
    let child = node.get_child_node("name").unwrap();
    assert_eq!(child.get_string_value().unwrap(), Some("Alice".to_string()));
}

#[test]
fn get_child_node_parses_i32() {
    let node = FormParseNode::from_bytes(b"count=42").unwrap();
    let child = node.get_child_node("count").unwrap();
    assert_eq!(child.get_i32_value().unwrap(), Some(42));
}

#[test]
fn missing_key_returns_none() {
    let node = FormParseNode::from_bytes(b"name=Alice").unwrap();
    assert!(node.get_child_node("missing").is_none());
}

#[test]
fn url_decodes_values() {
    let node = FormParseNode::from_bytes(b"msg=hello%20world").unwrap();
    assert_eq!(node.fields().get("msg").unwrap(), "hello world");
}

#[test]
fn form_later_value_replaces_earlier_and_plus_is_space() {
    let node = FormParseNode::from_bytes(b"a=1&b=x+y&a=2").unwrap();
    assert_eq!(node.fields().get("a").unwrap(), "2");
    assert_eq!(node.fields().get("b").unwrap(), "x y");
    assert_eq!(node.fields().len(), 2);
    assert_eq!(node.get_string_value().unwrap(), None);
}

#[test]
fn form_node_reads_typed_values() {
    let node = FormParseNode::from_bytes(b"d=2024-06-15&t=10:20:30&ok=false&big=-9000000000&id=550e8400-e29b-41d4-a716-446655440000").unwrap();
    let d = node.get_child_node("d").unwrap();
    assert_eq!(d.get_date_only_value().unwrap(), Some(DateOnly::new(2024, 6, 15)));
    let t = node.get_child_node("t").unwrap();
    assert_eq!(t.get_time_only_value().unwrap(), Some(TimeOnly::new(10, 20, 30)));
    let ok = node.get_child_node("ok").unwrap();
    assert_eq!(ok.get_bool_value().unwrap(), Some(false));
    let big = node.get_child_node("big").unwrap();
    assert_eq!(big.get_i64_value().unwrap(), Some(-9000000000));
    assert!(big.get_i32_value().is_err());
    let id = node.get_child_node("id").unwrap();
    assert_eq!(id.get_uuid_value().unwrap(), Some(0x550e8400e29b41d4a716446655440000));
    assert_eq!(
        node.get_collection_of_primitive_values().unwrap_err().message,
        "Form encoding does not support primitive collections"
    );
    assert_eq!(
        node.get_collection_of_object_values::<u8>().unwrap_err().message,
        "Form encoding does not support collections of objects"
    );
}

#[test]
fn form_node_from_invalid_utf8_fails() {
    let e = FormParseNode::from_bytes(&[0x61, 0x3d, 0xc3]).err().unwrap();
    assert!(e.message.starts_with("Invalid UTF-8: "));
}

#[test]
fn form_node_new_over_given_fields() {
    let mut fields = StringMap::new();
    fields.insert("k".to_string(), "v".to_string());
    let node = FormParseNode::new(fields);
    let child = node.get_child_node("k").unwrap();
    assert_eq!(child.get_string_value().unwrap(), Some("v".to_string()));
    assert_eq!(child.get_enum_value(|s: &str| Some(format!("<{s}>"))).unwrap(), Some("<v>".to_string()));
}

#[test]
fn form_parse_node_factory_checks_content_type() {
    let factory = FormParseNodeFactory;
    assert_eq!(factory.valid_content_type(), "application/x-www-form-urlencoded");
    assert!(factory.get_root_parse_node("application/x-www-form-urlencoded", b"a=1").is_ok());
    let e = factory.get_root_parse_node("text/plain", b"a=1").err().unwrap();
    assert_eq!(e.message, "Expected application/x-www-form-urlencoded, got text/plain");
}

#[test]
fn write_single_pair() {
    let mut writer = FormSerializationWriter::new();
    writer.write_string_value("name", "Alice").unwrap();
    let content = String::from_utf8(writer.get_serialized_content().unwrap()).unwrap();
    assert_eq!(content, "name=Alice");
}

#[test]
fn write_multiple_pairs() {
    let mut writer = FormSerializationWriter::new();
    writer.write_string_value("name", "Alice").unwrap();
    writer.write_i32_value("age", 30).unwrap();
    let content = String::from_utf8(writer.get_serialized_content().unwrap()).unwrap();
    assert_eq!(content, "name=Alice&age=30");
}

#[test]
fn encodes_special_chars() {
    let mut writer = FormSerializationWriter::new();
    writer.write_string_value("msg", "hello world & more").unwrap();
    let content = String::from_utf8(writer.get_serialized_content().unwrap()).unwrap();
    assert!(content.contains("hello+world"));
}

#[test]
fn empty_writer() {
    let writer = FormSerializationWriter::new();
    let content = writer.get_serialized_content().unwrap();
    assert!(content.is_empty());
}

#[test]
fn form_writer_encodes_exactly() {
    let mut writer = FormSerializationWriter::new();
    writer.write_string_value("a b", "x&y=z*-._~/\u{e9}").unwrap();
    let content = String::from_utf8(writer.get_serialized_content().unwrap()).unwrap();
    assert_eq!(content, "a+b=x%26y%3Dz*-._%7E%2F%C3%A9");
}

#[test]
fn form_writer_writes_each_type_in_order() {
    let mut writer = FormSerializationWriter::new();
    writer.write_bool_value("b", true).unwrap();
    writer.write_i64_value("n", -5).unwrap();
    writer.write_uuid_value("u", 1).unwrap();
    writer.write_date_only_value("d", &DateOnly::new(2024, 1, 2)).unwrap();
    writer.write_time_only_value("t", &TimeOnly::new(3, 4, 5)).unwrap();
    let content = String::from_utf8(writer.get_serialized_content().unwrap()).unwrap();
    assert_eq!(
        content,
        "b=true&n=-5&u=00000000-0000-0000-0000-000000000001&d=2024-01-02&t=03%3A04%3A05"
    );
    assert!(writer.write_collection_of_object_values::<u8>("c", &[]).is_err());
}

#[test]
fn form_writer_appends_child_pairs() {
    let mut writer = FormSerializationWriter::new();
    writer.write_string_value("a", "1").unwrap();
    let mut child = FormSerializationWriter::new();
    child.write_string_value("b", "2").unwrap();
    child.write_string_value("c", "3").unwrap();
    writer.append_pairs_of(child);
    let content = String::from_utf8(writer.get_serialized_content().unwrap()).unwrap();
    assert_eq!(content, "a=1&b=2&c=3");
}

#[test]
fn form_serialization_writer_factory_checks_content_type() {
    let factory = FormSerializationWriterFactory;
    assert_eq!(factory.valid_content_type(), "application/x-www-form-urlencoded");
    assert!(factory.get_serialization_writer("application/x-www-form-urlencoded").is_ok());
    assert!(factory.get_serialization_writer("application/json").is_err());
}

#[test]
fn form_round_trip_through_writer_and_node() {
    let mut writer = FormSerializationWriter::new();
    writer.write_string_value("q", "a b&c=d").unwrap();
    writer.write_i32_value("n", -12).unwrap();
    let bytes = writer.get_serialized_content().unwrap();
    let node = FormParseNode::from_bytes(&bytes).unwrap();
    assert_eq!(node.fields().get("q").unwrap(), "a b&c=d");
    assert_eq!(node.get_child_node("n").unwrap().get_i32_value().unwrap(), Some(-12));
}

#[test]
fn form_writer_writes_additional_data() {
    let mut data = StringMap::new();
    data.insert("s".to_string(), JsonValue::String("a b".to_string()));
    data.insert("n".to_string(), JsonValue::Number(JsonNumber::NegInt(-4)));
    data.insert("l".to_string(), JsonValue::Array(vec![JsonValue::Bool(true), JsonValue::Null]));
    let mut writer = FormSerializationWriter::new();
    writer.write_string_value("first", "1").unwrap();
    writer.write_additional_data(&data).unwrap();
    let content = String::from_utf8(writer.get_serialized_content().unwrap()).unwrap();
    assert_eq!(content, "first=1&s=a+b&n=-4&l=%5Btrue%2Cnull%5D");
    let mut bad = StringMap::new();
    bad.insert("x".to_string(), JsonValue::Number(JsonNumber::Float("nope".to_string())));
    let e = writer.write_additional_data(&bad).unwrap_err();
    assert!(e.message.starts_with("JSON serialization error: "));
    let content = String::from_utf8(writer.get_serialized_content().unwrap()).unwrap();
    assert_eq!(content, "first=1&s=a+b&n=-4&l=%5Btrue%2Cnull%5D");
}
