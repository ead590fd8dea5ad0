use kiota::date_only::DateOnly;
use kiota::date_time::UtcDateTime;
use kiota::text_parse_node::{TextParseNode, TextParseNodeFactory};
use kiota::text_serialization_writer::{TextSerializationWriter, TextSerializationWriterFactory};
use kiota::time_only::TimeOnly;

#[test]
fn text_parse_node_parse_string() {
    let node = TextParseNode::new("hello world".to_string());
    assert_eq!(node.get_string_value().unwrap(), Some("hello world".to_string()));
}

#[test]
fn text_parse_node_parse_i32() {
    let node = TextParseNode::new("42".to_string());
    assert_eq!(node.get_i32_value().unwrap(), Some(42));
}

#[test]
fn text_parse_node_parse_bool() {
    let node = TextParseNode::new("true".to_string());
    assert_eq!(node.get_bool_value().unwrap(), Some(true));
}

#[test]
fn text_parse_node_parse_uuid() {
    let id = "550e8400-e29b-41d4-a716-446655440000";
    let node = TextParseNode::new(id.to_string());
    assert_eq!(node.get_uuid_value().unwrap(), Some(id.parse::<uuid::Uuid>().unwrap().as_u128()));
}

#[test]
fn parse_empty_returns_none() {
    let node = TextParseNode::new("  ".to_string());
    assert_eq!(node.get_string_value().unwrap(), None);
}

#[test]
fn from_bytes_works() {
    let node = TextParseNode::from_bytes(b"hello").unwrap();
    assert_eq!(node.get_string_value().unwrap(), Some("hello".to_string()));
}

#[test]
fn object_value_returns_error() {
    let node = TextParseNode::new("test".to_string());
    assert!(node.get_object_value::<String>().is_err());
}

#[test]
fn text_node_trims_and_reads_each_type() {
    let node = TextParseNode::new("  -17 \n".to_string());
    assert_eq!(node.get_string_value().unwrap(), Some("-17".to_string()));
    assert_eq!(node.get_i32_value().unwrap(), Some(-17));
    assert_eq!(node.get_i64_value().unwrap(), Some(-17));
    let e = node.get_bool_value().unwrap_err();
    assert_eq!(e.message, "Cannot parse bool: provided string was not `true` or `false`");
    let node = TextParseNode::new("3000000000".to_string());
    let e = node.get_i32_value().unwrap_err();
    assert_eq!(e.message, "Cannot parse i32: number too large to fit in target type");
    assert_eq!(node.get_i64_value().unwrap(), Some(3000000000));
    let node = TextParseNode::new("2024-02-29".to_string());
    assert_eq!(node.get_date_only_value().unwrap(), Some(DateOnly::new(2024, 2, 29)));
    let node = TextParseNode::new("07:08:09".to_string());
    assert_eq!(node.get_time_only_value().unwrap(), Some(TimeOnly::new(7, 8, 9)));
    let e = node.get_date_only_value().unwrap_err();
    assert_eq!(
        e.message,
        "Cannot parse DateOnly: API error 0: invalid date format, expected YYYY-MM-DD: 07:08:09"
    );
}

#[test]
fn text_node_without_value_reads_none() {
    let node = TextParseNode::new(String::new());
    assert_eq!(node.get_i32_value().unwrap(), None);
    assert_eq!(node.get_bool_value().unwrap(), None);
    assert_eq!(node.get_uuid_value().unwrap(), None);
    assert!(node.get_datetime_value().unwrap().is_none());
    assert_eq!(node.get_enum_value(|s: &str| Some(s.to_uppercase())).unwrap(), None);
}

#[test]
fn text_node_uuid_error_and_enum() {
    let node = TextParseNode::new("not-a-uuid".to_string());
    let e = node.get_uuid_value().unwrap_err();
    assert_eq!(e.status_code, 0);
    assert!(e.message.starts_with("Cannot parse UUID: "));
    let node = TextParseNode::new("red".to_string());
    assert_eq!(node.get_enum_value(|s: &str| Some(s.to_uppercase())).unwrap(), Some("RED".to_string()));
}

#[test]
fn text_node_datetime() {
    let node = TextParseNode::new("2024-01-02T03:04:05+02:00".to_string());
    let t = node.get_datetime_value().unwrap().unwrap();
    assert_eq!(t.to_rfc3339(), "2024-01-02T01:04:05+00:00");
    let node = TextParseNode::new("yesterday".to_string());
    let e = node.get_datetime_value().unwrap_err();
    assert!(e.message.starts_with("Cannot parse DateTime: "));
}

#[test]
fn text_node_rejects_collections_and_children() {
    let node = TextParseNode::new("x".to_string());
    assert_eq!(
        node.get_collection_of_primitive_values().unwrap_err().message,
        "Text/plain does not support primitive collections"
    );
    assert_eq!(
        node.get_collection_of_object_values::<String>().unwrap_err().message,
        "Text/plain does not support collections"
    );
    assert!(node.get_child_node("x").is_none());
}

#[test]
fn from_bytes_rejects_invalid_utf8() {
    let e = TextParseNode::from_bytes(&[0x66, 0xff, 0x66]).err().unwrap();
    assert_eq!(e.status_code, 0);
    assert!(e.message.starts_with("Invalid UTF-8: "));
}

#[test]
fn valid_content_type_is_text() {
    let factory = TextParseNodeFactory;
    assert_eq!(factory.valid_content_type(), "text/plain");
}

#[test]
fn creates_parse_node_for_text() {
    let factory = TextParseNodeFactory;
    let node = factory.get_root_parse_node("text/plain", b"hello");
    assert!(node.is_ok());
}

#[test]
fn text_parse_node_factory_rejects_wrong_content_type() {
    let factory = TextParseNodeFactory;
    let node = factory.get_root_parse_node("application/json", b"hello");
    assert!(node.is_err());
    assert_eq!(node.err().unwrap().message, "Expected text/plain, got application/json");
}

#[test]
fn write_string() {
    let mut writer = TextSerializationWriter::new();
    writer.write_string_value("", "hello").unwrap();
    let content = writer.get_serialized_content().unwrap();
    assert_eq!(String::from_utf8(content).unwrap(), "hello");
}

#[test]
fn write_i32() {
    let mut writer = TextSerializationWriter::new();
    writer.write_i32_value("", 42).unwrap();
    let content = writer.get_serialized_content().unwrap();
    assert_eq!(String::from_utf8(content).unwrap(), "42");
}

#[test]
fn empty_writer_returns_empty() {
    let writer = TextSerializationWriter::new();
    let content = writer.get_serialized_content().unwrap();
    assert!(content.is_empty());
}

#[test]
fn write_bool() {
    let mut writer = TextSerializationWriter::new();
    writer.write_bool_value("", true).unwrap();
    let content = writer.get_serialized_content().unwrap();
    assert_eq!(String::from_utf8(content).unwrap(), "true");
}

#[test]
fn text_writer_keeps_last_value_and_formats_each_type() {
    let mut writer = TextSerializationWriter::new();
    writer.write_i64_value("k", -9000000000).unwrap();
    assert_eq!(writer.get_serialized_content().unwrap(), b"-9000000000".to_vec());
    writer.write_uuid_value("k", 0x550e8400e29b41d4a716446655440000).unwrap();
    assert_eq!(
        writer.get_serialized_content().unwrap(),
        b"550e8400-e29b-41d4-a716-446655440000".to_vec()
    );
    writer.write_date_only_value("k", &DateOnly::new(7, 3, 4)).unwrap();
    assert_eq!(writer.get_serialized_content().unwrap(), b"0007-03-04".to_vec());
    writer.write_time_only_value("k", &TimeOnly::new(1, 2, 3)).unwrap();
    assert_eq!(writer.get_serialized_content().unwrap(), b"01:02:03".to_vec());
    let t = UtcDateTime::parse_rfc3339("2020-05-06T07:08:09Z").unwrap();
    writer.write_datetime_value("k", &t).unwrap();
    assert_eq!(writer.get_serialized_content().unwrap(), b"2020-05-06T07:08:09+00:00".to_vec());
    assert!(writer.write_object_value("k", &5u8).is_err());
    assert!(writer.write_collection_of_object_values::<u8>("k", &[]).is_err());
    writer.write_additional_data(&5u8).unwrap();
    assert_eq!(writer.get_serialized_content().unwrap(), b"2020-05-06T07:08:09+00:00".to_vec());
}

#[test]
fn creates_writer_for_text() {
    let factory = TextSerializationWriterFactory;
    let writer = factory.get_serialization_writer("text/plain");
    assert!(writer.is_ok());
}

#[test]
fn text_serialization_writer_factory_rejects_wrong_content_type() {
    let factory = TextSerializationWriterFactory;
    let writer = factory.get_serialization_writer("application/json");
    assert!(writer.is_err());
}

#[test]
fn text_round_trip_through_writer_and_node() {
    let mut writer = TextSerializationWriter::new();
    writer.write_i32_value("", -2147483648).unwrap();
    let bytes = writer.get_serialized_content().unwrap();
    let node = TextParseNode::from_bytes(&bytes).unwrap();
    assert_eq!(node.get_i32_value().unwrap(), Some(-2147483648));
}

#[test]
fn text_round_trip_of_uuid_date_time_and_bool() {
    let mut writer = TextSerializationWriter::new();
    writer.write_uuid_value("", 0x0123456789abcdef0123456789abcdef).unwrap();
    let node = TextParseNode::from_bytes(&writer.get_serialized_content().unwrap()).unwrap();
    assert_eq!(node.get_uuid_value().unwrap(), Some(0x0123456789abcdef0123456789abcdef));
    writer.write_date_only_value("", &DateOnly::new(33, 12, 1)).unwrap();
    let node = TextParseNode::from_bytes(&writer.get_serialized_content().unwrap()).unwrap();
    assert_eq!(node.get_date_only_value().unwrap(), Some(DateOnly::new(33, 12, 1)));
    writer.write_time_only_value("", &TimeOnly::new(0, 9, 59)).unwrap();
    let node = TextParseNode::from_bytes(&writer.get_serialized_content().unwrap()).unwrap();
    assert_eq!(node.get_time_only_value().unwrap(), Some(TimeOnly::new(0, 9, 59)));
    writer.write_bool_value("", false).unwrap();
    let node = TextParseNode::from_bytes(&writer.get_serialized_content().unwrap()).unwrap();
    assert_eq!(node.get_bool_value().unwrap(), Some(false));
    writer.write_string_value("", "  padded\t").unwrap();
    let node = TextParseNode::from_bytes(&writer.get_serialized_content().unwrap()).unwrap();
    assert_eq!(node.get_string_value().unwrap(), Some("padded".to_string()));
}

#[test]
fn text_round_trip_fails_for_negative_years() {
    let mut writer = TextSerializationWriter::new();
    writer.write_date_only_value("", &DateOnly::new(-5, 1, 1)).unwrap();
    let node = TextParseNode::from_bytes(&writer.get_serialized_content().unwrap()).unwrap();
    assert!(node.get_date_only_value().is_err());
}
