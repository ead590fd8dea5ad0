use kiota::date_only::DateOnly;
use kiota::json_parse_node::{json_content_type_check, JsonParseNode, JsonParseNodeFactory};
use kiota::json_serialization_writer::{JsonSerializationWriter, JsonSerializationWriterFactory};
use kiota::json_value::{JsonNumber, JsonValue};
use kiota::string_map::StringMap;
use kiota::time_only::TimeOnly;

fn string(s: &str) -> JsonValue {
    JsonValue::String(s.to_string())
}

fn integer(n: i64) -> JsonValue {
    if n >= 0 {
        JsonValue::Number(JsonNumber::PosInt(n as u64))
    } else {
        JsonValue::Number(JsonNumber::NegInt(n))
    }
}

fn object(members: Vec<(&str, JsonValue)>) -> JsonValue {
    JsonValue::Object(members.into_iter().map(|(k, v)| (k.to_string(), v)).collect())
}

fn member<'a>(v: &'a JsonValue, key: &str) -> &'a JsonValue {
    match v {
        JsonValue::Object(ms) => &ms.iter().find(|(k, _)| k == key).expect("member").1,
        _ => panic!("not an object"),
    }
}

fn as_str(v: &JsonValue) -> &str {
    match v {
        JsonValue::String(s) => s.as_str(),
        _ => panic!("not a string"),
    }
}

fn as_int(v: &JsonValue) -> i128 {
    match v {
        JsonValue::Number(JsonNumber::PosInt(n)) => *n as i128,
        JsonValue::Number(JsonNumber::NegInt(n)) => *n as i128,
        _ => panic!("not an integer"),
    }
}

#[test]
fn json_parse_node_parse_string() {
    let node = JsonParseNode::new(string("hello"));
    assert_eq!(node.get_string_value().unwrap(), Some("hello".to_string()));
}

#[test]
fn json_parse_node_parse_bool() {
    let node = JsonParseNode::new(JsonValue::Bool(true));
    assert_eq!(node.get_bool_value().unwrap(), Some(true));
}

#[test]
fn json_parse_node_parse_i32() {
    let node = JsonParseNode::new(integer(42));
    assert_eq!(node.get_i32_value().unwrap(), Some(42));
}

#[test]
fn parse_null_returns_none() {
    let node = JsonParseNode::new(JsonValue::Null);
    assert_eq!(node.get_string_value().unwrap(), None);
    assert_eq!(node.get_bool_value().unwrap(), None);
    assert_eq!(node.get_i32_value().unwrap(), None);
}

#[test]
fn json_parse_node_parse_uuid() {
    let id = "550e8400-e29b-41d4-a716-446655440000";
    let node = JsonParseNode::new(string(id));
    let parsed = node.get_uuid_value().unwrap().unwrap();
    assert_eq!(uuid::Uuid::from_u128(parsed).to_string(), id);
}

#[test]
fn parse_date_only() {
    let node = JsonParseNode::new(string("2026-06-23"));
    let date = node.get_date_only_value().unwrap().unwrap();
    assert_eq!(date.to_string(), "2026-06-23");
}

#[test]
fn parse_child_node() {
    let node = JsonParseNode::new(object(vec![("name", string("kiota")), ("version", integer(1))]));
    let child = node.get_child_node("name").unwrap();
    assert_eq!(child.get_string_value().unwrap(), Some("kiota".to_string()));
}

#[test]
fn parse_collection_of_primitives() {
    let node = JsonParseNode::new(JsonValue::Array(vec![string("a"), string("b"), string("c")]));
    let vals = node.get_collection_of_primitive_values().unwrap();
    assert_eq!(vals, vec!["a", "b", "c"]);
}

#[test]
fn json_node_reads_only_matching_kinds() {
    let node = JsonParseNode::new(integer(3000000000));
    assert_eq!(node.get_i64_value().unwrap(), Some(3000000000));
    assert_eq!(node.get_i32_value().unwrap(), None);
    assert_eq!(node.get_string_value().unwrap(), None);
    assert_eq!(node.get_bool_value().unwrap(), None);
    let node = JsonParseNode::new(JsonValue::Number(JsonNumber::PosInt(u64::MAX)));
    assert_eq!(node.get_i64_value().unwrap(), None);
    let node = JsonParseNode::new(integer(-7));
    assert_eq!(node.get_i32_value().unwrap(), Some(-7));
    let node = JsonParseNode::new(string("42"));
    assert_eq!(node.get_i32_value().unwrap(), None);
    assert_eq!(node.get_uuid_value().unwrap_err().message.starts_with("Invalid UUID: "), true);
    assert!(node.get_date_only_value().unwrap_err().message.starts_with("Invalid date: "));
    assert!(node.get_time_only_value().unwrap_err().message.starts_with("Invalid time: "));
    assert!(node.get_datetime_value().unwrap_err().message.starts_with("Invalid datetime: "));
    let node = JsonParseNode::new(integer(1));
    assert_eq!(node.get_uuid_value().unwrap(), None);
    assert_eq!(node.get_date_only_value().unwrap(), None);
    assert_eq!(node.get_enum_value(|s: &str| Some(s.to_string())).unwrap(), None);
}

#[test]
fn json_node_time_datetime_and_enum() {
    let node = JsonParseNode::new(string("23:59:58"));
    assert_eq!(node.get_time_only_value().unwrap(), Some(TimeOnly::new(23, 59, 58)));
    assert_eq!(node.get_enum_value(|s: &str| Some(s.replace(':', ""))).unwrap(), Some("235958".to_string()));
    let node = JsonParseNode::new(string("2024-02-29T12:00:00Z"));
    assert_eq!(node.get_datetime_value().unwrap().unwrap().to_rfc3339(), "2024-02-29T12:00:00+00:00");
    let node = JsonParseNode::new(string("2024-02-29 12:00:00+01:00"));
    assert_eq!(node.get_datetime_value().unwrap().unwrap().to_rfc3339(), "2024-02-29T11:00:00+00:00");
    let node = JsonParseNode::new(string("1999-12-31"));
    assert_eq!(node.get_date_only_value().unwrap(), Some(DateOnly::new(1999, 12, 31)));
}

#[test]
fn json_primitive_collection_skips_other_kinds() {
    let node = JsonParseNode::new(JsonValue::Array(vec![
        string("x"),
        integer(-3),
        JsonValue::Number(JsonNumber::Float("2.5".to_string())),
        JsonValue::Bool(false),
        JsonValue::Null,
        JsonValue::Array(vec![]),
        object(vec![]),
    ]));
    assert_eq!(node.get_collection_of_primitive_values().unwrap(), vec!["x", "-3", "2.5", "false"]);
    let node = JsonParseNode::new(string("x"));
    assert!(node.get_collection_of_primitive_values().unwrap().is_empty());
}

#[test]
fn json_child_nodes_and_items() {
    let node = JsonParseNode::new(object(vec![("a", integer(1)), ("b", JsonValue::Array(vec![integer(2), integer(3)]))]));
    assert!(node.get_child_node("c").is_none());
    let b = node.get_child_node("b").unwrap();
    let items = b.array_item_nodes();
    assert_eq!(items.len(), 2);
    assert_eq!(items[1].get_i32_value().unwrap(), Some(3));
    let members = node.object_member_nodes().unwrap();
    assert_eq!(members.len(), 2);
    assert_eq!(members[0].0, "a");
    assert_eq!(members[0].1.get_i64_value().unwrap(), Some(1));
    assert!(b.object_member_nodes().is_none());
    assert!(node.array_item_nodes().is_empty());
    assert!(JsonParseNode::new(integer(1)).get_child_node("a").is_none());
}

#[test]
fn valid_content_type_is_json() {
    let factory = JsonParseNodeFactory;
    assert_eq!(factory.valid_content_type(), "application/json");
}

#[test]
fn json_parse_node_factory_rejects_wrong_content_type() {
    let factory = JsonParseNodeFactory;
    let result = factory.get_root_parse_node("text/plain", b"{}");
    assert!(result.is_err());
    let result = factory.check_content_type("text/plain");
    assert_eq!(result.unwrap_err().message, "expected 'application/json', got 'text/plain'");
    assert!(factory.check_content_type("application/json").is_ok());
    assert!(json_content_type_check("application/json; charset=utf-8").is_err());
}

#[test]
fn write_string_and_serialize() {
    let mut writer = JsonSerializationWriter::new();
    writer.write_string_value("name", "kiota").unwrap();
    let bytes = writer.get_serialized_content().unwrap();
    let parsed: serde_json::Value = serde_json::from_slice(&bytes).unwrap();
    assert_eq!(parsed["name"], "kiota");
}

#[test]
fn write_multiple_types() {
    let mut writer = JsonSerializationWriter::new();
    writer.write_string_value("name", "test").unwrap();
    writer.write_bool_value("active", true).unwrap();
    writer.write_i32_value("count", 42).unwrap();
    writer.write_value("score", JsonValue::Number(JsonNumber::Float("9.5".to_string())));
    let bytes = writer.get_serialized_content().unwrap();
    let parsed: serde_json::Value = serde_json::from_slice(&bytes).unwrap();
    assert_eq!(parsed["name"], "test");
    assert_eq!(parsed["active"], true);
    assert_eq!(parsed["count"], 42);
    assert_eq!(parsed["score"], 9.5);
}

#[test]
fn write_uuid() {
    let mut writer = JsonSerializationWriter::new();
    let id = uuid::Uuid::parse_str("550e8400-e29b-41d4-a716-446655440000").unwrap();
    writer.write_uuid_value("id", id.as_u128()).unwrap();
    let bytes = writer.get_serialized_content().unwrap();
    let parsed: serde_json::Value = serde_json::from_slice(&bytes).unwrap();
    assert_eq!(parsed["id"], "550e8400-e29b-41d4-a716-446655440000");
}

#[test]
fn write_additional_data() {
    let mut writer = JsonSerializationWriter::new();
    let mut data = StringMap::new();
    data.insert("extra".to_string(), string("info"));
    data.insert("count".to_string(), integer(7));
    writer.write_additional_data(&data).unwrap();
    let bytes = writer.get_serialized_content().unwrap();
    let parsed: serde_json::Value = serde_json::from_slice(&bytes).unwrap();
    assert_eq!(parsed["extra"], "info");
    assert_eq!(parsed["count"], 7);
}

#[test]
fn empty_writer_produces_empty_object() {
    let writer = JsonSerializationWriter::new();
    let bytes = writer.get_serialized_content().unwrap();
    let parsed: serde_json::Value = serde_json::from_slice(&bytes).unwrap();
    assert_eq!(parsed, serde_json::Value::Object(serde_json::Map::new()));
    assert_eq!(bytes, b"{}".to_vec());
}

#[test]
fn json_writer_content_value_holds_members() {
    let mut writer = JsonSerializationWriter::new();
    writer.write_string_value("name", "kiota").unwrap();
    let content = writer.content_value();
    assert_eq!(as_str(member(&content, "name")), "kiota");
}

#[test]
fn json_writer_bad_float_text_is_an_error() {
    let mut writer = JsonSerializationWriter::new();
    writer.write_value("x", JsonValue::Number(JsonNumber::Float("abc".to_string())));
    let e = writer.get_serialized_content().unwrap_err();
    assert_eq!(e.status_code, 0);
    assert!(e.message.starts_with("JSON serialization error: "));
}

#[test]
fn from_bytes_valid_json() {
    let bytes = b"{\"key\": \"value\"}";
    let node = JsonParseNode::from_bytes(bytes).unwrap();
    let child = node.get_child_node("key").unwrap();
    assert_eq!(child.get_string_value().unwrap(), Some("value".to_string()));
}

#[test]
fn from_bytes_invalid_json() {
    let bytes = b"not json";
    let result = JsonParseNode::from_bytes(bytes);
    assert!(result.is_err());
    assert!(result.err().unwrap().message.starts_with("JSON parse error: "));
}

#[test]
fn creates_parse_node_for_json() {
    let factory = JsonParseNodeFactory;
    let content = b"{\"key\": \"value\"}";
    let node = factory.get_root_parse_node("application/json", content).ok().unwrap();
    let child = node.get_child_node("key").unwrap();
    assert_eq!(child.get_string_value().unwrap(), Some("value".to_string()));
}

#[test]
fn json_bytes_round_trip_keeps_numbers() {
    let node = JsonParseNode::from_bytes(b"[18446744073709551615, -3, 2.5, true, null, \"s\"]").unwrap();
    assert_eq!(
        node.get_collection_of_primitive_values().unwrap(),
        vec!["18446744073709551615", "-3", "2.5", "true", "s"]
    );
    let items = node.array_item_nodes();
    assert_eq!(items[1].get_i32_value().unwrap(), Some(-3));
    assert_eq!(items[0].get_i64_value().unwrap(), None);
}

#[test]
fn json_writer_replaces_key_in_place_and_nests() {
    let mut writer = JsonSerializationWriter::new();
    writer.write_i64_value("a", -1).unwrap();
    writer.write_date_only_value("d", &DateOnly::new(2020, 2, 3)).unwrap();
    writer.write_time_only_value("t", &TimeOnly::new(4, 5, 6)).unwrap();
    writer.write_i64_value("a", 9).unwrap();
    let mut child = JsonSerializationWriter::new();
    child.write_string_value("x", "y").unwrap();
    writer.write_object_from("o", &child);
    writer.write_collection_from("l", &vec![child]);
    let content = writer.content_value();
    match &content {
        JsonValue::Object(ms) => {
            let keys: Vec<&str> = ms.iter().map(|(k, _)| k.as_str()).collect();
            assert_eq!(keys, vec!["a", "d", "t", "o", "l"]);
        }
        _ => panic!("not an object"),
    }
    assert_eq!(as_int(member(&content, "a")), 9);
    assert_eq!(as_str(member(&content, "d")), "2020-02-03");
    assert_eq!(as_str(member(&content, "t")), "04:05:06");
    assert_eq!(as_str(member(member(&content, "o"), "x")), "y");
    match member(&content, "l") {
        JsonValue::Array(items) => {
            assert_eq!(items.len(), 1);
            assert_eq!(as_str(member(&items[0], "x")), "y");
        }
        _ => panic!("not an array"),
    }
}

#[test]
fn creates_writer_for_json() {
    let factory = JsonSerializationWriterFactory;
    let writer = factory.get_serialization_writer("application/json");
    assert!(writer.is_ok());
}

#[test]
fn json_serialization_writer_factory_rejects_wrong_content_type() {
    let factory = JsonSerializationWriterFactory;
    let result = factory.get_serialization_writer("text/xml");
    assert!(result.is_err());
}

#[test]
fn json_number_text_and_copy() {
    assert_eq!(JsonNumber::PosInt(18446744073709551615).to_text(), "18446744073709551615");
    assert_eq!(JsonNumber::NegInt(-5).to_text(), "-5");
    assert_eq!(JsonNumber::Float("1e300".to_string()).to_text(), "1e300");
    let v = object(vec![("k", JsonValue::Array(vec![JsonValue::Null, JsonValue::Bool(true)]))]);
    let c = v.copy();
    assert_eq!(format!("{c:?}"), format!("{v:?}"));
}

#[test]
fn json_write_then_read_through_node() {
    let mut writer = JsonSerializationWriter::new();
    writer.write_string_value("a", "x").unwrap();
    writer.write_i32_value("b", 5).unwrap();
    writer.write_string_value("a", "y").unwrap();
    let node = JsonParseNode::new(writer.content_value());
    assert_eq!(node.get_child_node("a").unwrap().get_string_value().unwrap(), Some("y".to_string()));
    assert_eq!(node.get_child_node("b").unwrap().get_i32_value().unwrap(), Some(5));
    let bytes = writer.get_serialized_content().unwrap();
    let node = JsonParseNode::from_bytes(&bytes).unwrap();
    assert_eq!(node.get_child_node("a").unwrap().get_string_value().unwrap(), Some("y".to_string()));
}
