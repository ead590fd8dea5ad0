use kiota::api_error::ApiError;
use kiota::case_insensitive_map::CaseInsensitiveMap;
use kiota::date_only::DateOnly;
use kiota::request_information::{HttpMethod, RequestInformation};
use kiota::time_only::TimeOnly;

#[test]
fn new_creates_error_with_defaults() {
    let err = ApiError::new(404, "Not Found");
    assert_eq!(err.status_code, 404);
    assert_eq!(err.message, "Not Found");
    assert!(err.headers.is_empty());
    assert!(err.response_body.is_none());
}

#[test]
fn display_format() {
    let err = ApiError::new(500, "Internal Server Error");
    assert_eq!(err.to_string(), "API error 500: Internal Server Error");
}

#[test]
fn with_response_body_sets_body() {
    let err = ApiError::new(400, "Bad Request").with_response_body("{\"error\": \"invalid\"}");
    assert_eq!(err.response_body.as_deref(), Some("{\"error\": \"invalid\"}"));
}

#[test]
fn implements_error_trait() {
    let err = ApiError::new(503, "Service Unavailable");
    assert!(err.to_string().contains("503"));
}

#[test]
fn api_error_text_of_negative_status() {
    let err = ApiError::new(-1, "odd");
    assert_eq!(err.to_string(), "API error -1: odd");
    let err = ApiError::new(0, "");
    assert_eq!(err.to_string(), "API error 0: ");
}

#[test]
fn with_headers_keeps_status_and_message() {
    let mut headers = std::collections::HashMap::new();
    headers.insert("retry-after".to_string(), vec!["5".to_string()]);
    let err = ApiError::new(429, "Too Many Requests").with_headers(headers);
    assert_eq!(err.status_code, 429);
    assert_eq!(err.message, "Too Many Requests");
    assert_eq!(err.headers.get("retry-after"), Some(&vec!["5".to_string()]));
}

#[test]
fn insert_and_get_case_insensitive() {
    let mut map = CaseInsensitiveMap::new();
    map.insert("Content-Type", "application/json");
    assert_eq!(
        map.get("content-type").map(|v| v.as_slice()),
        Some(["application/json".to_string()].as_slice())
    );
    assert_eq!(
        map.get("CONTENT-TYPE").map(|v| v.as_slice()),
        Some(["application/json".to_string()].as_slice())
    );
}

#[test]
fn insert_appends_multiple_values() {
    let mut map = CaseInsensitiveMap::new();
    map.insert("Accept", "text/html");
    map.insert("accept", "application/json");
    let values = map.get("Accept").unwrap();
    assert_eq!(values.len(), 2);
    assert_eq!(values[0], "text/html");
    assert_eq!(values[1], "application/json");
}

#[test]
fn get_first_returns_first_value() {
    let mut map = CaseInsensitiveMap::new();
    map.insert("X-Custom", "first");
    map.insert("x-custom", "second");
    assert_eq!(map.get_first("X-CUSTOM"), Some(&"first".to_string()));
}

#[test]
fn remove_deletes_key() {
    let mut map = CaseInsensitiveMap::new();
    map.insert("Authorization", "Bearer token");
    assert!(map.contains_key("authorization"));
    map.remove("AUTHORIZATION");
    assert!(!map.contains_key("authorization"));
}

#[test]
fn contains_key_is_case_insensitive() {
    let mut map = CaseInsensitiveMap::new();
    map.insert("Host", "example.com");
    assert!(map.contains_key("host"));
    assert!(map.contains_key("HOST"));
    assert!(map.contains_key("Host"));
}

#[test]
fn keys_returns_lowercased() {
    let mut map = CaseInsensitiveMap::new();
    map.insert("Content-Type", "text/plain");
    let keys: Vec<String> = map.keys();
    assert_eq!(keys, vec!["content-type"]);
}

#[test]
fn is_empty_and_len() {
    let mut map = CaseInsensitiveMap::new();
    assert!(map.is_empty());
    assert_eq!(map.len(), 0);
    map.insert("A", "1");
    assert!(!map.is_empty());
    assert_eq!(map.len(), 1);
}

#[test]
fn get_nonexistent_key_returns_none() {
    let map = CaseInsensitiveMap::new();
    assert!(map.get("missing").is_none());
    assert!(map.get_first("missing").is_none());
}

#[test]
fn remove_leaves_other_keys() {
    let mut map = CaseInsensitiveMap::new();
    map.insert("A", "1");
    map.insert("B", "2");
    map.insert("C", "3");
    map.remove("b");
    assert_eq!(map.keys(), vec!["a", "c"]);
    assert_eq!(map.get_first("C"), Some(&"3".to_string()));
    map.remove("missing");
    assert_eq!(map.len(), 2);
}

#[test]
fn copy_keeps_entries() {
    let mut map = CaseInsensitiveMap::new();
    map.insert("Accept", "a");
    map.insert("ACCEPT", "b");
    map.insert("Host", "h");
    let c = map.copy();
    assert_eq!(c.keys(), map.keys());
    assert_eq!(c.get("accept"), map.get("accept"));
    assert_eq!(c.get_stored(1), &vec!["h".to_string()]);
}

#[test]
fn date_only_display_pads_correctly() {
    assert_eq!(DateOnly::new(2024, 1, 5).to_string(), "2024-01-05");
    assert_eq!(DateOnly::new(999, 12, 31).to_string(), "0999-12-31");
}

#[test]
fn date_only_from_str_valid() {
    let d: DateOnly = "2024-06-15".parse().unwrap();
    assert_eq!(d, DateOnly::new(2024, 6, 15));
}

#[test]
fn date_only_from_str_invalid_format() {
    assert!("2024/06/15".parse::<DateOnly>().is_err());
    assert!("not-a-date".parse::<DateOnly>().is_err());
}

#[test]
fn date_only_roundtrip_chrono() {
    let first = DateOnly::new(2024, 3, 14);
    let naive: chrono::NaiveDate = first.to_naive_date();
    let back: DateOnly = DateOnly::from_naive_date(naive);
    assert_eq!(first, back);
}

#[test]
fn date_only_display_roundtrip() {
    let d = DateOnly::new(2024, 11, 2);
    let s = d.to_string();
    let parsed: DateOnly = s.parse().unwrap();
    assert_eq!(d, parsed);
}

#[test]
fn date_only_negative_year_and_edge_values() {
    assert_eq!(DateOnly::new(-5, 1, 1).to_string(), "-005-01-01");
    assert_eq!(DateOnly::new(12345, 10, 20).to_string(), "12345-10-20");
    assert_eq!(DateOnly::parse("+2024-1-5").unwrap(), DateOnly::new(2024, 1, 5));
    assert!(DateOnly::parse("-5-01-01").is_err());
}

#[test]
fn date_only_parse_errors_carry_the_integer_message() {
    let e = DateOnly::parse("2024-13-01x").unwrap_err();
    assert_eq!(e.status_code, 0);
    assert_eq!(e.message, "invalid month in date '2024-13-01x': out of range 1 to 12");
    let e = DateOnly::parse("2024-12-01x").unwrap_err();
    assert_eq!(e.message, "invalid day in date '2024-12-01x': invalid digit found in string");
    let e = DateOnly::parse("2024--01").unwrap_err();
    assert_eq!(e.message, "invalid month in date '2024--01': cannot parse integer from empty string");
    let e = DateOnly::parse("9999999999-01-01").unwrap_err();
    assert_eq!(
        e.message,
        "invalid year in date '9999999999-01-01': number too large to fit in target type"
    );
    let e = DateOnly::parse("2024-06").unwrap_err();
    assert_eq!(e.message, "invalid date format, expected YYYY-MM-DD: 2024-06");
}

#[test]
fn date_only_parse_rejects_out_of_range_fields() {
    let e = "2024-13-45".parse::<DateOnly>().unwrap_err();
    assert_eq!(e.message, "invalid month in date '2024-13-45': out of range 1 to 12");
    let e = DateOnly::parse("2024-00-10").unwrap_err();
    assert_eq!(e.message, "invalid month in date '2024-00-10': out of range 1 to 12");
    let e = DateOnly::parse("2024-02-32").unwrap_err();
    assert_eq!(e.message, "invalid day in date '2024-02-32': out of range 1 to 31");
    assert_eq!(DateOnly::parse("2023-02-31").unwrap(), DateOnly::new(2023, 2, 31));
}

#[test]
fn time_only_parse_rejects_out_of_range_fields() {
    let e = "25:61:61".parse::<TimeOnly>().unwrap_err();
    assert_eq!(e.message, "invalid hour in time '25:61:61': out of range 0 to 23");
    let e = TimeOnly::parse("23:60:00").unwrap_err();
    assert_eq!(e.message, "invalid minute in time '23:60:00': out of range 0 to 59");
    let e = TimeOnly::parse("23:59:60").unwrap_err();
    assert_eq!(e.message, "invalid second in time '23:59:60': out of range 0 to 59");
    assert_eq!(TimeOnly::parse("23:59:59").unwrap(), TimeOnly::new(23, 59, 59));
}

#[test]
fn time_only_display_pads_correctly() {
    assert_eq!(TimeOnly::new(9, 5, 3).to_string(), "09:05:03");
    assert_eq!(TimeOnly::new(23, 59, 59).to_string(), "23:59:59");
}

#[test]
fn time_only_from_str_valid() {
    let t: TimeOnly = "14:30:00".parse().unwrap();
    assert_eq!(t, TimeOnly::new(14, 30, 0));
}

#[test]
fn time_only_from_str_invalid_format() {
    assert!("14-30-00".parse::<TimeOnly>().is_err());
    assert!("not-a-time".parse::<TimeOnly>().is_err());
}

#[test]
fn time_only_roundtrip_chrono() {
    let first = TimeOnly::new(8, 15, 30);
    let naive: chrono::NaiveTime = first.to_naive_time();
    let back: TimeOnly = TimeOnly::from_naive_time(naive);
    assert_eq!(first, back);
}

#[test]
fn time_only_display_roundtrip() {
    let t = TimeOnly::new(0, 0, 0);
    let s = t.to_string();
    let parsed: TimeOnly = s.parse().unwrap();
    assert_eq!(t, parsed);
}

#[test]
fn time_only_parse_errors() {
    assert_eq!(TimeOnly::parse("1:2:3").unwrap(), TimeOnly::new(1, 2, 3));
    assert_eq!(TimeOnly::new(123, 4, 5).to_string(), "123:04:05");
    let e = TimeOnly::parse("12:30").unwrap_err();
    assert_eq!(e.message, "invalid time format, expected HH:MM:SS: 12:30");
    let e = TimeOnly::parse("-1:00:00").unwrap_err();
    assert_eq!(e.message, "invalid hour in time '-1:00:00': invalid digit found in string");
    let e = TimeOnly::parse("1:x:00").unwrap_err();
    assert_eq!(e.message, "invalid minute in time '1:x:00': invalid digit found in string");
    let e = TimeOnly::parse("1:2:").unwrap_err();
    assert_eq!(e.message, "invalid second in time '1:2:': cannot parse integer from empty string");
}

#[test]
fn http_method_display() {
    assert_eq!(HttpMethod::Get.to_string(), "GET");
    assert_eq!(HttpMethod::Post.to_string(), "POST");
    assert_eq!(HttpMethod::Delete.to_string(), "DELETE");
    assert_eq!(HttpMethod::Patch.to_string(), "PATCH");
    assert_eq!(HttpMethod::Options.to_string(), "OPTIONS");
}

#[test]
fn http_method_names() {
    assert_eq!(HttpMethod::Put.as_str(), "PUT");
    assert_eq!(HttpMethod::Head.as_str(), "HEAD");
    assert_eq!(HttpMethod::Trace.as_str(), "TRACE");
}

#[test]
fn new_defaults() {
    let req = RequestInformation::new();
    assert_eq!(req.http_method, HttpMethod::Get);
    assert!(req.url_template.is_empty());
    assert!(req.content.is_none());
}

#[test]
fn set_uri_replaces_template() {
    let mut req = RequestInformation::new();
    req.set_uri("https://example.com/api/v1");
    let uri = req.get_uri().unwrap();
    assert_eq!(uri, "https://example.com/api/v1");
}

#[test]
fn get_uri_with_path_params() {
    let mut req = RequestInformation::new();
    req.url_template = "{+baseurl}/users/{userId}".to_string();
    req.path_parameters.insert("baseurl".to_string(), "https://graph.microsoft.com".to_string());
    req.path_parameters.insert("userId".to_string(), "123".to_string());
    let uri = req.get_uri().unwrap();
    assert_eq!(uri, "https://graph.microsoft.com/users/123");
}

#[test]
fn get_uri_with_query_params() {
    let mut req = RequestInformation::new();
    req.url_template = "https://api.example.com/items".to_string();
    req.query_parameters.insert("top".to_string(), "10".to_string());
    let uri = req.get_uri().unwrap();
    assert!(uri.contains("top=10"));
    assert!(uri.starts_with("https://api.example.com/items?"));
}

#[test]
fn get_uri_empty_template_errors() {
    let req = RequestInformation::new();
    assert!(req.get_uri().is_err());
}

#[test]
fn get_uri_joins_queries_in_order_and_after_existing_query() {
    let mut req = RequestInformation::new();
    req.url_template = "https://h/x?a=1".to_string();
    req.query_parameters.insert("b".to_string(), "2".to_string());
    req.query_parameters.insert("c".to_string(), "3".to_string());
    assert_eq!(req.get_uri().unwrap(), "https://h/x?a=1&b=2&c=3");
}

#[test]
fn get_uri_leaves_unknown_placeholders() {
    let mut req = RequestInformation::new();
    req.url_template = "https://h/{id}/{+rest}".to_string();
    req.path_parameters.insert("rest".to_string(), "a/b".to_string());
    assert_eq!(req.get_uri().unwrap(), "https://h/{id}/a/b");
}

#[test]
fn get_uri_empty_template_message() {
    let req = RequestInformation::new();
    let e = req.get_uri().unwrap_err();
    assert_eq!(e.status_code, 0);
    assert_eq!(e.message, "URL template is empty \u{2014} cannot build request URI");
}

#[test]
fn set_uri_drops_queries() {
    let mut req = RequestInformation::new();
    req.url_template = "https://old".to_string();
    req.query_parameters.insert("q".to_string(), "1".to_string());
    req.set_uri("https://new/path");
    assert_eq!(req.url_template, "{+baseurl}");
    assert_eq!(req.get_uri().unwrap(), "https://new/path");
}

#[test]
fn header_insert_then_remove_by_stored_key() {
    let mut map = CaseInsensitiveMap::new();
    map.insert("Accept", "a");
    map.insert("X-Trace", "t");
    assert_eq!(map.get("x-trace"), Some(&vec!["t".to_string()]));
    map.remove("x-trace");
    assert!(!map.contains_key("X-TRACE"));
    map.remove("x-trace");
    assert_eq!(map.keys(), vec!["accept"]);
    assert_eq!(map.get_first("accept"), Some(&"a".to_string()));
    map.insert("\u{C9}tag", "e");
    assert_eq!(map.keys(), vec!["accept", "\u{e9}tag"]);
}
