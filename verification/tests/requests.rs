use kiota::authentication::{
    apply_bearer_token, bearer_token_target, AllowedHostsValidator, AnonymousAuthenticationProvider,
};
use kiota::case_insensitive_map::CaseInsensitiveMap;
use kiota::http_adapter::{content_type_of, header_pairs, request_for_authentication, status_error};
use kiota::registry::{no_parse_factory_error, no_writer_factory_error, FactoryRegistry};
use kiota::request_information::{HttpMethod, RequestInformation};
use kiota::string_map::StringMap;

#[test]
fn allowed_hosts_validator_empty_allows_all() {
    let validator = AllowedHostsValidator::new(vec![]);
    let url = url::Url::parse("https://example.com").unwrap();
    assert!(validator.is_url_host_valid(&url));
}

#[test]
fn allowed_hosts_validator_matches_case_insensitive() {
    let validator = AllowedHostsValidator::new(vec!["Graph.Microsoft.Com".to_string()]);
    let url = url::Url::parse("https://graph.microsoft.com/v1.0/me").unwrap();
    assert!(validator.is_url_host_valid(&url));
}

#[test]
fn allowed_hosts_validator_rejects_unknown() {
    let validator = AllowedHostsValidator::new(vec!["graph.microsoft.com".to_string()]);
    let url = url::Url::parse("https://evil.example.com").unwrap();
    assert!(!validator.is_url_host_valid(&url));
}

#[test]
fn anonymous_provider_does_nothing() {
    let provider = AnonymousAuthenticationProvider;
    let mut request = RequestInformation::new();
    provider.authenticate_request(&mut request).unwrap();
    assert!(!request.headers.contains_key("Authorization"));
}

#[test]
fn host_check_without_host_and_with_mixed_case() {
    let validator = AllowedHostsValidator::new(vec!["A.example".to_string(), "b.example".to_string()]);
    assert!(validator.is_host_allowed(Some("B.EXAMPLE")));
    assert!(validator.is_host_allowed(Some("a.example")));
    assert!(!validator.is_host_allowed(Some("c.example")));
    assert!(!validator.is_host_allowed(None));
    let url = url::Url::parse("mailto:someone@example.com").unwrap();
    assert!(!validator.is_url_host_valid(&url));
    let open = AllowedHostsValidator::new(vec![]);
    assert!(open.is_host_allowed(None));
}

#[test]
fn bearer_target_follows_the_validator() {
    let mut request = RequestInformation::new();
    request.set_uri("https://graph.microsoft.com/v1.0/me");
    let allowed = AllowedHostsValidator::new(vec!["graph.microsoft.com".to_string()]);
    let url = bearer_token_target(&request, &allowed).unwrap().unwrap();
    assert_eq!(url.host_str(), Some("graph.microsoft.com"));
    assert_eq!(url.as_str(), "https://graph.microsoft.com/v1.0/me");
    let other = AllowedHostsValidator::new(vec!["example.com".to_string()]);
    assert!(bearer_token_target(&request, &other).unwrap().is_none());
}

#[test]
fn bearer_target_errors() {
    let request = RequestInformation::new();
    let validator = AllowedHostsValidator::new(vec![]);
    let e = bearer_token_target(&request, &validator).unwrap_err();
    assert_eq!(e.message, "URL template is empty \u{2014} cannot build request URI");
    assert!(e.headers.is_empty());
    assert!(e.response_body.is_none());
    let mut request = RequestInformation::new();
    request.set_uri("not a url");
    let e = bearer_token_target(&request, &validator).unwrap_err();
    assert_eq!(e.status_code, 0);
    assert!(e.message.starts_with("Invalid URL: "));
}

#[test]
fn apply_bearer_token_sets_header_only_for_non_empty_token() {
    let mut request = RequestInformation::new();
    apply_bearer_token(&mut request, "");
    assert!(request.headers.is_empty());
    apply_bearer_token(&mut request, "abc");
    assert_eq!(request.headers.get_first("AUTHORIZATION"), Some(&"Bearer abc".to_string()));
    apply_bearer_token(&mut request, "def");
    assert_eq!(
        request.headers.get("authorization"),
        Some(&vec!["Bearer abc".to_string(), "Bearer def".to_string()])
    );
}

#[test]
fn content_type_of_response_headers() {
    assert_eq!(content_type_of(Some("application/json; charset=utf-8")), "application/json");
    assert_eq!(content_type_of(Some("  text/plain  ")), "text/plain");
    assert_eq!(content_type_of(Some("")), "");
    assert_eq!(content_type_of(None), "application/json");
}

#[test]
fn status_error_for_client_and_server_errors() {
    assert!(status_error(200, "ok".to_string()).is_none());
    assert!(status_error(399, String::new()).is_none());
    let e = status_error(404, "Not Found".to_string()).unwrap();
    assert_eq!(e.status_code, 404);
    assert_eq!(e.message, "HTTP 404");
    assert!(e.headers.is_empty());
    assert_eq!(e.response_body.as_deref(), Some("Not Found"));
    let e = status_error(500, String::new()).unwrap();
    assert_eq!(e.message, "HTTP 500");
}

#[test]
fn header_pairs_lists_every_value() {
    let mut headers = CaseInsensitiveMap::new();
    headers.insert("Accept", "a");
    headers.insert("X-Id", "1");
    headers.insert("ACCEPT", "b");
    let pairs = header_pairs(&headers);
    assert_eq!(
        pairs,
        vec![
            ("accept".to_string(), "a".to_string()),
            ("accept".to_string(), "b".to_string()),
            ("x-id".to_string(), "1".to_string()),
        ]
    );
}

#[test]
fn request_for_authentication_copies_all_but_options() {
    let mut info = RequestInformation::new();
    info.http_method = HttpMethod::Post;
    info.url_template = "{+baseurl}/x{?q}".to_string();
    info.path_parameters.insert("baseurl".to_string(), "https://h".to_string());
    info.query_parameters.insert("q".to_string(), "1".to_string());
    info.headers.insert("H", "v");
    info.content = Some(vec![1, 2, 3]);
    let copy = request_for_authentication(&info);
    assert_eq!(copy.http_method, HttpMethod::Post);
    assert_eq!(copy.url_template, info.url_template);
    assert_eq!(copy.get_uri().unwrap(), info.get_uri().unwrap());
    assert_eq!(copy.headers.get("h"), Some(&vec!["v".to_string()]));
    assert_eq!(copy.content, Some(vec![1, 2, 3]));
    assert!(copy.request_options.is_empty());
}

#[test]
fn registry_replaces_and_finds() {
    let mut registry: FactoryRegistry<u32> = FactoryRegistry::new();
    assert!(registry.get("application/json").is_none());
    registry.register("application/json".to_string(), 1);
    registry.register("text/plain".to_string(), 2);
    registry.register("application/json".to_string(), 3);
    assert_eq!(registry.get("application/json"), Some(&3));
    assert_eq!(registry.get("text/plain"), Some(&2));
    assert!(registry.get("application/xml").is_none());
}

#[test]
fn parse_node_factory_registry_returns_error_for_unknown_content_type() {
    let registry: FactoryRegistry<u32> = FactoryRegistry::new();
    match registry.parse_factory_for("application/xml") {
        Err(err) => {
            assert!(err.message.contains("application/xml"));
            assert_eq!(err.message, "no parse node factory registered for content type 'application/xml'");
        }
        Ok(_) => panic!("expected error for unknown content type"),
    }
}

#[test]
fn serialization_writer_factory_registry_returns_error_for_unknown_content_type() {
    let registry: FactoryRegistry<u32> = FactoryRegistry::new();
    match registry.writer_factory_for("application/xml") {
        Err(err) => {
            assert!(err.message.contains("application/xml"));
            assert_eq!(
                err.message,
                "no serialization writer factory registered for content type 'application/xml'"
            );
        }
        Ok(_) => panic!("expected error for unknown content type"),
    }
}

#[test]
fn registry_lookup_finds_registered_factory() {
    let mut registry: FactoryRegistry<u32> = FactoryRegistry::new();
    registry.register("application/json".to_string(), 7);
    assert_eq!(registry.parse_factory_for("application/json").ok(), Some(&7));
    assert_eq!(registry.writer_factory_for("application/json").ok(), Some(&7));
    assert_eq!(no_parse_factory_error("x").status_code, 0);
    assert_eq!(no_writer_factory_error("x").status_code, 0);
}

#[test]
fn string_map_keeps_order_and_replaces_in_place() {
    let mut m: StringMap<String> = StringMap::new();
    assert!(m.is_empty());
    m.insert("b".to_string(), "1".to_string());
    m.insert("a".to_string(), "2".to_string());
    m.insert("b".to_string(), "3".to_string());
    assert_eq!(m.len(), 2);
    assert_eq!(m.keys(), vec!["b", "a"]);
    assert_eq!(m.get("b"), Some(&"3".to_string()));
    assert_eq!(m.find("a"), Some(1));
    assert_eq!(m.key_at(1), "a");
    assert_eq!(m.value_at(0), "3");
    assert!(m.contains_key("a"));
    m.remove("b");
    assert_eq!(m.keys(), vec!["a"]);
    assert!(!m.contains_key("b"));
    let c = m.copy();
    m.clear();
    assert!(m.is_empty());
    assert_eq!(c.get("a"), Some(&"2".to_string()));
}

#[test]
fn registry_dispatch_calls_the_registered_factory() {
    let mut registry: FactoryRegistry<u32> = FactoryRegistry::new();
    registry.register("text/plain".to_string(), 3);
    let r = registry.dispatch_parse("text/plain", |f: &u32| Ok(*f * 10));
    assert_eq!(r.unwrap(), 30);
    let r = registry.dispatch_writer("text/plain", |f: &u32| Ok(*f + 1));
    assert_eq!(r.unwrap(), 4);
    let e = registry.dispatch_parse("application/xml", |f: &u32| Ok(*f)).unwrap_err();
    assert_eq!(e.status_code, 0);
    assert!(e.message.contains("application/xml"));
    let e = registry.dispatch_writer("application/xml", |f: &u32| Ok(*f)).unwrap_err();
    assert!(e.message.contains("application/xml"));
    let e = registry
        .dispatch_parse("text/plain", |_: &u32| -> Result<u32, kiota::api_error::ApiError> {
            Err(kiota::api_error::ApiError::new(7, "from the factory"))
        })
        .unwrap_err();
    assert_eq!(e.status_code, 7);
}
