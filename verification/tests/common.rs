use mcp_servers::common::cache_flow::{after_fetch, after_lookup, Lookup};
use mcp_servers::common::config::{default_max_entries, default_ttl_seconds, CacheConfig, TransportMode};
use mcp_servers::common::error::McpServerError;
use mcp_servers::json::{as_array_or_single, number_as_u64, u64_member_or, JsonNumber, JsonValue};
use mcp_servers::sorting::sort_by_key;
use mcp_servers::text::{decimal_string, decimal_string2, parse_u16, parse_u64, remove_char, str_contains};

#[test]
fn default_cache_config() {
    let config = CacheConfig::default();
    assert_eq!(config.max_entries, 1000);
    assert_eq!(config.ttl_seconds, 60);
    assert!(config.tool_ttls.is_none());
}

#[test]
fn default_transport_is_stdio() {
    assert!(TransportMode::default() == TransportMode::Stdio);
    assert_eq!(default_max_entries(), 1000);
    assert_eq!(default_ttl_seconds(), 60);
}

#[test]
fn error_messages() {
    let e = McpServerError::RateLimited { api: "openf1".to_string(), retry_after_secs: 30 };
    assert_eq!(e.message(), "rate limit exceeded for openf1, retry after 30s");
    let e = McpServerError::ExternalApi { url: "http://x".to_string(), reason: "HTTP 500".to_string() };
    assert_eq!(e.message(), "external API request failed: http://x — HTTP 500");
    let e = McpServerError::UnexpectedResponse { url: "u".to_string(), reason: "r".to_string() };
    assert_eq!(e.message(), "unexpected response from u: r");
    assert_eq!(McpServerError::InvalidInput("bad".to_string()).message(), "invalid tool input: bad");
    assert_eq!(McpServerError::Config("c".to_string()).message(), "configuration error: c");
    assert_eq!(McpServerError::Docker("d".to_string()).message(), "docker API error: d");
    assert_eq!(McpServerError::XmlParse("x".to_string()).message(), "XML parse error: x");
    let e = McpServerError::HtmlParse { selector: "div".to_string(), reason: "none".to_string() };
    assert_eq!(e.message(), "HTML parse error: selector `div` — none");
    assert_eq!(McpServerError::NotConfigured("g".to_string()).message(), "resource not configured: g");
    let io = std::io::Error::new(std::io::ErrorKind::NotFound, "gone");
    assert_eq!(McpServerError::Io(io).message(), "gone");
}

#[test]
fn cache_hit_returns_stored_value() {
    let value = "{\"status\": \"ok\"}".to_string();
    match after_lookup(Some(value.clone())) {
        Lookup::Answer(v) => assert_eq!(v, value),
        Lookup::Fetch => panic!("should not fetch on cache hit"),
    }
}

#[test]
fn cache_miss_calls_fetch() {
    assert!(matches!(after_lookup::<String>(None), Lookup::Fetch));
    let expected = "{\"fetched\": true}".to_string();
    let (store, answer) = after_fetch::<String, String>(Ok(expected.clone()));
    assert!(store);
    assert_eq!(answer, Ok(expected));
}

#[test]
fn cache_does_not_store_failed_fetches() {
    let (store, answer) = after_fetch::<String, String>(Err("boom".to_string()));
    assert!(!store);
    assert_eq!(answer, Err("boom".to_string()));
}

#[test]
fn decimal_text_and_parse() {
    assert_eq!(decimal_string(0), "0");
    assert_eq!(decimal_string(2026), "2026");
    assert_eq!(decimal_string(u64::MAX), "18446744073709551615");
    assert_eq!(decimal_string2(7), "07");
    assert_eq!(decimal_string2(12), "12");
    assert_eq!(parse_u64("18446744073709551615"), Some(u64::MAX));
    assert_eq!(parse_u64("18446744073709551616"), None);
    assert_eq!(parse_u64("12a"), None);
    assert_eq!(parse_u64(""), None);
    assert_eq!(parse_u64("007"), Some(7));
    assert_eq!(parse_u16("65535"), Some(65535));
    assert_eq!(parse_u16("65536"), None);
    for n in [0u64, 1, 9, 10, 99, 100, 65535, 1 << 40, u64::MAX] {
        assert_eq!(parse_u64(&decimal_string(n)), Some(n));
    }
}

#[test]
fn text_helpers() {
    assert_eq!(remove_char("2026-03-23", '-'), "20260323");
    assert!(str_contains("Resolución sobre impuestos", "impuestos"));
    assert!(!str_contains("abc", "abd"));
    assert!(str_contains("abc", ""));
}

#[test]
fn json_numbers_and_members() {
    assert_eq!(number_as_u64("42"), Some(42));
    assert_eq!(number_as_u64("4.2"), None);
    assert_eq!(number_as_u64("-1"), None);
    let v = JsonValue::Object(vec![
        ("n".to_string(), JsonValue::Number(JsonNumber { repr: "7".to_string() })),
        ("s".to_string(), JsonValue::Str("x".to_string())),
    ]);
    assert_eq!(u64_member_or(&v, "n", 0), 7);
    assert_eq!(u64_member_or(&v, "s", 5), 5);
    assert_eq!(u64_member_or(&v, "missing", 3), 3);
    assert_eq!(as_array_or_single(Some(&v)).len(), 1);
    assert_eq!(as_array_or_single(None).len(), 0);
    let a = JsonValue::Array(vec![JsonValue::Null, JsonValue::Bool(true)]);
    assert_eq!(as_array_or_single(Some(&a)).len(), 2);
}

#[test]
fn sort_by_key_orders_and_keeps_pairs() {
    let v = vec![(3, 30), (1, 10), (2, 20), (1, 11), (0, 0)];
    let r = sort_by_key(&v);
    let keys: Vec<u64> = r.iter().map(|p| p.0).collect();
    assert_eq!(keys, vec![0, 1, 1, 2, 3]);
    let mut a = r.clone();
    a.sort();
    let mut b = v.clone();
    b.sort();
    assert_eq!(a, b);
    assert!(sort_by_key(&vec![]).is_empty());
}

#[test]
fn outside_errors_convert() {
    let e: McpServerError = std::io::Error::new(std::io::ErrorKind::Other, "disk").into();
    assert!(matches!(e, McpServerError::Io(_)));
    assert_eq!(e.message(), "disk");
    let parse_error = serde_json::from_str::<serde_json::Value>("{").unwrap_err();
    let text = parse_error.to_string();
    let j: McpServerError = parse_error.into();
    assert!(matches!(j, McpServerError::Json(_)));
    assert_eq!(j.message(), text);
}

#[test]
fn http_errors_show_their_own_message() {
    let err = reqwest::Client::new().get("not a url").build().unwrap_err();
    let text = err.to_string();
    let e: McpServerError = err.into();
    assert!(matches!(e, McpServerError::Http(_)));
    assert_eq!(e.message(), text);
}
