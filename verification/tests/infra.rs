use mcp_servers::common::cache_flow::{after_fetch, after_lookup, Lookup};
use mcp_servers::common::config::{CacheConfig, ServerConfig, TransportMode};
use mcp_servers::infra::alerts::{alert_info, alert_infos, alerts_cache_key, alerts_url, status_filter};
use mcp_servers::infra::config::{
    AlertmanagerConfig, DockerConfig, GrafanaConfig, InfraConfig, PrometheusConfig,
};
use mcp_servers::infra::docker::{container_info, published_ports, ContainerSummaryData, PortData};
use mcp_servers::infra::health::traffic_totals;
use mcp_servers::infra::grafana::{dashboard_urls, grafana_cache_key, search_params, search_url, title_slug};
use mcp_servers::infra::prometheus::{prometheus_cache_key, prometheus_request};
use mcp_servers::json::{JsonNumber, JsonValue};

fn s(x: &str) -> JsonValue {
    JsonValue::Str(x.to_string())
}

fn num(x: &str) -> JsonValue {
    JsonValue::Number(JsonNumber { repr: x.to_string() })
}

fn obj(xs: Vec<(&str, JsonValue)>) -> JsonValue {
    JsonValue::Object(xs.into_iter().map(|(k, v)| (k.to_string(), v)).collect())
}

// ---------------------------------------------------------------------------
// Prometheus
// ---------------------------------------------------------------------------

#[test]
fn test_prometheus_query() {
    let req = prometheus_request("http://prom:9090", "up", None, None, None, None);
    assert_eq!(req.url, "http://prom:9090/api/v1/query");
    assert_eq!(req.params.len(), 1);
    assert_eq!(req.params[0].0, "query");
    assert_eq!(req.params[0].1, "up");
}

#[test]
fn prometheus_range_query_needs_start_and_end() {
    let range = prometheus_request("http://p", "rate(x[5m])", None, Some("1"), Some("2"), Some("15s"));
    assert_eq!(range.url, "http://p/api/v1/query_range");
    let names: Vec<&str> = range.params.iter().map(|p| p.0).collect();
    assert_eq!(names, vec!["query", "start", "end", "step"]);
    assert_eq!(range.params[3].1, "15s");
    let half = prometheus_request("http://p", "up", Some("5"), Some("1"), None, None);
    assert_eq!(half.url, "http://p/api/v1/query");
    let names: Vec<&str> = half.params.iter().map(|p| p.0).collect();
    assert_eq!(names, vec!["query", "time", "start"]);
    assert_eq!(prometheus_cache_key("up", None, Some("1"), None, None), "prometheus:up::1::");
}

// ---------------------------------------------------------------------------
// Grafana
// ---------------------------------------------------------------------------

#[test]
fn test_grafana_dashboard_search() {
    let hits = vec![obj(vec![("uid", s("abc123")), ("title", s("System Overview")), ("type", s("dash-db"))])];
    let params = search_params(Some("System"));
    assert_eq!(params.len(), 2);
    assert_eq!((params[0].0, params[0].1.as_str()), ("type", "dash-db"));
    assert_eq!((params[1].0, params[1].1.as_str()), ("query", "System"));
    assert_eq!(search_url("http://g"), "http://g/api/search");
    let urls = dashboard_urls(&hits, "http://g", None);
    assert_eq!(urls.len(), 1);
    assert!(urls[0].dashboard_title.contains("System Overview"));
    assert_eq!(urls[0].url, "http://g/d/abc123/system-overview");
    assert_eq!(urls[0].uid, "abc123");
}

#[test]
fn grafana_uid_filter_and_missing_fields() {
    let hits = vec![
        obj(vec![("uid", s("a")), ("title", s("One Two"))]),
        obj(vec![("uid", s("b")), ("title", s("Three"))]),
        obj(vec![("uid", s("c"))]),
    ];
    let only_b = dashboard_urls(&hits, "http://g", Some("b"));
    assert_eq!(only_b.len(), 1);
    assert_eq!(only_b[0].url, "http://g/d/b/three");
    let all = dashboard_urls(&hits, "http://g", None);
    assert_eq!(all.len(), 2);
    assert!(dashboard_urls(&hits, "http://g", Some("zzz")).is_empty());
    assert_eq!(title_slug("My Big Board"), "my-big-board");
    assert_eq!(grafana_cache_key(Some("n"), None), "grafana:n:");
    assert_eq!(search_params(None).len(), 1);
}

// ---------------------------------------------------------------------------
// Alertmanager
// ---------------------------------------------------------------------------

fn alert(name: &str, severity: &str) -> JsonValue {
    obj(vec![
        ("labels", obj(vec![("alertname", s(name)), ("severity", s(severity))])),
        ("status", obj(vec![("state", s("active"))])),
        ("startsAt", s("2026-03-20T10:00:00Z")),
        ("annotations", obj(vec![("summary", s("CPU high")), ("count", num("3"))])),
    ])
}

#[test]
fn test_alertmanager_alerts() {
    let raw = vec![obj(vec![
        ("labels", obj(vec![("alertname", s("HighCPU")), ("severity", s("critical"))])),
        ("status", s("firing")),
        ("startsAt", s("2026-03-20T10:00:00Z")),
        ("annotations", obj(vec![("summary", s("CPU high"))])),
    ])];
    assert_eq!(alerts_url("http://am:9093"), "http://am:9093/api/v2/alerts");
    let alerts = alert_infos(&raw, None);
    assert_eq!(alerts.len(), 1);
    assert!(alerts[0].name.contains("HighCPU"));
    assert_eq!(alerts[0].status, "firing");
    assert_eq!(alerts[0].severity, "critical");
    assert_eq!(alerts[0].started_at, "2026-03-20T10:00:00Z");
    assert_eq!(alerts[0].annotations, vec![("summary".to_string(), "CPU high".to_string())]);
}

#[test]
fn alerts_severity_filter_and_defaults() {
    let raw = vec![alert("A", "warning"), alert("B", "critical"), obj(vec![])];
    let critical = alert_infos(&raw, Some("critical"));
    assert_eq!(critical.len(), 1);
    assert_eq!(critical[0].name, "B");
    assert_eq!(alert_infos(&raw, None).len(), 3);
    let empty = alert_info(&obj(vec![]));
    assert_eq!(empty.name, "unknown");
    assert_eq!(empty.status, "unknown");
    assert_eq!(empty.severity, "unknown");
    assert_eq!(empty.started_at, "");
    assert!(empty.annotations.is_empty());
    // A non-string status is "unknown"; non-string annotation values are empty.
    let a = alert_info(&alert("C", "info"));
    assert_eq!(a.status, "unknown");
    assert_eq!(a.annotations[1], ("count".to_string(), String::new()));
    assert_eq!(alerts_cache_key(Some("active"), None), "alerts:active:");
    assert_eq!(status_filter("active"), "status=\"active\"");
}

// ---------------------------------------------------------------------------
// Docker
// ---------------------------------------------------------------------------

#[test]
fn docker_container_entries() {
    let c = ContainerSummaryData {
        names: Some(vec!["/web".to_string(), "/alias".to_string()]),
        image: Some("nginx:latest".to_string()),
        status: Some("Up 2 hours".to_string()),
        state: None,
        ports: Some(vec![
            PortData { private_port: 80, public_port: Some(8080) },
            PortData { private_port: 443, public_port: None },
        ]),
    };
    let info = container_info(&c);
    assert_eq!(info.name, "web");
    assert_eq!(info.image, "nginx:latest");
    assert_eq!(info.status, "Up 2 hours");
    assert_eq!(info.state, "");
    assert_eq!(info.ports, vec!["8080->80".to_string()]);
    let bare = ContainerSummaryData { names: None, image: None, status: None, state: None, ports: None };
    let info = container_info(&bare);
    assert_eq!(info.name, "unknown");
    assert!(info.ports.is_empty());
    assert!(published_ports(&vec![]).is_empty());
}

// ---------------------------------------------------------------------------
// Configuration
// ---------------------------------------------------------------------------

#[test]
fn infra_config_sections() {
    let mut cfg = InfraConfig {
        server: ServerConfig {
            transport: TransportMode::default(),
            listen_addr: None,
            cache: CacheConfig::default(),
            log_level: None,
        },
        prometheus: PrometheusConfig { url: "http://p".to_string(), auth_token: None },
        docker: DockerConfig::default(),
        grafana: None,
        alertmanager: None,
    };
    assert!(cfg.docker.socket.is_none());
    assert_eq!(
        cfg.grafana_section().err().unwrap(),
        "Grafana is not configured. Add a [grafana] section to your config file."
    );
    assert_eq!(
        cfg.alertmanager_section().err().unwrap(),
        "Alertmanager is not configured. Add an [alertmanager] section to your config file."
    );
    cfg.grafana = Some(GrafanaConfig { url: "http://g".to_string(), auth_token: None });
    cfg.alertmanager = Some(AlertmanagerConfig { url: "http://a".to_string() });
    assert_eq!(cfg.grafana_section().ok().unwrap().url, "http://g");
    assert_eq!(cfg.alertmanager_section().ok().unwrap().url, "http://a");
}

#[test]
fn network_traffic_totals() {
    assert_eq!(traffic_totals(&vec![]), (0, 0));
    assert_eq!(traffic_totals(&vec![(10, 1), (20, 2), (5, 0)]), (35, 3));
    assert_eq!(traffic_totals(&vec![(u64::MAX, 0)]), (u64::MAX, 0));
}

#[test]
fn test_prometheus_cache_hit() {
    // The same query has the same cache key, so a second call is answered
    // from what the first one stored.
    let first_key = prometheus_cache_key("up", None, None, None, None);
    let second_key = prometheus_cache_key("up", None, None, None, None);
    assert_eq!(first_key, second_key);
    let (store, first) = after_fetch::<String, String>(Ok("{\"status\":\"success\"}".to_string()));
    assert!(store, "first call failed: {first:?}");
    let stored = first.clone().unwrap();
    match after_lookup(Some(stored)) {
        Lookup::Answer(second) => assert_eq!(Ok(second), first),
        Lookup::Fetch => panic!("second call should be a cache hit"),
    }
    assert_ne!(first_key, prometheus_cache_key("up", Some("1"), None, None, None));
}
