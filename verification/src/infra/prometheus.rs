//! PromQL queries against the Prometheus HTTP API: instant queries at
//! `/api/v1/query`, range queries (start and end given) at
//! `/api/v1/query_range`.

use vstd::prelude::*;
use crate::spain::boe::{or_empty, unwrap_or_empty};
use crate::text::join2;

verus! {

/// An HTTP request to make: address and query parameters.
pub struct PrometheusRequest {
    pub url: String,
    pub params: Vec<(&'static str, String)>,
}

pub open spec fn param_views(ps: Seq<(&'static str, String)>) -> Seq<(&'static str, Seq<char>)> {
    ps.map_values(|p: (&'static str, String)| (p.0, p.1@))
}

pub open spec fn optional_param(name: &'static str, v: Option<&str>) -> Seq<(&'static str, Seq<char>)> {
    match v {
        Some(x) => seq![(name, x@)],
        None => seq![],
    }
}

fn push_optional(ps: &mut Vec<(&'static str, String)>, name: &'static str, v: Option<&str>)
    ensures
        param_views(final(ps)@) == param_views(old(ps)@) + optional_param(name, v),
{
    match v {
        Some(x) => {
            let ghost before = ps@;
            ps.push((name, String::from_str(x)));
            assert(param_views(ps@) =~= param_views(before) + optional_param(name, v));
        },
        None => {
            assert(param_views(ps@) =~= param_views(ps@) + optional_param(name, v));
        },
    }
}

/// The request of a query: the range endpoint when both `start` and `end`
/// are given, otherwise the instant endpoint; parameters `query`, then
/// `time`, `start`, `end`, `step` for those that are given.
pub fn prometheus_request(base_url: &str, query: &str, time: Option<&str>, start: Option<&str>, end: Option<&str>, step: Option<&str>) -> (r: PrometheusRequest)
    ensures
        r.url@ == base_url@ + (if start is Some && end is Some {
            "/api/v1/query_range"@
        } else {
            "/api/v1/query"@
        }),
        param_views(r.params@) == seq![("query", query@)] + optional_param("time", time)
            + optional_param("start", start) + optional_param("end", end) + optional_param("step", step),
{
    let is_range = start.is_some() && end.is_some();
    let url = if is_range {
        join2(base_url, "/api/v1/query_range")
    } else {
        join2(base_url, "/api/v1/query")
    };
    let mut params: Vec<(&'static str, String)> = Vec::new();
    params.push(("query", String::from_str(query)));
    assert(param_views(params@) =~= seq![("query", query@)]);
    push_optional(&mut params, "time", time);
    push_optional(&mut params, "start", start);
    push_optional(&mut params, "end", end);
    push_optional(&mut params, "step", step);
    PrometheusRequest { url, params }
}

/// Cache key: `prometheus:{query}:{time}:{start}:{end}:{step}`.
pub fn prometheus_cache_key(query: &str, time: Option<&str>, start: Option<&str>, end: Option<&str>, step: Option<&str>) -> (r: String)
    ensures
        r@ == "prometheus:"@ + query@ + ":"@ + or_empty(time) + ":"@ + or_empty(start) + ":"@
            + or_empty(end) + ":"@ + or_empty(step),
{
    let mut r = join2("prometheus:", query);
    r.append(":");
    r.append(unwrap_or_empty(time));
    r.append(":");
    r.append(unwrap_or_empty(start));
    r.append(":");
    r.append(unwrap_or_empty(end));
    r.append(":");
    r.append(unwrap_or_empty(step));
    r
}

} // verus!
