//! Alertmanager alerts (`/api/v2/alerts`): optional status filter in the
//! request, optional severity filter on the answer.

use vstd::prelude::*;
use crate::json::{get_opt, jget, jget_opt, jstr, str_member, str_member_of, str_opt, JsonValue};
use crate::spain::boe::{or_empty, unwrap_or_empty};
use crate::text::{join2, join3, str_eq};

verus! {

/// One alert.
pub struct AlertInfo {
    pub name: String,
    pub status: String,
    pub severity: String,
    pub started_at: String,
    pub annotations: Vec<(String, String)>,
}

#[verifier::ext_equal]
pub struct AlertInfoView {
    pub name: Seq<char>,
    pub status: Seq<char>,
    pub severity: Seq<char>,
    pub started_at: Seq<char>,
    pub annotations: Seq<(Seq<char>, Seq<char>)>,
}

pub open spec fn annotation_views(a: Seq<(String, String)>) -> Seq<(Seq<char>, Seq<char>)> {
    a.map_values(|p: (String, String)| (p.0@, p.1@))
}

impl View for AlertInfo {
    type V = AlertInfoView;

    open spec fn view(&self) -> AlertInfoView {
        AlertInfoView {
            name: self.name@,
            status: self.status@,
            severity: self.severity@,
            started_at: self.started_at@,
            annotations: annotation_views(self.annotations@),
        }
    }
}

pub open spec fn alert_views(rs: Seq<AlertInfo>) -> Seq<AlertInfoView> {
    rs.map_values(|r: AlertInfo| r@)
}

pub open spec fn text_or(v: Option<Seq<char>>, default: Seq<char>) -> Seq<char> {
    match v {
        Some(s) => s,
        None => default,
    }
}

/// The severity label of an alert.
pub open spec fn severity_label(a: JsonValue) -> Option<Seq<char>> {
    jstr(jget_opt(jget(a, "labels"@), "severity"@))
}

/// An alert passes the severity filter when its severity label equals it.
pub open spec fn alert_selected(a: JsonValue, severity: Option<Seq<char>>) -> bool {
    match severity {
        Some(s) => severity_label(a) == Some(s),
        None => true,
    }
}

/// Annotations: each member of the `annotations` object with its string
/// value (empty when not a string); none when there is no such object.
pub open spec fn annotations_of(a: JsonValue) -> Seq<(Seq<char>, Seq<char>)> {
    match jget(a, "annotations"@) {
        Some(JsonValue::Object(fields)) => fields@.map_values(
            |f: (String, JsonValue)| (f.0@, text_or(jstr(Some(f.1)), seq![])),
        ),
        _ => seq![],
    }
}

/// The alert made of an Alertmanager entry; missing labels are `unknown`,
/// a missing start time is empty.
pub open spec fn alert_of(a: JsonValue) -> AlertInfoView {
    AlertInfoView {
        name: text_or(jstr(jget_opt(jget(a, "labels"@), "alertname"@)), "unknown"@),
        status: text_or(jstr(jget(a, "status"@)), "unknown"@),
        severity: text_or(severity_label(a), "unknown"@),
        started_at: str_member(a, "startsAt"@),
        annotations: annotations_of(a),
    }
}

pub open spec fn alerts_of(raw: Seq<JsonValue>, severity: Option<Seq<char>>) -> Seq<AlertInfoView>
    decreases raw.len(),
{
    if raw.len() == 0 {
        seq![]
    } else if alert_selected(raw.last(), severity) {
        alerts_of(raw.drop_last(), severity).push(alert_of(raw.last()))
    } else {
        alerts_of(raw.drop_last(), severity)
    }
}

fn text_or_default(v: Option<&str>, default: &str) -> (r: String)
    ensures
        r@ == text_or(
            match v {
                Some(s) => Some(s@),
                None => None,
            },
            default@,
        ),
{
    match v {
        Some(s) => String::from_str(s),
        None => String::from_str(default),
    }
}

fn annotations(a: &JsonValue) -> (r: Vec<(String, String)>)
    ensures
        annotation_views(r@) == annotations_of(*a),
{
    let mut r: Vec<(String, String)> = Vec::new();
    match a.get("annotations") {
        Some(JsonValue::Object(fields)) => {
            let mut i: usize = 0;
            while i < fields.len()
                invariant
                    i <= fields@.len(),
                    annotation_views(r@) == fields@.take(i as int).map_values(
                        |f: (String, JsonValue)| (f.0@, text_or(jstr(Some(f.1)), seq![])),
                    ),
                decreases fields@.len() - i,
            {
                let value = match fields[i].1.as_str() {
                    Some(s) => String::from_str(s),
                    None => String::new(),
                };
                let key = String::from_str(fields[i].0.as_str());
                let ghost before = r@;
                r.push((key, value));
                assert(annotation_views(r@) =~= annotation_views(before).push((key@, value@)));
                i = i + 1;
                assert(fields@.take(i as int).map_values(
                    |f: (String, JsonValue)| (f.0@, text_or(jstr(Some(f.1)), seq![])),
                ) =~= fields@.take(i - 1).map_values(
                    |f: (String, JsonValue)| (f.0@, text_or(jstr(Some(f.1)), seq![])),
                ).push((fields@[i - 1].0@, text_or(jstr(Some(fields@[i - 1].1)), seq![]))));
            }
            assert(fields@.take(fields@.len() as int) =~= fields@);
        },
        _ => {
            assert(annotation_views(r@) =~= seq![]);
        },
    }
    r
}

/// The alert made of one entry.
pub fn alert_info(a: &JsonValue) -> (r: AlertInfo)
    ensures
        r@ == alert_of(*a),
{
    let labels = a.get("labels");
    let r = AlertInfo {
        name: text_or_default(str_opt(get_opt(labels, "alertname")), "unknown"),
        status: text_or_default(str_opt(a.get("status")), "unknown"),
        severity: text_or_default(str_opt(get_opt(labels, "severity")), "unknown"),
        started_at: str_member_of(a, "startsAt"),
        annotations: annotations(a),
    };
    assert(r@ =~= alert_of(*a));
    r
}

/// The alerts of an Alertmanager answer whose severity label equals
/// `severity` (every alert when none is given), in order.
pub fn alert_infos(raw: &Vec<JsonValue>, severity: Option<&str>) -> (r: Vec<AlertInfo>)
    ensures
        alert_views(r@) == alerts_of(
            raw@,
            match severity {
                Some(s) => Some(s@),
                None => None,
            },
        ),
{
    let ghost sev = match severity {
        Some(s) => Some(s@),
        None => None,
    };
    let mut r: Vec<AlertInfo> = Vec::new();
    let mut i: usize = 0;
    while i < raw.len()
        invariant
            i <= raw@.len(),
            sev == match severity {
                Some(s) => Some(s@),
                None => None::<Seq<char>>,
            },
            alert_views(r@) == alerts_of(raw@.take(i as int), sev),
        decreases raw@.len() - i,
    {
        let a = &raw[i];
        assert(raw@.take(i + 1).drop_last() =~= raw@.take(i as int));
        assert(raw@.take(i + 1).last() == raw@[i as int]);
        let selected = match severity {
            Some(s) => match str_opt(get_opt(a.get("labels"), "severity")) {
                Some(l) => str_eq(l, s),
                None => false,
            },
            None => true,
        };
        if selected {
            let info = alert_info(a);
            let ghost before = r@;
            r.push(info);
            assert(alert_views(r@) =~= alert_views(before).push(info@));
        }
        i = i + 1;
    }
    assert(raw@.take(raw@.len() as int) =~= raw@);
    r
}

/// Cache key: `alerts:{status}:{severity}`.
pub fn alerts_cache_key(status: Option<&str>, severity: Option<&str>) -> (r: String)
    ensures
        r@ == "alerts:"@ + or_empty(status) + ":"@ + or_empty(severity),
{
    let mut r = join3("alerts:", unwrap_or_empty(status), ":");
    r.append(unwrap_or_empty(severity));
    r
}

/// `{base}/api/v2/alerts`.
pub fn alerts_url(base_url: &str) -> (r: String)
    ensures
        r@ == base_url@ + "/api/v2/alerts"@,
{
    join2(base_url, "/api/v2/alerts")
}

/// The value of the `filter` query parameter for a status: `status="{s}"`.
pub fn status_filter(status: &str) -> (r: String)
    ensures
        r@ == "status=\""@ + status@ + "\""@,
{
    join3("status=\"", status, "\"")
}

/// `r` is the alert of the Alertmanager entry `a`: its `alertname` and
/// `severity` labels and its status (`unknown` when missing), and its start
/// time (empty when missing).
pub open spec fn alert_of_entry(r: AlertInfoView, a: JsonValue) -> bool {
    let labels = jget(a, "labels"@);
    &&& r.name == text_or(jstr(jget_opt(labels, "alertname"@)), "unknown"@)
    &&& r.severity == text_or(jstr(jget_opt(labels, "severity"@)), "unknown"@)
    &&& r.status == text_or(jstr(jget(a, "status"@)), "unknown"@)
    &&& r.started_at == text_or(jstr(jget(a, "startsAt"@)), seq![])
}

/// Every alert whose severity label equals the filter (every alert when there
/// is no filter) is listed with its own name, severity, status and start time;
/// and every listed alert has the filter's severity.
pub proof fn alerts_listed(raw: Seq<JsonValue>, severity: Option<Seq<char>>, j: int)
    requires
        0 <= j < raw.len(),
        severity matches Some(s) ==> jstr(jget_opt(jget(raw[j], "labels"@), "severity"@)) == Some(s),
    ensures
        exists|k: int| 0 <= k < alerts_of(raw, severity).len() && #[trigger] alert_of_entry(alerts_of(raw, severity)[k], raw[j]),
        severity matches Some(s) ==> forall|k: int| 0 <= k < alerts_of(raw, severity).len() ==> #[trigger] alerts_of(raw, severity)[k].severity == s,
    decreases raw.len(),
{
    let rest = raw.drop_last();
    let prev = alerts_of(rest, severity);
    if j == raw.len() - 1 {
        let row = alert_of(raw.last());
        assert(alerts_of(raw, severity) == prev.push(row));
        assert(alerts_of(raw, severity)[prev.len() as int] == row);
        assert(alert_of_entry(alerts_of(raw, severity)[prev.len() as int], raw[j]));
        if rest.len() > 0 {
            alerts_severity(rest, severity);
        }
    } else {
        assert(rest[j] == raw[j]);
        alerts_listed(rest, severity, j);
        let k = choose|k: int| 0 <= k < prev.len() && #[trigger] alert_of_entry(prev[k], raw[j]);
        if alert_selected(raw.last(), severity) {
            assert(alerts_of(raw, severity) == prev.push(alert_of(raw.last())));
            assert(prev.push(alert_of(raw.last()))[k] == prev[k]);
        } else {
            assert(alerts_of(raw, severity) == prev);
        }
        assert(alert_of_entry(alerts_of(raw, severity)[k], raw[j]));
    }
    alerts_severity(raw, severity);
}

proof fn alerts_severity(raw: Seq<JsonValue>, severity: Option<Seq<char>>)
    ensures
        severity matches Some(s) ==> forall|k: int| 0 <= k < alerts_of(raw, severity).len() ==> #[trigger] alerts_of(raw, severity)[k].severity == s,
    decreases raw.len(),
{
    if raw.len() > 0 {
        let prev = alerts_of(raw.drop_last(), severity);
        alerts_severity(raw.drop_last(), severity);
        if alert_selected(raw.last(), severity) {
            let all = prev.push(alert_of(raw.last()));
            assert(alerts_of(raw, severity) == all);
            if let Some(s) = severity {
                assert forall|k: int| 0 <= k < all.len() implies #[trigger] all[k].severity == s by {
                    if k < prev.len() {
                        assert(all[k] == prev[k]);
                    }
                }
            }
        }
    }
}

} // verus!
