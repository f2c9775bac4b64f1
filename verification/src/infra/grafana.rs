//! Grafana dashboard links from a dashboard search (`/api/search`).

use vstd::prelude::*;
use crate::json::{jget, jstr, str_opt, JsonValue};
use crate::spain::boe::{or_empty, unwrap_or_empty};
use crate::text::{chars_of, join2, join3, lowercase, push_char, str_eq, to_lower};

verus! {

/// A dashboard and its address.
pub struct GrafanaDashboardUrl {
    pub url: String,
    pub dashboard_title: String,
    pub uid: String,
}

#[verifier::ext_equal]
pub struct GrafanaDashboardUrlView {
    pub url: Seq<char>,
    pub dashboard_title: Seq<char>,
    pub uid: Seq<char>,
}

impl View for GrafanaDashboardUrl {
    type V = GrafanaDashboardUrlView;

    open spec fn view(&self) -> GrafanaDashboardUrlView {
        GrafanaDashboardUrlView { url: self.url@, dashboard_title: self.dashboard_title@, uid: self.uid@ }
    }
}

pub open spec fn dashboard_views(rs: Seq<GrafanaDashboardUrl>) -> Seq<GrafanaDashboardUrlView> {
    rs.map_values(|r: GrafanaDashboardUrl| r@)
}

/// The address segment of a title: lower-cased, spaces turned into dashes.
pub open spec fn slug(title: Seq<char>) -> Seq<char> {
    lowercase(title).map_values(|c: char| if c == ' ' { '-' } else { c })
}

/// A dashboard passes the uid filter when its uid equals it.
pub open spec fn dashboard_selected(d: JsonValue, uid: Option<Seq<char>>) -> bool {
    match uid {
        Some(u) => jstr(jget(d, "uid"@)) == Some(u),
        None => true,
    }
}

/// The link to a search hit that has a string uid and title:
/// `{base}/d/{uid}/{slug}`.
pub open spec fn dashboard_link(d: JsonValue, base: Seq<char>) -> Option<GrafanaDashboardUrlView> {
    match (jstr(jget(d, "uid"@)), jstr(jget(d, "title"@))) {
        (Some(u), Some(t)) => Some(
            GrafanaDashboardUrlView { url: base + "/d/"@ + u + "/"@ + slug(t), dashboard_title: t, uid: u },
        ),
        _ => None,
    }
}

pub open spec fn dashboard_links(hits: Seq<JsonValue>, base: Seq<char>, uid: Option<Seq<char>>) -> Seq<GrafanaDashboardUrlView>
    decreases hits.len(),
{
    if hits.len() == 0 {
        seq![]
    } else {
        let prev = dashboard_links(hits.drop_last(), base, uid);
        if dashboard_selected(hits.last(), uid) {
            match dashboard_link(hits.last(), base) {
                Some(l) => prev.push(l),
                None => prev,
            }
        } else {
            prev
        }
    }
}

/// The address segment of a title.
pub fn title_slug(title: &str) -> (r: String)
    ensures
        r@ == slug(title@),
{
    let lower = to_lower(title);
    let cs = chars_of(lower.as_str());
    let mut r = String::new();
    let mut i: usize = 0;
    while i < cs.len()
        invariant
            i <= cs@.len(),
            cs@ == lowercase(title@),
            r@ == cs@.take(i as int).map_values(|c: char| if c == ' ' { '-' } else { c }),
        decreases cs@.len() - i,
    {
        let c = cs[i];
        push_char(&mut r, if c == ' ' { '-' } else { c });
        i = i + 1;
        assert(r@ =~= cs@.take(i as int).map_values(|c: char| if c == ' ' { '-' } else { c }));
    }
    assert(cs@.take(cs@.len() as int) =~= cs@);
    r
}

/// The links to the search hits that pass the uid filter and have a string
/// uid and title, in order.
pub fn dashboard_urls(hits: &Vec<JsonValue>, base_url: &str, uid: Option<&str>) -> (r: Vec<GrafanaDashboardUrl>)
    ensures
        dashboard_views(r@) == dashboard_links(
            hits@,
            base_url@,
            match uid {
                Some(u) => Some(u@),
                None => None,
            },
        ),
{
    let ghost uv = match uid {
        Some(u) => Some(u@),
        None => None,
    };
    let mut r: Vec<GrafanaDashboardUrl> = Vec::new();
    let mut i: usize = 0;
    while i < hits.len()
        invariant
            i <= hits@.len(),
            uv == match uid {
                Some(u) => Some(u@),
                None => None::<Seq<char>>,
            },
            dashboard_views(r@) == dashboard_links(hits@.take(i as int), base_url@, uv),
        decreases hits@.len() - i,
    {
        let d = &hits[i];
        assert(hits@.take(i + 1).drop_last() =~= hits@.take(i as int));
        assert(hits@.take(i + 1).last() == hits@[i as int]);
        let selected = match uid {
            Some(u) => match str_opt(d.get("uid")) {
                Some(du) => str_eq(du, u),
                None => false,
            },
            None => true,
        };
        if selected {
            match (str_opt(d.get("uid")), str_opt(d.get("title"))) {
                (Some(u), Some(t)) => {
                    let mut url = join3(base_url, "/d/", u);
                    url.append("/");
                    url.append(title_slug(t).as_str());
                    let link = GrafanaDashboardUrl {
                        url,
                        dashboard_title: String::from_str(t),
                        uid: String::from_str(u),
                    };
                    let ghost before = r@;
                    r.push(link);
                    assert(link@ =~= dashboard_link(hits@[i as int], base_url@).unwrap());
                    assert(dashboard_views(r@) =~= dashboard_views(before).push(link@));
                },
                _ => {},
            }
        }
        i = i + 1;
    }
    assert(hits@.take(hits@.len() as int) =~= hits@);
    r
}

/// Cache key: `grafana:{name}:{uid}`.
pub fn grafana_cache_key(name: Option<&str>, uid: Option<&str>) -> (r: String)
    ensures
        r@ == "grafana:"@ + or_empty(name) + ":"@ + or_empty(uid),
{
    let mut r = join3("grafana:", unwrap_or_empty(name), ":");
    r.append(unwrap_or_empty(uid));
    r
}

/// `{base}/api/search`.
pub fn search_url(base_url: &str) -> (r: String)
    ensures
        r@ == base_url@ + "/api/search"@,
{
    join2(base_url, "/api/search")
}

/// Query parameters of a dashboard search: `type=dash-db`, then
/// `query={name}` when a name is given.
pub fn search_params(name: Option<&str>) -> (r: Vec<(&'static str, String)>)
    ensures
        r@.len() == if name is Some { 2int } else { 1int },
        r@[0].0 == "type" && r@[0].1@ == "dash-db"@,
        name matches Some(n) ==> r@[1].0 == "query" && r@[1].1@ == n@,
{
    let mut r: Vec<(&'static str, String)> = Vec::new();
    r.push(("type", String::from_str("dash-db")));
    match name {
        Some(n) => r.push(("query", String::from_str(n))),
        None => {},
    }
    r
}

/// Every search hit with a string uid and title that passes the uid filter
/// gives a link `{base}/d/{uid}/{slug of title}` with its own title and uid.
pub proof fn dashboard_links_complete(hits: Seq<JsonValue>, base: Seq<char>, uid: Option<Seq<char>>, j: int)
    requires
        0 <= j < hits.len(),
        jstr(jget(hits[j], "uid"@)) is Some,
        jstr(jget(hits[j], "title"@)) is Some,
        uid matches Some(u) ==> jstr(jget(hits[j], "uid"@)) == Some(u),
    ensures
        exists|k: int| 0 <= k < dashboard_links(hits, base, uid).len() && {
            let l = #[trigger] dashboard_links(hits, base, uid)[k];
            let u = jstr(jget(hits[j], "uid"@)).unwrap();
            let t = jstr(jget(hits[j], "title"@)).unwrap();
            &&& l.uid == u
            &&& l.dashboard_title == t
            &&& l.url == base + "/d/"@ + u + "/"@ + slug(t)
        },
    decreases hits.len(),
{
    let rest = hits.drop_last();
    let prev = dashboard_links(rest, base, uid);
    let u = jstr(jget(hits[j], "uid"@)).unwrap();
    let t = jstr(jget(hits[j], "title"@)).unwrap();
    if j == hits.len() - 1 {
        let l = dashboard_link(hits.last(), base).unwrap();
        assert(dashboard_links(hits, base, uid) == prev.push(l));
        assert(dashboard_links(hits, base, uid)[prev.len() as int] == l);
    } else {
        assert(rest[j] == hits[j]);
        dashboard_links_complete(rest, base, uid, j);
        let k = choose|k: int| 0 <= k < prev.len() && {
            let l = #[trigger] prev[k];
            &&& l.uid == u
            &&& l.dashboard_title == t
            &&& l.url == base + "/d/"@ + u + "/"@ + slug(t)
        };
        if dashboard_selected(hits.last(), uid) && dashboard_link(hits.last(), base) is Some {
            let l = dashboard_link(hits.last(), base).unwrap();
            assert(dashboard_links(hits, base, uid) == prev.push(l));
            assert(prev.push(l)[k] == prev[k]);
        } else {
            assert(dashboard_links(hits, base, uid) == prev);
        }
        assert(dashboard_links(hits, base, uid)[k] == prev[k]);
    }
}

} // verus!
