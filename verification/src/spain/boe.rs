//! Search of the BOE (Boletín Oficial del Estado) daily summary.
//!
//! The summary of a day is a tree `data.sumario.diario[].seccion[]
//! .departamento[].epigrafe[].item[]`, where a department, a heading or an
//! item list may also come as a single object. Items whose title contains
//! every keyword (case-insensitively) become documents; the section and
//! department filters are case-insensitive substring matches. A search runs
//! over a span of days, from `date_from` to `date_to` (by default the last
//! 30 days), and gathers the documents day by day.

use vstd::prelude::*;
use crate::json::{
    array_opt, array_or_single, as_array_or_single, deref_all, get_opt, jarray, jget, jget_opt,
    jstr, str_member, str_member_of, str_opt, JsonValue,
};
use crate::spain::cnae::{opt_lower, opt_view};
use crate::spain::dates::{compact_day, compact_day_number, day_stamp, day_text};
use crate::text::{
    all_white, all_words_in, all_words_occur, contains_chars, contains_seq, is_blank, is_prefix,
    join2, join3, lower_chars, lowercase, prefix_chars, remove_char, starts_with, take_chars,
    without_char,
};

verus! {

/// One matching BOE publication.
pub struct BoeDocument {
    pub title: String,
    pub publication_date: String,
    pub section: String,
    pub department: String,
    pub pdf_url: String,
    pub summary: String,
    pub identifier: String,
}

/// A document's fields as character sequences.
#[verifier::ext_equal]
pub struct BoeDocumentView {
    pub title: Seq<char>,
    pub publication_date: Seq<char>,
    pub section: Seq<char>,
    pub department: Seq<char>,
    pub pdf_url: Seq<char>,
    pub summary: Seq<char>,
    pub identifier: Seq<char>,
}

impl View for BoeDocument {
    type V = BoeDocumentView;

    open spec fn view(&self) -> BoeDocumentView {
        BoeDocumentView {
            title: self.title@,
            publication_date: self.publication_date@,
            section: self.section@,
            department: self.department@,
            pdf_url: self.pdf_url@,
            summary: self.summary@,
            identifier: self.identifier@,
        }
    }
}

pub open spec fn doc_views(ds: Seq<BoeDocument>) -> Seq<BoeDocumentView> {
    ds.map_values(|d: BoeDocument| d@)
}

// ---------------------------------------------------------------------------
// Specification of the search
// ---------------------------------------------------------------------------

/// The absolute PDF address: kept when it starts with `http`, otherwise
/// appended to `https://boe.es`; empty when the item has none.
pub open spec fn pdf_address(u: Option<Seq<char>>) -> Seq<char> {
    match u {
        Some(u) => if is_prefix("http"@, u) {
            u
        } else {
            "https://boe.es"@ + u
        },
        None => seq![],
    }
}

/// The document made of an item, found under section `sec` and department
/// `dep`, published on `date`.
pub open spec fn item_document(item: JsonValue, sec: Seq<char>, dep: Seq<char>, date: Seq<char>) -> BoeDocumentView {
    let title = str_member(item, "titulo"@);
    BoeDocumentView {
        title: title,
        publication_date: date,
        section: sec,
        department: dep,
        pdf_url: pdf_address(jstr(jget(item, "urlPdf"@))),
        summary: take_chars(title, 200),
        identifier: str_member(item, "@id"@),
    }
}

/// Every word of the lower-cased keywords `kw` occurs in the lower-cased title.
pub open spec fn item_matches(item: JsonValue, kw: Seq<char>) -> bool {
    all_words_occur(kw, lowercase(str_member(item, "titulo"@)))
}

pub open spec fn items_documents(items: Seq<JsonValue>, kw: Seq<char>, sec: Seq<char>, dep: Seq<char>, date: Seq<char>) -> Seq<BoeDocumentView>
    decreases items.len(),
{
    if items.len() == 0 {
        seq![]
    } else if item_matches(items.last(), kw) {
        items_documents(items.drop_last(), kw, sec, dep, date).push(item_document(items.last(), sec, dep, date))
    } else {
        items_documents(items.drop_last(), kw, sec, dep, date)
    }
}

pub open spec fn headings_documents(eps: Seq<JsonValue>, kw: Seq<char>, sec: Seq<char>, dep: Seq<char>, date: Seq<char>) -> Seq<BoeDocumentView>
    decreases eps.len(),
{
    if eps.len() == 0 {
        seq![]
    } else {
        headings_documents(eps.drop_last(), kw, sec, dep, date) + items_documents(
            array_or_single(jget(eps.last(), "item"@)),
            kw,
            sec,
            dep,
            date,
        )
    }
}

/// A name passes an optional filter when its lower-cased form contains the
/// lower-cased filter.
pub open spec fn passes(name: Seq<char>, filter: Option<Seq<char>>) -> bool {
    match filter {
        Some(f) => contains_seq(lowercase(name), f),
        None => true,
    }
}

pub open spec fn department_documents(dep: JsonValue, dep_filter: Option<Seq<char>>, kw: Seq<char>, sec: Seq<char>, date: Seq<char>) -> Seq<BoeDocumentView> {
    let name = str_member(dep, "@nombre"@);
    if passes(name, dep_filter) {
        headings_documents(array_or_single(jget(dep, "epigrafe"@)), kw, sec, name, date)
    } else {
        seq![]
    }
}

pub open spec fn departments_documents(deps: Seq<JsonValue>, dep_filter: Option<Seq<char>>, kw: Seq<char>, sec: Seq<char>, date: Seq<char>) -> Seq<BoeDocumentView>
    decreases deps.len(),
{
    if deps.len() == 0 {
        seq![]
    } else {
        departments_documents(deps.drop_last(), dep_filter, kw, sec, date) + department_documents(
            deps.last(),
            dep_filter,
            kw,
            sec,
            date,
        )
    }
}

pub open spec fn section_documents(sec: JsonValue, sec_filter: Option<Seq<char>>, dep_filter: Option<Seq<char>>, kw: Seq<char>, date: Seq<char>) -> Seq<BoeDocumentView> {
    let name = str_member(sec, "@nombre"@);
    if passes(name, sec_filter) {
        departments_documents(array_or_single(jget(sec, "departamento"@)), dep_filter, kw, name, date)
    } else {
        seq![]
    }
}

pub open spec fn sections_documents(secs: Seq<JsonValue>, sec_filter: Option<Seq<char>>, dep_filter: Option<Seq<char>>, kw: Seq<char>, date: Seq<char>) -> Seq<BoeDocumentView>
    decreases secs.len(),
{
    if secs.len() == 0 {
        seq![]
    } else {
        sections_documents(secs.drop_last(), sec_filter, dep_filter, kw, date) + section_documents(
            secs.last(),
            sec_filter,
            dep_filter,
            kw,
            date,
        )
    }
}

pub open spec fn issues_documents(issues: Seq<JsonValue>, sec_filter: Option<Seq<char>>, dep_filter: Option<Seq<char>>, kw: Seq<char>, date: Seq<char>) -> Seq<BoeDocumentView>
    decreases issues.len(),
{
    if issues.len() == 0 {
        seq![]
    } else {
        issues_documents(issues.drop_last(), sec_filter, dep_filter, kw, date) + match jarray(
            jget(issues.last(), "seccion"@),
        ) {
            Some(secs) => sections_documents(secs, sec_filter, dep_filter, kw, date),
            None => seq![],
        }
    }
}

/// All documents of a daily summary that match the lower-cased keywords `kw`
/// and the lower-cased filters, in document order.
pub open spec fn summary_documents(summary: JsonValue, sec_filter: Option<Seq<char>>, dep_filter: Option<Seq<char>>, kw: Seq<char>, date: Seq<char>) -> Seq<BoeDocumentView> {
    match jarray(jget_opt(jget_opt(jget(summary, "data"@), "sumario"@), "diario"@)) {
        Some(issues) => issues_documents(issues, sec_filter, dep_filter, kw, date),
        None => seq![],
    }
}

// ---------------------------------------------------------------------------
// Search
// ---------------------------------------------------------------------------

proof fn lemma_take_last<A>(s: Seq<A>, i: int)
    requires
        0 <= i < s.len(),
    ensures
        s.take(i + 1).drop_last() == s.take(i),
        s.take(i + 1).last() == s[i],
{
    assert(s.take(i + 1).drop_last() =~= s.take(i));
}

proof fn lemma_doc_views_push(ds: Seq<BoeDocument>, d: BoeDocument)
    ensures
        doc_views(ds.push(d)) == doc_views(ds).push(d@),
{
    assert(doc_views(ds.push(d)) =~= doc_views(ds).push(d@));
}

/// The document made of one item.
fn make_document(item: &JsonValue, sec: &str, dep: &str, date: &str) -> (d: BoeDocument)
    ensures
        d@ == item_document(*item, sec@, dep@, date@),
{
    let title = str_member_of(item, "titulo");
    let identifier = str_member_of(item, "@id");
    let pdf_url = match str_opt(item.get("urlPdf")) {
        Some(u) => {
            if starts_with(u, "http") {
                String::from_str(u)
            } else {
                join2("https://boe.es", u)
            }
        },
        None => String::new(),
    };
    let summary = prefix_chars(title.as_str(), 200);
    let d = BoeDocument {
        title,
        publication_date: String::from_str(date),
        section: String::from_str(sec),
        department: String::from_str(dep),
        pdf_url,
        summary,
        identifier,
    };
    let ghost want = item_document(*item, sec@, dep@, date@);
    assert(d@ =~= want);
    d
}

fn collect_items(items: &Vec<&JsonValue>, kw: &[char], sec: &str, dep: &str, date: &str, out: &mut Vec<BoeDocument>)
    ensures
        doc_views(final(out)@) == doc_views(old(out)@) + items_documents(deref_all(items@), kw@, sec@, dep@, date@),
{
    let ghost start = doc_views(out@);
    let ghost xs = deref_all(items@);
    let mut i: usize = 0;
    assert(items_documents(xs.take(0), kw@, sec@, dep@, date@) =~= seq![]);
    while i < items.len()
        invariant
            i <= items@.len(),
            xs == deref_all(items@),
            doc_views(out@) == start + items_documents(xs.take(i as int), kw@, sec@, dep@, date@),
        decreases items@.len() - i,
    {
        let item: &JsonValue = items[i];
        proof {
            lemma_take_last(xs, i as int);
        }
        assert(*item == xs[i as int]);
        let title = str_member_of(item, "titulo");
        let title_lower = lower_chars(title.as_str());
        let ghost a = items_documents(xs.take(i as int), kw@, sec@, dep@, date@);
        if all_words_in(kw, &title_lower) {
            let d = make_document(item, sec, dep, date);
            proof {
                lemma_doc_views_push(out@, d);
                assert((start + a).push(d@) =~= start + a.push(d@));
            }
            out.push(d);
        }
        i = i + 1;
    }
    assert(xs.take(items@.len() as int) =~= xs);
}

fn collect_headings(eps: &Vec<&JsonValue>, kw: &[char], sec: &str, dep: &str, date: &str, out: &mut Vec<BoeDocument>)
    ensures
        doc_views(final(out)@) == doc_views(old(out)@) + headings_documents(deref_all(eps@), kw@, sec@, dep@, date@),
{
    let ghost start = doc_views(out@);
    let ghost xs = deref_all(eps@);
    let mut i: usize = 0;
    assert(headings_documents(xs.take(0), kw@, sec@, dep@, date@) =~= seq![]);
    while i < eps.len()
        invariant
            i <= eps@.len(),
            xs == deref_all(eps@),
            doc_views(out@) == start + headings_documents(xs.take(i as int), kw@, sec@, dep@, date@),
        decreases eps@.len() - i,
    {
        let ep: &JsonValue = eps[i];
        proof {
            lemma_take_last(xs, i as int);
        }
        assert(*ep == xs[i as int]);
        let items = as_array_or_single(ep.get("item"));
        let ghost before = doc_views(out@);
        collect_items(&items, kw, sec, dep, date, out);
        proof {
            let a = headings_documents(xs.take(i as int), kw@, sec@, dep@, date@);
            let b = items_documents(deref_all(items@), kw@, sec@, dep@, date@);
            assert(start + a + b =~= start + (a + b));
        }
        i = i + 1;
    }
    assert(xs.take(eps@.len() as int) =~= xs);
}

/// The lower-cased filter, as characters.
fn lower_filter(f: Option<&str>) -> (r: Option<Vec<char>>)
    ensures
        match r {
            Some(v) => opt_lower(f) == Some(v@),
            None => opt_lower(f) is None,
        },
{
    match f {
        Some(s) => Some(lower_chars(s)),
        None => None,
    }
}

/// Whether `name` passes the lower-cased filter.
fn name_passes(name: &str, filter: &Option<Vec<char>>) -> (b: bool)
    ensures
        b == passes(
            name@,
            match filter {
                Some(v) => Some(v@),
                None => None,
            },
        ),
{
    match filter {
        Some(f) => {
            let n = lower_chars(name);
            contains_chars(&n, f)
        },
        None => true,
    }
}

pub open spec fn filter_view(f: Option<Vec<char>>) -> Option<Seq<char>> {
    match f {
        Some(v) => Some(v@),
        None => None,
    }
}

fn collect_departments(deps: &Vec<&JsonValue>, dep_filter: &Option<Vec<char>>, kw: &[char], sec: &str, date: &str, out: &mut Vec<BoeDocument>)
    ensures
        doc_views(final(out)@) == doc_views(old(out)@) + departments_documents(deref_all(deps@), filter_view(*dep_filter), kw@, sec@, date@),
{
    let ghost start = doc_views(out@);
    let ghost xs = deref_all(deps@);
    let ghost fv = filter_view(*dep_filter);
    let mut i: usize = 0;
    assert(departments_documents(xs.take(0), fv, kw@, sec@, date@) =~= seq![]);
    while i < deps.len()
        invariant
            i <= deps@.len(),
            xs == deref_all(deps@),
            fv == filter_view(*dep_filter),
            doc_views(out@) == start + departments_documents(xs.take(i as int), fv, kw@, sec@, date@),
        decreases deps@.len() - i,
    {
        let dep: &JsonValue = deps[i];
        proof {
            lemma_take_last(xs, i as int);
        }
        assert(*dep == xs[i as int]);
        let name = str_member_of(dep, "@nombre");
        let ghost a = departments_documents(xs.take(i as int), fv, kw@, sec@, date@);
        if name_passes(name.as_str(), dep_filter) {
            let eps = as_array_or_single(dep.get("epigrafe"));
            collect_headings(&eps, kw, sec, name.as_str(), date, out);
            proof {
                let b = headings_documents(deref_all(eps@), kw@, sec@, name@, date@);
                assert(start + a + b =~= start + (a + b));
            }
        } else {
            assert(a + seq![] =~= a);
        }
        i = i + 1;
    }
    assert(xs.take(deps@.len() as int) =~= xs);
}

fn collect_sections(secs: &Vec<JsonValue>, sec_filter: &Option<Vec<char>>, dep_filter: &Option<Vec<char>>, kw: &[char], date: &str, out: &mut Vec<BoeDocument>)
    ensures
        doc_views(final(out)@) == doc_views(old(out)@) + sections_documents(secs@, filter_view(*sec_filter), filter_view(*dep_filter), kw@, date@),
{
    let ghost start = doc_views(out@);
    let ghost xs = secs@;
    let ghost sf = filter_view(*sec_filter);
    let ghost df = filter_view(*dep_filter);
    let mut i: usize = 0;
    assert(sections_documents(xs.take(0), sf, df, kw@, date@) =~= seq![]);
    while i < secs.len()
        invariant
            i <= secs@.len(),
            xs == secs@,
            sf == filter_view(*sec_filter),
            df == filter_view(*dep_filter),
            doc_views(out@) == start + sections_documents(xs.take(i as int), sf, df, kw@, date@),
        decreases secs@.len() - i,
    {
        let sec: &JsonValue = &secs[i];
        proof {
            lemma_take_last(xs, i as int);
        }
        let name = str_member_of(sec, "@nombre");
        let ghost a = sections_documents(xs.take(i as int), sf, df, kw@, date@);
        if name_passes(name.as_str(), sec_filter) {
            let deps = as_array_or_single(sec.get("departamento"));
            collect_departments(&deps, dep_filter, kw, name.as_str(), date, out);
            proof {
                let b = departments_documents(deref_all(deps@), df, kw@, name@, date@);
                assert(start + a + b =~= start + (a + b));
            }
        } else {
            assert(a + seq![] =~= a);
        }
        i = i + 1;
    }
    assert(xs.take(secs@.len() as int) =~= xs);
}

/// The documents of a daily summary whose title contains every
/// white-space separated keyword (case-insensitively), restricted to
/// sections and departments whose names contain the given filters
/// (case-insensitively), all dated `date`.
pub fn search_summary(summary: &JsonValue, keywords: &str, section: Option<&str>, department: Option<&str>, date: &str) -> (docs: Vec<BoeDocument>)
    ensures
        doc_views(docs@) == summary_documents(*summary, opt_lower(section), opt_lower(department), lowercase(keywords@), date@),
{
    let kw = lower_chars(keywords);
    let sec_filter = lower_filter(section);
    let dep_filter = lower_filter(department);
    let mut out: Vec<BoeDocument> = Vec::new();
    let issues_opt = array_opt(get_opt(get_opt(summary.get("data"), "sumario"), "diario"));
    match issues_opt {
        Some(issues) => {
            let ghost xs = issues@;
            let ghost sf = filter_view(sec_filter);
            let ghost df = filter_view(dep_filter);
            let mut i: usize = 0;
            assert(issues_documents(xs.take(0), sf, df, kw@, date@) =~= seq![]);
            assert(doc_views(out@) =~= seq![]);
            while i < issues.len()
                invariant
                    i <= issues@.len(),
                    xs == issues@,
                    sf == filter_view(sec_filter),
                    df == filter_view(dep_filter),
                    doc_views(out@) == issues_documents(xs.take(i as int), sf, df, kw@, date@),
                decreases issues@.len() - i,
            {
                let issue: &JsonValue = &issues[i];
                proof {
                    lemma_take_last(xs, i as int);
                }
                let ghost a = issues_documents(xs.take(i as int), sf, df, kw@, date@);
                match array_opt(issue.get("seccion")) {
                    Some(secs) => {
                        collect_sections(secs, &sec_filter, &dep_filter, kw.as_slice(), date, &mut out);
                    },
                    None => {
                        assert(a + seq![] =~= a);
                    },
                }
                i = i + 1;
            }
            assert(xs.take(issues@.len() as int) =~= xs);
        },
        None => {
            assert(doc_views(out@) =~= seq![]);
        },
    }
    out
}

/// The answer to a BOE search.
pub struct BoeSearchResult {
    pub query: String,
    pub date_from: Option<String>,
    pub date_to: Option<String>,
    pub results_count: usize,
    pub documents: Vec<BoeDocument>,
}

pub open spec fn opt_string_view(s: Option<String>) -> Option<Seq<char>> {
    match s {
        Some(x) => Some(x@),
        None => None,
    }
}

fn copy_opt(s: Option<&str>) -> (r: Option<String>)
    ensures
        opt_string_view(r) == opt_view(s),
{
    match s {
        Some(x) => Some(String::from_str(x)),
        None => None,
    }
}

/// The documents found in the summaries of a run of days, day by day in
/// order: the summary at position `k` is that of day `days[k]`, and a day
/// without a summary contributes nothing.
pub open spec fn range_documents(summaries: Seq<Option<JsonValue>>, days: Seq<Seq<char>>, sec_filter: Option<Seq<char>>, dep_filter: Option<Seq<char>>, kw: Seq<char>) -> Seq<BoeDocumentView>
    decreases summaries.len(),
{
    if summaries.len() == 0 {
        seq![]
    } else {
        range_documents(summaries.drop_last(), days, sec_filter, dep_filter, kw) + match summaries.last() {
            Some(s) => summary_documents(s, sec_filter, dep_filter, kw, days[summaries.len() - 1]),
            None => seq![],
        }
    }
}

pub open spec fn day_views(days: Seq<String>) -> Seq<Seq<char>> {
    days.map_values(|s: String| s@)
}

proof fn lemma_range_prefix(summaries: Seq<Option<JsonValue>>, days: Seq<Seq<char>>, sf: Option<Seq<char>>, df: Option<Seq<char>>, kw: Seq<char>, i: int)
    requires
        0 <= i < summaries.len(),
    ensures
        range_documents(summaries.take(i + 1), days, sf, df, kw) == range_documents(summaries.take(i), days, sf, df, kw)
            + match summaries[i] {
            Some(s) => summary_documents(s, sf, df, kw, days[i]),
            None => seq![],
        },
{
    assert(summaries.take(i + 1).drop_last() =~= summaries.take(i));
}

/// The search answer over a run of days: `summaries[k]` is the summary of
/// the day `days[k]` (`YYYYMMDD`), none when no summary was published that day.
pub fn search_result(summaries: &Vec<Option<JsonValue>>, days: &Vec<String>, keywords: &str, date_from: Option<&str>, date_to: Option<&str>, section: Option<&str>, department: Option<&str>) -> (r: BoeSearchResult)
    requires
        summaries@.len() == days@.len(),
    ensures
        r.query@ == keywords@,
        opt_string_view(r.date_from) == opt_view(date_from),
        opt_string_view(r.date_to) == opt_view(date_to),
        doc_views(r.documents@) == range_documents(summaries@, day_views(days@), opt_lower(section), opt_lower(department), lowercase(keywords@)),
        r.results_count == r.documents@.len(),
{
    let ghost dv = day_views(days@);
    let ghost sf = opt_lower(section);
    let ghost df = opt_lower(department);
    let ghost kw = lowercase(keywords@);
    let mut documents: Vec<BoeDocument> = Vec::new();
    let mut i: usize = 0;
    assert(summaries@.take(0) =~= Seq::<Option<JsonValue>>::empty());
    assert(doc_views(documents@) =~= seq![]);
    while i < summaries.len()
        invariant
            i <= summaries@.len(),
            summaries@.len() == days@.len(),
            dv == day_views(days@),
            sf == opt_lower(section),
            df == opt_lower(department),
            kw == lowercase(keywords@),
            doc_views(documents@) == range_documents(summaries@.take(i as int), dv, sf, df, kw),
        decreases summaries@.len() - i,
    {
        proof {
            lemma_range_prefix(summaries@, dv, sf, df, kw, i as int);
        }
        let ghost before = documents@;
        match &summaries[i] {
            Some(summary) => {
                let mut found = search_summary(summary, keywords, section, department, days[i].as_str());
                assert(dv[i as int] == days@[i as int]@);
                documents.append(&mut found);
                assert(doc_views(documents@) =~= doc_views(before) + summary_documents(*summary, sf, df, kw, dv[i as int]));
            },
            None => {
                assert(doc_views(documents@) =~= doc_views(before) + Seq::<BoeDocumentView>::empty());
            },
        }
        i = i + 1;
    }
    assert(summaries@.take(summaries@.len() as int) =~= summaries@);
    BoeSearchResult {
        query: String::from_str(keywords),
        date_from: copy_opt(date_from),
        date_to: copy_opt(date_to),
        results_count: documents.len(),
        documents,
    }
}

/// Keywords must hold something besides white space.
pub fn check_keywords(keywords: &str) -> (r: Result<(), String>)
    ensures
        r is Err <==> all_white(keywords@),
        r matches Err(m) ==> m@ == "Keywords must not be empty."@,
{
    if is_blank(keywords) {
        Err(String::from_str("Keywords must not be empty."))
    } else {
        Ok(())
    }
}

/// The day number of a date argument, written `YYYYMMDD` or `YYYY-MM-DD`
/// (dashes are dropped before reading).
pub open spec fn date_arg_day(d: Seq<char>) -> Option<int> {
    compact_day(without_char(d, '-'))
}

/// The message for a date argument that is not a date.
pub open spec fn bad_date_message(d: Seq<char>) -> Seq<char> {
    "Invalid date '"@ + d + "'. Use YYYYMMDD or YYYY-MM-DD."@
}

/// The first and last day (day numbers) of a search: `date_to` defaults to
/// today, and `date_from` to 29 days before the last day (not before
/// 1970-01-01), so that a search without dates covers the last 30 days. A
/// date that cannot be read is refused, `date_from` first.
pub open spec fn search_span(date_from: Option<Seq<char>>, date_to: Option<Seq<char>>, today: int) -> Result<(int, int), Seq<char>> {
    if date_from is Some && date_arg_day(date_from.unwrap()) is None {
        Err(bad_date_message(date_from.unwrap()))
    } else if date_to is Some && date_arg_day(date_to.unwrap()) is None {
        Err(bad_date_message(date_to.unwrap()))
    } else {
        let last = match date_to {
            Some(t) => date_arg_day(t).unwrap(),
            None => today,
        };
        let first = match date_from {
            Some(f) => date_arg_day(f).unwrap(),
            None => if last >= 29 {
                last - 29
            } else {
                0
            },
        };
        Ok((first, last))
    }
}

/// The days from `first` to `last` (day numbers), as `YYYYMMDD`, in order;
/// none when `first` comes after `last`.
pub open spec fn span_days(first: int, last: int) -> Seq<Seq<char>> {
    Seq::new(
        if first <= last {
            (last - first + 1) as nat
        } else {
            0
        },
        |k: int| day_stamp(first + k),
    )
}

fn arg_day(d: &str) -> (r: Result<u64, String>)
    ensures
        match date_arg_day(d@) {
            Some(n) => 0 <= n <= 3_000_000 && r == Ok::<u64, String>(n as u64),
            None => r matches Err(m) && m@ == bad_date_message(d@),
        },
{
    let compact = remove_char(d, '-');
    match compact_day_number(compact.as_str()) {
        Some(n) => Ok(n),
        None => Err(join3("Invalid date '", d, "'. Use YYYYMMDD or YYYY-MM-DD.")),
    }
}

/// The days to search, as `YYYYMMDD`, in order (see `search_span`), given
/// today's day number.
pub fn search_days(date_from: Option<&str>, date_to: Option<&str>, today: u64) -> (r: Result<Vec<String>, String>)
    requires
        today <= u64::MAX / 86400,
    ensures
        match search_span(opt_view(date_from), opt_view(date_to), today as int) {
            Ok((first, last)) => r matches Ok(days) && day_views(days@) == span_days(first, last),
            Err(m) => r matches Err(e) && e@ == m,
        },
{
    let from_day: Option<u64> = match date_from {
        Some(f) => match arg_day(f) {
            Ok(n) => Some(n),
            Err(m) => return Err(m),
        },
        None => None,
    };
    let last: u64 = match date_to {
        Some(t) => match arg_day(t) {
            Ok(n) => n,
            Err(m) => return Err(m),
        },
        None => today,
    };
    let first: u64 = match from_day {
        Some(n) => n,
        None => if last >= 29 {
            last - 29
        } else {
            0
        },
    };
    let ghost want = span_days(first as int, last as int);
    let mut days: Vec<String> = Vec::new();
    let mut n: u64 = first;
    if first <= last {
        while n <= last
            invariant
                first <= n <= last + 1,
                last <= u64::MAX / 86400,
                want == span_days(first as int, last as int),
                day_views(days@) == want.take(n - first),
            decreases last + 1 - n,
        {
            let s = day_text(n);
            let ghost before = days@;
            days.push(s);
            assert(day_views(days@) =~= day_views(before).push(s@));
            assert(want.take(n + 1 - first) =~= want.take(n - first).push(want[n - first]));
            n = n + 1;
        }
        assert(want.take(last + 1 - first) =~= want);
    } else {
        assert(day_views(days@) =~= want);
    }
    Ok(days)
}

/// Address of the daily summary of `date`.
pub fn summary_url(base_url: &str, date: &str) -> (r: String)
    ensures
        r@ == base_url@ + "/boe/sumario/"@ + date@,
{
    join3(base_url, "/boe/sumario/", date)
}

pub open spec fn or_empty(s: Option<&str>) -> Seq<char> {
    match s {
        Some(x) => x@,
        None => seq![],
    }
}

/// Cache key of a search: `boe:{keywords}:{from}:{to}:{section}:{department}`.
pub fn cache_key(keywords: &str, date_from: Option<&str>, date_to: Option<&str>, section: Option<&str>, department: Option<&str>) -> (r: String)
    ensures
        r@ == "boe:"@ + keywords@ + ":"@ + or_empty(date_from) + ":"@ + or_empty(date_to) + ":"@
            + or_empty(section) + ":"@ + or_empty(department),
{
    let mut r = join2("boe:", keywords);
    r.append(":");
    r.append(unwrap_or_empty(date_from));
    r.append(":");
    r.append(unwrap_or_empty(date_to));
    r.append(":");
    r.append(unwrap_or_empty(section));
    r.append(":");
    r.append(unwrap_or_empty(department));
    r
}

/// `s.unwrap_or("")`.
pub fn unwrap_or_empty<'a>(s: Option<&'a str>) -> (r: &'a str)
    ensures
        r@ == or_empty(s),
{
    match s {
        Some(x) => x,
        None => {
            proof {
                reveal_strlit("");
            }
            ""
        },
    }
}

/// A document found in a daily summary: its title has every keyword, its
/// summary is the title cut to 200 characters, its date is the summary's,
/// and its section and department pass the filters.
pub open spec fn document_found(d: BoeDocumentView, sec_filter: Option<Seq<char>>, dep_filter: Option<Seq<char>>, kw: Seq<char>, date: Seq<char>) -> bool {
    &&& all_words_occur(kw, lowercase(d.title))
    &&& d.summary == take_chars(d.title, 200)
    &&& d.publication_date == date
    &&& passes(d.section, sec_filter)
    &&& passes(d.department, dep_filter)
}

pub open spec fn all_docs(ds: Seq<BoeDocumentView>, p: spec_fn(BoeDocumentView) -> bool) -> bool {
    forall|k: int| 0 <= k < ds.len() ==> p(#[trigger] ds[k])
}

proof fn lemma_all_docs_concat(a: Seq<BoeDocumentView>, b: Seq<BoeDocumentView>, p: spec_fn(BoeDocumentView) -> bool)
    requires
        all_docs(a, p),
        all_docs(b, p),
    ensures
        all_docs(a + b, p),
{
    assert forall|k: int| 0 <= k < (a + b).len() implies p(#[trigger] (a + b)[k]) by {
        if k < a.len() {
            assert((a + b)[k] == a[k]);
        } else {
            assert((a + b)[k] == b[k - a.len()]);
        }
    }
}

proof fn lemma_all_docs_push(a: Seq<BoeDocumentView>, d: BoeDocumentView, p: spec_fn(BoeDocumentView) -> bool)
    requires
        all_docs(a, p),
        p(d),
    ensures
        all_docs(a.push(d), p),
{
    assert forall|k: int| 0 <= k < a.push(d).len() implies p(#[trigger] a.push(d)[k]) by {
        if k < a.len() {
            assert(a.push(d)[k] == a[k]);
        }
    }
}

pub open spec fn item_level(kw: Seq<char>, sec: Seq<char>, dep: Seq<char>, date: Seq<char>) -> spec_fn(BoeDocumentView) -> bool {
    |d: BoeDocumentView| {
        &&& all_words_occur(kw, lowercase(d.title))
        &&& d.summary == take_chars(d.title, 200)
        &&& d.publication_date == date
        &&& d.section == sec
        &&& d.department == dep
    }
}

proof fn lemma_items_level(items: Seq<JsonValue>, kw: Seq<char>, sec: Seq<char>, dep: Seq<char>, date: Seq<char>)
    ensures
        all_docs(items_documents(items, kw, sec, dep, date), item_level(kw, sec, dep, date)),
    decreases items.len(),
{
    if items.len() > 0 {
        lemma_items_level(items.drop_last(), kw, sec, dep, date);
        if item_matches(items.last(), kw) {
            lemma_all_docs_push(
                items_documents(items.drop_last(), kw, sec, dep, date),
                item_document(items.last(), sec, dep, date),
                item_level(kw, sec, dep, date),
            );
        }
    }
}

proof fn lemma_headings_level(eps: Seq<JsonValue>, kw: Seq<char>, sec: Seq<char>, dep: Seq<char>, date: Seq<char>)
    ensures
        all_docs(headings_documents(eps, kw, sec, dep, date), item_level(kw, sec, dep, date)),
    decreases eps.len(),
{
    if eps.len() > 0 {
        lemma_headings_level(eps.drop_last(), kw, sec, dep, date);
        let items = array_or_single(jget(eps.last(), "item"@));
        lemma_items_level(items, kw, sec, dep, date);
        lemma_all_docs_concat(
            headings_documents(eps.drop_last(), kw, sec, dep, date),
            items_documents(items, kw, sec, dep, date),
            item_level(kw, sec, dep, date),
        );
    }
}

pub open spec fn department_level(kw: Seq<char>, sec: Seq<char>, dep_filter: Option<Seq<char>>, date: Seq<char>) -> spec_fn(BoeDocumentView) -> bool {
    |d: BoeDocumentView| {
        &&& all_words_occur(kw, lowercase(d.title))
        &&& d.summary == take_chars(d.title, 200)
        &&& d.publication_date == date
        &&& d.section == sec
        &&& passes(d.department, dep_filter)
    }
}

proof fn lemma_departments_level(deps: Seq<JsonValue>, dep_filter: Option<Seq<char>>, kw: Seq<char>, sec: Seq<char>, date: Seq<char>)
    ensures
        all_docs(departments_documents(deps, dep_filter, kw, sec, date), department_level(kw, sec, dep_filter, date)),
    decreases deps.len(),
{
    if deps.len() > 0 {
        lemma_departments_level(deps.drop_last(), dep_filter, kw, sec, date);
        let dep = deps.last();
        let name = str_member(dep, "@nombre"@);
        let mine = department_documents(dep, dep_filter, kw, sec, date);
        if passes(name, dep_filter) {
            let eps = array_or_single(jget(dep, "epigrafe"@));
            lemma_headings_level(eps, kw, sec, name, date);
            assert forall|k: int| 0 <= k < mine.len() implies department_level(kw, sec, dep_filter, date)(
                #[trigger] mine[k],
            ) by {
                assert(item_level(kw, sec, name, date)(mine[k]));
            }
        }
        lemma_all_docs_concat(
            departments_documents(deps.drop_last(), dep_filter, kw, sec, date),
            mine,
            department_level(kw, sec, dep_filter, date),
        );
    }
}

pub open spec fn found_level(sec_filter: Option<Seq<char>>, dep_filter: Option<Seq<char>>, kw: Seq<char>, date: Seq<char>) -> spec_fn(BoeDocumentView) -> bool {
    |d: BoeDocumentView| document_found(d, sec_filter, dep_filter, kw, date)
}

proof fn lemma_sections_level(secs: Seq<JsonValue>, sec_filter: Option<Seq<char>>, dep_filter: Option<Seq<char>>, kw: Seq<char>, date: Seq<char>)
    ensures
        all_docs(sections_documents(secs, sec_filter, dep_filter, kw, date), found_level(sec_filter, dep_filter, kw, date)),
    decreases secs.len(),
{
    if secs.len() > 0 {
        lemma_sections_level(secs.drop_last(), sec_filter, dep_filter, kw, date);
        let sec = secs.last();
        let name = str_member(sec, "@nombre"@);
        let mine = section_documents(sec, sec_filter, dep_filter, kw, date);
        if passes(name, sec_filter) {
            let deps = array_or_single(jget(sec, "departamento"@));
            lemma_departments_level(deps, dep_filter, kw, name, date);
            assert forall|k: int| 0 <= k < mine.len() implies found_level(sec_filter, dep_filter, kw, date)(
                #[trigger] mine[k],
            ) by {
                assert(department_level(kw, name, dep_filter, date)(mine[k]));
            }
        }
        lemma_all_docs_concat(
            sections_documents(secs.drop_last(), sec_filter, dep_filter, kw, date),
            mine,
            found_level(sec_filter, dep_filter, kw, date),
        );
    }
}

proof fn lemma_issues_level(issues: Seq<JsonValue>, sec_filter: Option<Seq<char>>, dep_filter: Option<Seq<char>>, kw: Seq<char>, date: Seq<char>)
    ensures
        all_docs(issues_documents(issues, sec_filter, dep_filter, kw, date), found_level(sec_filter, dep_filter, kw, date)),
    decreases issues.len(),
{
    if issues.len() > 0 {
        lemma_issues_level(issues.drop_last(), sec_filter, dep_filter, kw, date);
        let mine = match jarray(jget(issues.last(), "seccion"@)) {
            Some(secs) => sections_documents(secs, sec_filter, dep_filter, kw, date),
            None => seq![],
        };
        match jarray(jget(issues.last(), "seccion"@)) {
            Some(secs) => lemma_sections_level(secs, sec_filter, dep_filter, kw, date),
            None => {},
        }
        lemma_all_docs_concat(
            issues_documents(issues.drop_last(), sec_filter, dep_filter, kw, date),
            mine,
            found_level(sec_filter, dep_filter, kw, date),
        );
    }
}

/// Every document that a search returns matches it: its title contains
/// every keyword (case-insensitively), its summary is its title cut to 200
/// characters, it carries the searched date, and its section and
/// department pass the section and department filters.
pub proof fn boe_results_match(summary: JsonValue, sec_filter: Option<Seq<char>>, dep_filter: Option<Seq<char>>, kw: Seq<char>, date: Seq<char>)
    ensures
        forall|k: int|
            0 <= k < summary_documents(summary, sec_filter, dep_filter, kw, date).len() ==> document_found(
                #[trigger] summary_documents(summary, sec_filter, dep_filter, kw, date)[k],
                sec_filter,
                dep_filter,
                kw,
                date,
            ),
{
    let docs = summary_documents(summary, sec_filter, dep_filter, kw, date);
    match jarray(jget_opt(jget_opt(jget(summary, "data"@), "sumario"@), "diario"@)) {
        Some(issues) => {
            lemma_issues_level(issues, sec_filter, dep_filter, kw, date);
            assert forall|k: int| 0 <= k < docs.len() implies document_found(#[trigger] docs[k], sec_filter, dep_filter, kw, date) by {
                assert(found_level(sec_filter, dep_filter, kw, date)(docs[k]));
            }
        },
        None => {},
    }
}

/// The document matches the search on one of the days.
pub open spec fn found_on_some_day(d: BoeDocumentView, days: Seq<Seq<char>>, sec_filter: Option<Seq<char>>, dep_filter: Option<Seq<char>>, kw: Seq<char>) -> bool {
    exists|j: int| 0 <= j < days.len() && #[trigger] document_found(d, sec_filter, dep_filter, kw, days[j])
}

/// Every document of a search over a run of days matches the search, and
/// its publication date is one of the searched days.
pub proof fn boe_range_results_match(summaries: Seq<Option<JsonValue>>, days: Seq<Seq<char>>, sec_filter: Option<Seq<char>>, dep_filter: Option<Seq<char>>, kw: Seq<char>)
    requires
        summaries.len() <= days.len(),
    ensures
        forall|k: int|
            0 <= k < range_documents(summaries, days, sec_filter, dep_filter, kw).len() ==> found_on_some_day(
                #[trigger] range_documents(summaries, days, sec_filter, dep_filter, kw)[k],
                days,
                sec_filter,
                dep_filter,
                kw,
            ),
    decreases summaries.len(),
{
    if summaries.len() > 0 {
        let n = summaries.len() - 1;
        let rest = summaries.drop_last();
        boe_range_results_match(rest, days, sec_filter, dep_filter, kw);
        let prev = range_documents(rest, days, sec_filter, dep_filter, kw);
        let cur = match summaries.last() {
            Some(s) => summary_documents(s, sec_filter, dep_filter, kw, days[n]),
            None => seq![],
        };
        let docs = range_documents(summaries, days, sec_filter, dep_filter, kw);
        assert(docs == prev + cur);
        match summaries.last() {
            Some(s) => boe_results_match(s, sec_filter, dep_filter, kw, days[n]),
            None => {},
        }
        assert forall|k: int| 0 <= k < docs.len() implies found_on_some_day(#[trigger] docs[k], days, sec_filter, dep_filter, kw) by {
            if k < prev.len() {
                assert(docs[k] == prev[k]);
                assert(found_on_some_day(prev[k], days, sec_filter, dep_filter, kw));
            } else {
                assert(docs[k] == cur[k - prev.len()]);
                assert(document_found(cur[k - prev.len()], sec_filter, dep_filter, kw, days[n]));
            }
        }
    }
}

// ---------------------------------------------------------------------------
// Completeness of the search
// ---------------------------------------------------------------------------

/// `d` is the document of `item`, found under the section named `sec` and
/// the department named `dep`, published on `date`.
pub open spec fn carries(d: BoeDocumentView, item: JsonValue, sec: Seq<char>, dep: Seq<char>, date: Seq<char>) -> bool {
    &&& d.identifier == str_member(item, "@id"@)
    &&& d.title == str_member(item, "titulo"@)
    &&& d.section == sec
    &&& d.department == dep
    &&& d.publication_date == date
}

/// Some document of `ds` is that of `item`.
pub open spec fn some_doc(ds: Seq<BoeDocumentView>, item: JsonValue, sec: Seq<char>, dep: Seq<char>, date: Seq<char>) -> bool {
    exists|k: int| 0 <= k < ds.len() && #[trigger] carries(ds[k], item, sec, dep, date)
}

proof fn lemma_some_doc_concat(a: Seq<BoeDocumentView>, b: Seq<BoeDocumentView>, item: JsonValue, sec: Seq<char>, dep: Seq<char>, date: Seq<char>)
    requires
        some_doc(a, item, sec, dep, date) || some_doc(b, item, sec, dep, date),
    ensures
        some_doc(a + b, item, sec, dep, date),
{
    if some_doc(a, item, sec, dep, date) {
        let k = choose|k: int| 0 <= k < a.len() && #[trigger] carries(a[k], item, sec, dep, date);
        assert((a + b)[k] == a[k]);
    } else {
        let k = choose|k: int| 0 <= k < b.len() && #[trigger] carries(b[k], item, sec, dep, date);
        assert((a + b)[a.len() + k] == b[k]);
    }
}

proof fn lemma_items_complete(items: Seq<JsonValue>, k: int, kw: Seq<char>, sec: Seq<char>, dep: Seq<char>, date: Seq<char>)
    requires
        0 <= k < items.len(),
        all_words_occur(kw, lowercase(str_member(items[k], "titulo"@))),
    ensures
        some_doc(items_documents(items, kw, sec, dep, date), items[k], sec, dep, date),
    decreases items.len(),
{
    let rest = items.drop_last();
    let prev = items_documents(rest, kw, sec, dep, date);
    if k == items.len() - 1 {
        let ds = prev.push(item_document(items.last(), sec, dep, date));
        assert(carries(ds[prev.len() as int], items[k], sec, dep, date));
    } else {
        assert(rest[k] == items[k]);
        lemma_items_complete(rest, k, kw, sec, dep, date);
        if item_matches(items.last(), kw) {
            let j = choose|j: int| 0 <= j < prev.len() && #[trigger] carries(prev[j], items[k], sec, dep, date);
            let ds = prev.push(item_document(items.last(), sec, dep, date));
            assert(ds[j] == prev[j]);
        }
    }
}

proof fn lemma_headings_complete(eps: Seq<JsonValue>, h: int, k: int, kw: Seq<char>, sec: Seq<char>, dep: Seq<char>, date: Seq<char>)
    requires
        0 <= h < eps.len(),
        0 <= k < array_or_single(jget(eps[h], "item"@)).len(),
        all_words_occur(kw, lowercase(str_member(array_or_single(jget(eps[h], "item"@))[k], "titulo"@))),
    ensures
        some_doc(headings_documents(eps, kw, sec, dep, date), array_or_single(jget(eps[h], "item"@))[k], sec, dep, date),
    decreases eps.len(),
{
    let item = array_or_single(jget(eps[h], "item"@))[k];
    let rest = eps.drop_last();
    if h == eps.len() - 1 {
        lemma_items_complete(array_or_single(jget(eps[h], "item"@)), k, kw, sec, dep, date);
    } else {
        assert(rest[h] == eps[h]);
        lemma_headings_complete(rest, h, k, kw, sec, dep, date);
    }
    lemma_some_doc_concat(
        headings_documents(rest, kw, sec, dep, date),
        items_documents(array_or_single(jget(eps.last(), "item"@)), kw, sec, dep, date),
        item,
        sec,
        dep,
        date,
    );
}

/// The item at department `d`, heading `h`, item `k` of section `secs[s]`.
pub open spec fn item_at(secs: Seq<JsonValue>, s: int, d: int, h: int, k: int) -> JsonValue {
    let dep = array_or_single(jget(secs[s], "departamento"@))[d];
    let ep = array_or_single(jget(dep, "epigrafe"@))[h];
    array_or_single(jget(ep, "item"@))[k]
}

/// The position `(s, d, h, k)` names an item of the sections `secs`.
pub open spec fn item_position(secs: Seq<JsonValue>, s: int, d: int, h: int, k: int) -> bool {
    &&& 0 <= s < secs.len()
    &&& 0 <= d < array_or_single(jget(secs[s], "departamento"@)).len()
    &&& 0 <= h < array_or_single(jget(array_or_single(jget(secs[s], "departamento"@))[d], "epigrafe"@)).len()
    &&& 0 <= k < array_or_single(
        jget(
            array_or_single(jget(array_or_single(jget(secs[s], "departamento"@))[d], "epigrafe"@))[h],
            "item"@,
        ),
    ).len()
}

proof fn lemma_departments_complete(deps: Seq<JsonValue>, d: int, h: int, k: int, dep_filter: Option<Seq<char>>, kw: Seq<char>, sec: Seq<char>, date: Seq<char>)
    requires
        0 <= d < deps.len(),
        0 <= h < array_or_single(jget(deps[d], "epigrafe"@)).len(),
        0 <= k < array_or_single(jget(array_or_single(jget(deps[d], "epigrafe"@))[h], "item"@)).len(),
        passes(str_member(deps[d], "@nombre"@), dep_filter),
        all_words_occur(kw, lowercase(str_member(array_or_single(jget(array_or_single(jget(deps[d], "epigrafe"@))[h], "item"@))[k], "titulo"@))),
    ensures
        some_doc(
            departments_documents(deps, dep_filter, kw, sec, date),
            array_or_single(jget(array_or_single(jget(deps[d], "epigrafe"@))[h], "item"@))[k],
            sec,
            str_member(deps[d], "@nombre"@),
            date,
        ),
    decreases deps.len(),
{
    let item = array_or_single(jget(array_or_single(jget(deps[d], "epigrafe"@))[h], "item"@))[k];
    let name = str_member(deps[d], "@nombre"@);
    let rest = deps.drop_last();
    if d == deps.len() - 1 {
        lemma_headings_complete(array_or_single(jget(deps[d], "epigrafe"@)), h, k, kw, sec, name, date);
    } else {
        assert(rest[d] == deps[d]);
        lemma_departments_complete(rest, d, h, k, dep_filter, kw, sec, date);
    }
    lemma_some_doc_concat(
        departments_documents(rest, dep_filter, kw, sec, date),
        department_documents(deps.last(), dep_filter, kw, sec, date),
        item,
        sec,
        name,
        date,
    );
}

proof fn lemma_sections_complete(secs: Seq<JsonValue>, s: int, d: int, h: int, k: int, sec_filter: Option<Seq<char>>, dep_filter: Option<Seq<char>>, kw: Seq<char>, date: Seq<char>)
    requires
        item_position(secs, s, d, h, k),
        passes(str_member(secs[s], "@nombre"@), sec_filter),
        passes(str_member(array_or_single(jget(secs[s], "departamento"@))[d], "@nombre"@), dep_filter),
        all_words_occur(kw, lowercase(str_member(item_at(secs, s, d, h, k), "titulo"@))),
    ensures
        some_doc(
            sections_documents(secs, sec_filter, dep_filter, kw, date),
            item_at(secs, s, d, h, k),
            str_member(secs[s], "@nombre"@),
            str_member(array_or_single(jget(secs[s], "departamento"@))[d], "@nombre"@),
            date,
        ),
    decreases secs.len(),
{
    let item = item_at(secs, s, d, h, k);
    let sname = str_member(secs[s], "@nombre"@);
    let dname = str_member(array_or_single(jget(secs[s], "departamento"@))[d], "@nombre"@);
    let rest = secs.drop_last();
    if s == secs.len() - 1 {
        lemma_departments_complete(array_or_single(jget(secs[s], "departamento"@)), d, h, k, dep_filter, kw, sname, date);
    } else {
        assert(rest[s] == secs[s]);
        assert(item_at(rest, s, d, h, k) == item);
        lemma_sections_complete(rest, s, d, h, k, sec_filter, dep_filter, kw, date);
    }
    lemma_some_doc_concat(
        sections_documents(rest, sec_filter, dep_filter, kw, date),
        section_documents(secs.last(), sec_filter, dep_filter, kw, date),
        item,
        sname,
        dname,
        date,
    );
}

proof fn lemma_issues_complete(issues: Seq<JsonValue>, i: int, secs: Seq<JsonValue>, s: int, d: int, h: int, k: int, sec_filter: Option<Seq<char>>, dep_filter: Option<Seq<char>>, kw: Seq<char>, date: Seq<char>)
    requires
        0 <= i < issues.len(),
        jarray(jget(issues[i], "seccion"@)) == Some(secs),
        item_position(secs, s, d, h, k),
        passes(str_member(secs[s], "@nombre"@), sec_filter),
        passes(str_member(array_or_single(jget(secs[s], "departamento"@))[d], "@nombre"@), dep_filter),
        all_words_occur(kw, lowercase(str_member(item_at(secs, s, d, h, k), "titulo"@))),
    ensures
        some_doc(
            issues_documents(issues, sec_filter, dep_filter, kw, date),
            item_at(secs, s, d, h, k),
            str_member(secs[s], "@nombre"@),
            str_member(array_or_single(jget(secs[s], "departamento"@))[d], "@nombre"@),
            date,
        ),
    decreases issues.len(),
{
    let item = item_at(secs, s, d, h, k);
    let sname = str_member(secs[s], "@nombre"@);
    let dname = str_member(array_or_single(jget(secs[s], "departamento"@))[d], "@nombre"@);
    let rest = issues.drop_last();
    if i == issues.len() - 1 {
        lemma_sections_complete(secs, s, d, h, k, sec_filter, dep_filter, kw, date);
    } else {
        assert(rest[i] == issues[i]);
        lemma_issues_complete(rest, i, secs, s, d, h, k, sec_filter, dep_filter, kw, date);
    }
    lemma_some_doc_concat(
        issues_documents(rest, sec_filter, dep_filter, kw, date),
        match jarray(jget(issues.last(), "seccion"@)) {
            Some(ss) => sections_documents(ss, sec_filter, dep_filter, kw, date),
            None => seq![],
        },
        item,
        sname,
        dname,
        date,
    );
}

/// The search misses nothing: every item of the summary, under any heading of
/// any department of any section of any issue, whose section and department
/// names pass the filters and whose lower-cased title contains every keyword,
/// is returned as a document with its identifier and title, its section and
/// department names, and the summary's date.
pub proof fn boe_search_complete(summary: JsonValue, issues: Seq<JsonValue>, i: int, secs: Seq<JsonValue>, s: int, d: int, h: int, k: int, sec_filter: Option<Seq<char>>, dep_filter: Option<Seq<char>>, kw: Seq<char>, date: Seq<char>)
    requires
        jarray(jget_opt(jget_opt(jget(summary, "data"@), "sumario"@), "diario"@)) == Some(issues),
        0 <= i < issues.len(),
        jarray(jget(issues[i], "seccion"@)) == Some(secs),
        item_position(secs, s, d, h, k),
        passes(str_member(secs[s], "@nombre"@), sec_filter),
        passes(str_member(array_or_single(jget(secs[s], "departamento"@))[d], "@nombre"@), dep_filter),
        all_words_occur(kw, lowercase(str_member(item_at(secs, s, d, h, k), "titulo"@))),
    ensures
        some_doc(
            summary_documents(summary, sec_filter, dep_filter, kw, date),
            item_at(secs, s, d, h, k),
            str_member(secs[s], "@nombre"@),
            str_member(array_or_single(jget(secs[s], "departamento"@))[d], "@nombre"@),
            date,
        ),
{
    lemma_issues_complete(issues, i, secs, s, d, h, k, sec_filter, dep_filter, kw, date);
}

/// A search over a run of days misses no day: every document that the
/// search of one day's summary gives is among the documents of the whole
/// run.
pub proof fn boe_range_keeps_every_day(summaries: Seq<Option<JsonValue>>, days: Seq<Seq<char>>, sec_filter: Option<Seq<char>>, dep_filter: Option<Seq<char>>, kw: Seq<char>, j: int, s: JsonValue)
    requires
        0 <= j < summaries.len(),
        summaries.len() <= days.len(),
        summaries[j] == Some(s),
    ensures
        forall|k: int|
            0 <= k < summary_documents(s, sec_filter, dep_filter, kw, days[j]).len() ==> range_documents(
                summaries,
                days,
                sec_filter,
                dep_filter,
                kw,
            ).contains(#[trigger] summary_documents(s, sec_filter, dep_filter, kw, days[j])[k]),
    decreases summaries.len(),
{
    let n = summaries.len() - 1;
    let rest = summaries.drop_last();
    let prev = range_documents(rest, days, sec_filter, dep_filter, kw);
    let cur = match summaries.last() {
        Some(x) => summary_documents(x, sec_filter, dep_filter, kw, days[n]),
        None => seq![],
    };
    let docs = range_documents(summaries, days, sec_filter, dep_filter, kw);
    assert(docs == prev + cur);
    let mine = summary_documents(s, sec_filter, dep_filter, kw, days[j]);
    if j == n {
        assert(summaries.last() == Some(s));
        assert forall|k: int| 0 <= k < mine.len() implies docs.contains(#[trigger] mine[k]) by {
            assert(docs[prev.len() + k] == mine[k]);
        }
    } else {
        assert(rest[j] == summaries[j]);
        boe_range_keeps_every_day(rest, days, sec_filter, dep_filter, kw, j, s);
        assert forall|k: int| 0 <= k < mine.len() implies docs.contains(#[trigger] mine[k]) by {
            assert(prev.contains(mine[k]));
            let i = choose|i: int| 0 <= i < prev.len() && prev[i] == mine[k];
            assert(docs[i] == mine[k]);
        }
    }
}

} // verus!
