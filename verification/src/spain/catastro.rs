//! Queries of the Spanish property registry (Catastro OVC): by cadastral
//! reference or by street address, and the reading of its JSON answers.

use vstd::prelude::*;
use crate::json::{
    array_or_single, as_array_or_single, deref_all, deref_opt, get_opt, jget, jget_opt, jstr,
    str_opt, JsonValue,
};
use crate::spain::boe::{or_empty, unwrap_or_empty};
use crate::text::{join2, push_char};

verus! {

/// A property as read from a Catastro answer. The built area is kept as the
/// text that the registry sends.
pub struct CatastroRecord {
    pub reference: String,
    pub address: String,
    pub area_text: Option<String>,
    pub use_type: String,
    pub construction_year: Option<String>,
}

#[verifier::ext_equal]
pub struct CatastroRecordView {
    pub reference: Seq<char>,
    pub address: Seq<char>,
    pub area_text: Option<Seq<char>>,
    pub use_type: Seq<char>,
    pub construction_year: Option<Seq<char>>,
}

impl View for CatastroRecord {
    type V = CatastroRecordView;

    open spec fn view(&self) -> CatastroRecordView {
        CatastroRecordView {
            reference: self.reference@,
            address: self.address@,
            area_text: match self.area_text {
                Some(s) => Some(s@),
                None => None,
            },
            use_type: self.use_type@,
            construction_year: match self.construction_year {
                Some(s) => Some(s@),
                None => None,
            },
        }
    }
}

pub open spec fn record_views(rs: Seq<CatastroRecord>) -> Seq<CatastroRecordView> {
    rs.map_values(|r: CatastroRecord| r@)
}

// ---------------------------------------------------------------------------
// Reading answers
// ---------------------------------------------------------------------------

/// The full cadastral reference of an item: `rc.pc1` followed by `rc.pc2`.
pub open spec fn item_reference(item: JsonValue) -> Option<Seq<char>> {
    let rc = jget(item, "rc"@);
    match (jstr(jget_opt(rc, "pc1"@)), jstr(jget_opt(rc, "pc2"@))) {
        (Some(a), Some(b)) => Some(a + b),
        _ => None,
    }
}

/// The full cadastral reference of a Catastro answer item.
pub fn extract_reference(item: &JsonValue) -> (r: Option<String>)
    ensures
        match r {
            Some(s) => item_reference(*item) == Some(s@),
            None => item_reference(*item) is None,
        },
{
    let rc = item.get("rc");
    let pc1 = str_opt(get_opt(rc, "pc1"));
    let pc2 = str_opt(get_opt(rc, "pc2"));
    match (pc1, pc2) {
        (Some(a), Some(b)) => Some(join2(a, b)),
        _ => None,
    }
}

pub open spec fn listing_use() -> Seq<char> {
    "Ver detalle con referencia catastral completa"@
}

/// The record of a listed property, with `fallback` as its reference when
/// the item carries none.
pub open spec fn listed_record(item: JsonValue, fallback: Seq<char>) -> CatastroRecordView {
    CatastroRecordView {
        reference: match item_reference(item) {
            Some(r) => r,
            None => fallback,
        },
        address: match jstr(jget_opt(jget(item, "dt"@), "ldt"@)) {
            Some(a) => a,
            None => seq![],
        },
        area_text: None,
        use_type: listing_use(),
        construction_year: None,
    }
}

pub open spec fn listed_records(items: Seq<JsonValue>, fallback: Seq<char>) -> Seq<CatastroRecordView> {
    items.map_values(|item: JsonValue| listed_record(item, fallback))
}

/// The list of properties under `{result}/lrcdnp/rcdnp`, or else under
/// `/lrcdnp/rcdnp`.
pub open spec fn listing(body: JsonValue, result: Seq<char>) -> Option<JsonValue> {
    match jget_opt(jget_opt(jget(body, result), "lrcdnp"@), "rcdnp"@) {
        Some(v) => Some(v),
        None => jget_opt(jget(body, "lrcdnp"@), "rcdnp"@),
    }
}

/// The building detail `bico.bi.debi` of a reference answer.
pub open spec fn building_detail(body: JsonValue) -> Option<JsonValue> {
    jget_opt(jget_opt(jget(body, "bico"@), "bi"@), "debi"@)
}

/// The properties of an answer to a query by reference: the building detail
/// when there is one, else the listed properties (each with `reference` as
/// fallback reference).
pub open spec fn reference_records(body: JsonValue, reference: Seq<char>) -> Seq<CatastroRecordView> {
    match building_detail(body) {
        Some(debi) => seq![
            CatastroRecordView {
                reference: reference,
                address: match jstr(jget_opt(jget_opt(jget(body, "bico"@), "bi"@), "ldt"@)) {
                    Some(a) => a,
                    None => seq![],
                },
                area_text: jstr(jget(debi, "sfc"@)),
                use_type: match jstr(jget(debi, "luso"@)) {
                    Some(u) => u,
                    None => "Desconocido"@,
                },
                construction_year: jstr(jget(debi, "ant"@)),
            },
        ],
        None => listed_records(
            array_or_single(listing(body, "consulta_dnprcResult"@)),
            reference,
        ),
    }
}

/// The properties of an answer to a query by address (without a reference
/// an item gets the empty one).
pub open spec fn address_records(body: JsonValue) -> Seq<CatastroRecordView> {
    listed_records(array_or_single(listing(body, "consulta_dnplocResult"@)), seq![])
}

fn copy_str_opt(s: Option<&str>) -> (r: Option<String>)
    ensures
        match r {
            Some(x) => s matches Some(y) && x@ == y@,
            None => s is None,
        },
{
    match s {
        Some(x) => Some(String::from_str(x)),
        None => None,
    }
}

fn listing_of<'a>(body: &'a JsonValue, result: &str) -> (r: Option<&'a JsonValue>)
    ensures
        deref_opt(r) == listing(*body, result@),
{
    match get_opt(get_opt(body.get(result), "lrcdnp"), "rcdnp") {
        Some(v) => Some(v),
        None => get_opt(body.get("lrcdnp"), "rcdnp"),
    }
}

fn listed(items: &Vec<&JsonValue>, fallback: &str) -> (r: Vec<CatastroRecord>)
    ensures
        record_views(r@) == listed_records(deref_all(items@), fallback@),
{
    let ghost xs = deref_all(items@);
    let mut r: Vec<CatastroRecord> = Vec::new();
    let mut i: usize = 0;
    while i < items.len()
        invariant
            i <= items@.len(),
            xs == deref_all(items@),
            record_views(r@) == listed_records(xs.take(i as int), fallback@),
        decreases items@.len() - i,
    {
        let item: &JsonValue = items[i];
        assert(*item == xs[i as int]);
        let reference = match extract_reference(item) {
            Some(s) => s,
            None => String::from_str(fallback),
        };
        let address = match str_opt(get_opt(item.get("dt"), "ldt")) {
            Some(a) => String::from_str(a),
            None => String::new(),
        };
        let rec = CatastroRecord {
            reference,
            address,
            area_text: None,
            use_type: String::from_str("Ver detalle con referencia catastral completa"),
            construction_year: None,
        };
        assert(rec@ =~= listed_record(xs[i as int], fallback@));
        let ghost before = r@;
        r.push(rec);
        assert(r@ == before.push(rec));
        assert(record_views(r@) =~= record_views(before).push(rec@));
        assert(listed_records(xs.take(i + 1), fallback@) =~= listed_records(xs.take(i as int), fallback@).push(listed_record(xs[i as int], fallback@)));
        i = i + 1;
    }
    assert(xs.take(items@.len() as int) =~= xs);
    r
}

/// The properties of an answer to a query by reference.
pub fn parse_catastro_response(body: &JsonValue, reference: &str) -> (r: Vec<CatastroRecord>)
    ensures
        record_views(r@) == reference_records(*body, reference@),
{
    let bi = get_opt(body.get("bico"), "bi");
    match get_opt(bi, "debi") {
        Some(debi) => {
            let address = match str_opt(get_opt(bi, "ldt")) {
                Some(a) => String::from_str(a),
                None => String::new(),
            };
            let use_type = match str_opt(debi.get("luso")) {
                Some(u) => String::from_str(u),
                None => String::from_str("Desconocido"),
            };
            let rec = CatastroRecord {
                reference: String::from_str(reference),
                address,
                area_text: copy_str_opt(str_opt(debi.get("sfc"))),
                use_type,
                construction_year: copy_str_opt(str_opt(debi.get("ant"))),
            };
            let r = vec![rec];
            assert(record_views(r@) =~= reference_records(*body, reference@));
            r
        },
        None => {
            let items = as_array_or_single(listing_of(body, "consulta_dnprcResult"));
            listed(&items, reference)
        },
    }
}

/// The properties of an answer to a query by address.
pub fn parse_catastro_address_response(body: &JsonValue) -> (r: Vec<CatastroRecord>)
    ensures
        record_views(r@) == address_records(*body),
{
    let items = as_array_or_single(listing_of(body, "consulta_dnplocResult"));
    let r = listed(&items, "");
    proof {
        reveal_strlit("");
        assert(""@ =~= Seq::<char>::empty());
    }
    r
}

// ---------------------------------------------------------------------------
// Queries
// ---------------------------------------------------------------------------

/// How a query is made.
pub enum CatastroQuery {
    ByReference { reference: String },
    ByAddress { province: String, municipality: String, street: String, number: String },
}

/// Choose the query: by reference when one is given; else by address,
/// which needs the province, the municipality and the street (a missing
/// street number is empty). Fails when there is neither a reference nor a
/// complete address.
pub fn plan_query(reference: Option<&str>, province: Option<&str>, municipality: Option<&str>, street: Option<&str>, number: Option<&str>) -> (r: Result<CatastroQuery, String>)
    ensures
        r is Err <==> (reference is None && (province is None || municipality is None || street is None)),
        r matches Err(m) ==> m@
            == "Either 'reference' (cadastral reference) or address fields (province, municipality, street) must be provided."@,
        reference matches Some(x) ==> (r matches Ok(CatastroQuery::ByReference { reference: q }) && q@ == x@),
        (reference is None && province is Some && municipality is Some && street is Some) ==> (r matches Ok(CatastroQuery::ByAddress { province: p, municipality: m, street: s, number: n }) && p@ == or_empty(province) && m@ == or_empty(municipality) && s@ == or_empty(street) && n@ == or_empty(number)),
{
    match reference {
        Some(x) => Ok(CatastroQuery::ByReference { reference: String::from_str(x) }),
        None => match (province, municipality, street) {
            (Some(p), Some(m), Some(s)) => Ok(
                CatastroQuery::ByAddress {
                    province: String::from_str(p),
                    municipality: String::from_str(m),
                    street: String::from_str(s),
                    number: String::from_str(unwrap_or_empty(number)),
                },
            ),
            _ => Err(
                String::from_str(
                    "Either 'reference' (cadastral reference) or address fields (province, municipality, street) must be provided.",
                ),
            ),
        },
    }
}

/// Percent-encoding of one character in query parameters: space and the
/// Spanish accented letters; every other character is kept.
pub open spec fn escape_char(c: char) -> Seq<char> {
    if c == ' ' {
        "%20"@
    } else if c == 'á' {
        "%C3%A1"@
    } else if c == 'é' {
        "%C3%A9"@
    } else if c == 'í' {
        "%C3%AD"@
    } else if c == 'ó' {
        "%C3%B3"@
    } else if c == 'ú' {
        "%C3%BA"@
    } else if c == 'ñ' {
        "%C3%B1"@
    } else if c == 'ü' {
        "%C3%BC"@
    } else {
        seq![c]
    }
}

pub open spec fn url_escape(s: Seq<char>) -> Seq<char>
    decreases s.len(),
{
    if s.len() == 0 {
        seq![]
    } else {
        url_escape(s.drop_last()) + escape_char(s.last())
    }
}

fn append_escaped(out: &mut String, c: char)
    ensures
        final(out)@ == old(out)@ + escape_char(c),
{
    if c == ' ' {
        out.append("%20");
    } else if c == 'á' {
        out.append("%C3%A1");
    } else if c == 'é' {
        out.append("%C3%A9");
    } else if c == 'í' {
        out.append("%C3%AD");
    } else if c == 'ó' {
        out.append("%C3%B3");
    } else if c == 'ú' {
        out.append("%C3%BA");
    } else if c == 'ñ' {
        out.append("%C3%B1");
    } else if c == 'ü' {
        out.append("%C3%BC");
    } else {
        push_char(out, c);
    }
}

/// Simple URL encoding for query parameters: spaces and the Spanish accented
/// letters are percent-encoded (their UTF-8 bytes), nothing else.
pub fn urlencoded(s: &str) -> (r: String)
    ensures
        r@ == url_escape(s@),
{
    let cs = crate::text::chars_of(s);
    let mut r = String::new();
    let mut i: usize = 0;
    while i < cs.len()
        invariant
            cs@ == s@,
            i <= cs@.len(),
            r@ == url_escape(cs@.take(i as int)),
        decreases cs@.len() - i,
    {
        assert(cs@.take(i + 1).drop_last() =~= cs@.take(i as int));
        append_escaped(&mut r, cs[i]);
        i = i + 1;
    }
    assert(cs@.take(cs@.len() as int) =~= cs@);
    r
}

/// The value of a hexadecimal digit (either case).
pub open spec fn hex_value(c: char) -> Option<int> {
    if '0' <= c && c <= '9' {
        Some((c as int) - 48)
    } else if 'A' <= c && c <= 'F' {
        Some((c as int) - 55)
    } else if 'a' <= c && c <= 'f' {
        Some((c as int) - 87)
    } else {
        None
    }
}

/// The byte written `%XX` at the start of `t`.
pub open spec fn pct_byte(t: Seq<char>) -> Option<int> {
    if t.len() >= 3 && t[0] == '%' && hex_value(t[1]) is Some && hex_value(t[2]) is Some {
        Some(hex_value(t[1]).unwrap() * 16 + hex_value(t[2]).unwrap())
    } else {
        None
    }
}

/// Percent-decoding: `%XX` of an ASCII byte is that character; `%C3%XX` (the
/// UTF-8 bytes of a letter from U+00C0 to U+00FF) is that letter; every other
/// character is kept.
pub open spec fn percent_decode(t: Seq<char>) -> Seq<char>
    decreases t.len(),
{
    if t.len() == 0 {
        seq![]
    } else if pct_byte(t) is Some && pct_byte(t).unwrap() < 128 {
        seq![pct_byte(t).unwrap() as char] + percent_decode(t.skip(3))
    } else if pct_byte(t) == Some(0xC3int) && pct_byte(t.skip(3)) is Some && 128 <= pct_byte(t.skip(3)).unwrap() < 192 {
        seq![(pct_byte(t.skip(3)).unwrap() + 64) as char] + percent_decode(t.skip(6))
    } else {
        seq![t[0]] + percent_decode(t.skip(1))
    }
}

/// Unreserved characters of URLs: ASCII letters and digits, `-`, `.`, `_`, `~`.
pub open spec fn unreserved(c: char) -> bool {
    ||| ('a' <= c && c <= 'z')
    ||| ('A' <= c && c <= 'Z')
    ||| ('0' <= c && c <= '9')
    ||| c == '-' || c == '.' || c == '_' || c == '~'
}

/// `t` is made of unreserved characters and `%XX` escapes only.
pub open spec fn well_escaped(t: Seq<char>) -> bool
    decreases t.len(),
{
    if t.len() == 0 {
        true
    } else if pct_byte(t) is Some {
        well_escaped(t.skip(3))
    } else {
        unreserved(t[0]) && well_escaped(t.skip(1))
    }
}

/// The characters that `urlencoded` writes as unreserved characters and
/// escapes only: unreserved ones, space and the Spanish accented letters.
pub open spec fn encodable(c: char) -> bool {
    unreserved(c) || c == ' ' || c == 'á' || c == 'é' || c == 'í' || c == 'ó' || c == 'ú' || c == 'ñ' || c == 'ü'
}

proof fn lemma_escape_front(s: Seq<char>)
    requires
        s.len() > 0,
    ensures
        url_escape(s) == escape_char(s[0]) + url_escape(s.drop_first()),
    decreases s.len(),
{
    if s.len() == 1 {
        assert(s.drop_last() =~= Seq::<char>::empty());
        assert(s.drop_first() =~= Seq::<char>::empty());
        assert(url_escape(s) =~= escape_char(s[0]) + url_escape(s.drop_first()));
    } else {
        let dl = s.drop_last();
        lemma_escape_front(dl);
        assert(dl.drop_first() =~= s.drop_first().drop_last());
        assert(s.drop_first().last() == s.last());
        assert(url_escape(s) =~= escape_char(s[0]) + url_escape(s.drop_first()));
    }
}

proof fn lemma_reveal_escapes()
    ensures
        "%20"@ == seq!['%', '2', '0'],
        "%C3%A1"@ == seq!['%', 'C', '3', '%', 'A', '1'],
        "%C3%A9"@ == seq!['%', 'C', '3', '%', 'A', '9'],
        "%C3%AD"@ == seq!['%', 'C', '3', '%', 'A', 'D'],
        "%C3%B3"@ == seq!['%', 'C', '3', '%', 'B', '3'],
        "%C3%BA"@ == seq!['%', 'C', '3', '%', 'B', 'A'],
        "%C3%B1"@ == seq!['%', 'C', '3', '%', 'B', '1'],
        "%C3%BC"@ == seq!['%', 'C', '3', '%', 'B', 'C'],
{
    reveal_strlit("%20");
    reveal_strlit("%C3%A1");
    reveal_strlit("%C3%A9");
    reveal_strlit("%C3%AD");
    reveal_strlit("%C3%B3");
    reveal_strlit("%C3%BA");
    reveal_strlit("%C3%B1");
    reveal_strlit("%C3%BC");
    assert("%20"@ =~= seq!['%', '2', '0']);
    assert("%C3%A1"@ =~= seq!['%', 'C', '3', '%', 'A', '1']);
    assert("%C3%A9"@ =~= seq!['%', 'C', '3', '%', 'A', '9']);
    assert("%C3%AD"@ =~= seq!['%', 'C', '3', '%', 'A', 'D']);
    assert("%C3%B3"@ =~= seq!['%', 'C', '3', '%', 'B', '3']);
    assert("%C3%BA"@ =~= seq!['%', 'C', '3', '%', 'B', 'A']);
    assert("%C3%B1"@ =~= seq!['%', 'C', '3', '%', 'B', '1']);
    assert("%C3%BC"@ =~= seq!['%', 'C', '3', '%', 'B', 'C']);
}

proof fn lemma_decode_escape_char(c: char, rest: Seq<char>)
    requires
        c != '%',
    ensures
        percent_decode(escape_char(c) + rest) == seq![c] + percent_decode(rest),
        well_escaped(rest) && encodable(c) ==> well_escaped(escape_char(c) + rest),
{
    lemma_reveal_escapes();
    let e = escape_char(c);
    let t = e + rest;
    if c == ' ' {
        assert(t.skip(3) =~= rest);
        assert(t[0] == '%' && t[1] == '2' && t[2] == '0');
        assert(pct_byte(t) == Some(32int));
        assert((32int as char) == ' ');
        assert(well_escaped(t) == well_escaped(rest));
    } else if c == 'á' || c == 'é' || c == 'í' || c == 'ó' || c == 'ú' || c == 'ñ' || c == 'ü' {
        assert(t.skip(6) =~= rest);
        assert(t.skip(3).skip(3) =~= rest);
        assert(t[0] == '%' && t[1] == 'C' && t[2] == '3');
        assert(t.skip(3)[0] == '%' && t.skip(3)[1] == e[4] && t.skip(3)[2] == e[5]);
        assert(pct_byte(t) == Some(0xC3int));
        if c == 'á' {
            assert(pct_byte(t.skip(3)) == Some(0xA1int));
        } else if c == 'é' {
            assert(pct_byte(t.skip(3)) == Some(0xA9int));
        } else if c == 'í' {
            assert(pct_byte(t.skip(3)) == Some(0xADint));
        } else if c == 'ó' {
            assert(pct_byte(t.skip(3)) == Some(0xB3int));
        } else if c == 'ú' {
            assert(pct_byte(t.skip(3)) == Some(0xBAint));
        } else if c == 'ñ' {
            assert(pct_byte(t.skip(3)) == Some(0xB1int));
        } else {
            assert(pct_byte(t.skip(3)) == Some(0xBCint));
        }
        assert(((pct_byte(t.skip(3)).unwrap() + 64) as char) == c);
        assert(well_escaped(t.skip(3)) == well_escaped(rest));
        assert(well_escaped(t) == well_escaped(t.skip(3)));
    } else {
        assert(e =~= seq![c]);
        assert(t[0] == c);
        assert(t.skip(1) =~= rest);
        assert(pct_byte(t) is None);
        assert(well_escaped(t) == (unreserved(c) && well_escaped(rest)));
    }
}

/// Percent-decoding what `urlencoded` writes gives the text back, for every
/// text without a `%` (a `%` in the input is kept as it is, so it could be
/// read back as the start of an escape). When the text holds only unreserved
/// characters, spaces and the Spanish accented letters, the encoding is
/// made of unreserved characters and `%XX` escapes only.
pub proof fn urlencoded_roundtrip(s: Seq<char>)
    requires
        forall|k: int| 0 <= k < s.len() ==> s[k] != '%',
    ensures
        percent_decode(url_escape(s)) == s,
        (forall|k: int| 0 <= k < s.len() ==> encodable(#[trigger] s[k])) ==> well_escaped(url_escape(s)),
    decreases s.len(),
{
    if s.len() > 0 {
        lemma_escape_front(s);
        urlencoded_roundtrip(s.drop_first());
        lemma_decode_escape_char(s[0], url_escape(s.drop_first()));
        assert(seq![s[0]] + s.drop_first() =~= s);
        if forall|k: int| 0 <= k < s.len() ==> encodable(#[trigger] s[k]) {
            assert(encodable(s[0]));
            assert forall|k: int| 0 <= k < s.drop_first().len() implies encodable(#[trigger] s.drop_first()[k]) by {
                assert(s.drop_first()[k] == s[k + 1]);
            }
        }
    } else {
        assert(url_escape(s) =~= Seq::<char>::empty());
    }
}

/// Cache key of a reference query: `catastro:ref:{reference}`.
pub fn reference_cache_key(reference: &str) -> (r: String)
    ensures
        r@ == "catastro:ref:"@ + reference@,
{
    join2("catastro:ref:", reference)
}

/// Cache key of an address query:
/// `catastro:addr:{province}:{municipality}:{street}:{number}`.
pub fn address_cache_key(province: &str, municipality: &str, street: &str, number: &str) -> (r: String)
    ensures
        r@ == "catastro:addr:"@ + province@ + ":"@ + municipality@ + ":"@ + street@ + ":"@ + number@,
{
    let mut r = join2("catastro:addr:", province);
    r.append(":");
    r.append(municipality);
    r.append(":");
    r.append(street);
    r.append(":");
    r.append(number);
    r
}

/// Address of a reference query.
pub fn reference_url(base_url: &str, reference: &str) -> (r: String)
    ensures
        r@ == base_url@ + "/OVCServWeb/OVCWcfCallejero/COVCCallejero.svc/json/Consulta_DNPRC?RefCat="@ + reference@,
{
    let mut r = join2(base_url, "/OVCServWeb/OVCWcfCallejero/COVCCallejero.svc/json/Consulta_DNPRC?RefCat=");
    r.append(reference);
    r
}

/// Address of an address query, with each part URL-encoded.
pub fn address_url(base_url: &str, province: &str, municipality: &str, street: &str, number: &str) -> (r: String)
    ensures
        r@ == base_url@ + "/OVCServWeb/OVCWcfCallejero/COVCCallejero.svc/json/Consulta_DNPLOC?Provincia="@
            + url_escape(province@) + "&Municipio="@ + url_escape(municipality@) + "&Sigla=CL&Calle="@
            + url_escape(street@) + "&Numero="@ + url_escape(number@),
{
    let mut r = join2(base_url, "/OVCServWeb/OVCWcfCallejero/COVCCallejero.svc/json/Consulta_DNPLOC?Provincia=");
    r.append(urlencoded(province).as_str());
    r.append("&Municipio=");
    r.append(urlencoded(municipality).as_str());
    r.append("&Sigla=CL&Calle=");
    r.append(urlencoded(street).as_str());
    r.append("&Numero=");
    r.append(urlencoded(number).as_str());
    r
}

/// The answer to a query by reference.
pub struct ReferenceAnswer {
    pub reference: String,
    pub results_count: usize,
    pub properties: Vec<CatastroRecord>,
}

/// The answer to a query by address.
pub struct AddressAnswer {
    pub province: String,
    pub municipality: String,
    pub street: String,
    pub number: String,
    pub results_count: usize,
    pub properties: Vec<CatastroRecord>,
}

/// The answer to a query by reference, from the registry's reply.
pub fn reference_answer(body: &JsonValue, reference: &str) -> (r: ReferenceAnswer)
    ensures
        r.reference@ == reference@,
        record_views(r.properties@) == reference_records(*body, reference@),
        r.results_count == r.properties@.len(),
{
    let properties = parse_catastro_response(body, reference);
    ReferenceAnswer { reference: String::from_str(reference), results_count: properties.len(), properties }
}

/// The answer to a query by address, from the registry's reply.
pub fn address_answer(body: &JsonValue, province: &str, municipality: &str, street: &str, number: &str) -> (r: AddressAnswer)
    ensures
        r.province@ == province@,
        r.municipality@ == municipality@,
        r.street@ == street@,
        r.number@ == number@,
        record_views(r.properties@) == address_records(*body),
        r.results_count == r.properties@.len(),
{
    let properties = parse_catastro_address_response(body);
    AddressAnswer {
        province: String::from_str(province),
        municipality: String::from_str(municipality),
        street: String::from_str(street),
        number: String::from_str(number),
        results_count: properties.len(),
        properties,
    }
}

/// When a reference answer holds a building detail (`bico.bi.debi`), the
/// answer is that one property: the reference asked for, the address
/// `bico.bi.ldt`, the area `sfc`, the use `luso` (`Desconocido` when
/// missing) and the construction year `ant`.
pub proof fn reference_detail_read(body: JsonValue, reference: Seq<char>)
    requires
        jget_opt(jget_opt(jget(body, "bico"@), "bi"@), "debi"@) is Some,
    ensures
        ({
            let bi = jget_opt(jget(body, "bico"@), "bi"@);
            let debi = jget_opt(bi, "debi"@).unwrap();
            let rs = reference_records(body, reference);
            &&& rs.len() == 1
            &&& rs[0].reference == reference
            &&& rs[0].address == match jstr(jget_opt(bi, "ldt"@)) {
                Some(a) => a,
                None => seq![],
            }
            &&& rs[0].area_text == jstr(jget(debi, "sfc"@))
            &&& rs[0].use_type == match jstr(jget(debi, "luso"@)) {
                Some(u) => u,
                None => "Desconocido"@,
            }
            &&& rs[0].construction_year == jstr(jget(debi, "ant"@))
        }),
{
}

/// Every listed property of an answer carries the reference of its own item
/// (`rc.pc1` followed by `rc.pc2`, else the fallback) and its own address
/// `dt.ldt`.
pub proof fn listed_records_read(items: Seq<JsonValue>, fallback: Seq<char>, j: int)
    requires
        0 <= j < items.len(),
    ensures
        ({
            let r = listed_records(items, fallback)[j];
            let rc = jget(items[j], "rc"@);
            &&& listed_records(items, fallback).len() == items.len()
            &&& r.reference == match (jstr(jget_opt(rc, "pc1"@)), jstr(jget_opt(rc, "pc2"@))) {
                (Some(a), Some(b)) => a + b,
                _ => fallback,
            }
            &&& r.address == match jstr(jget_opt(jget(items[j], "dt"@), "ldt"@)) {
                Some(a) => a,
                None => seq![],
            }
        }),
{
}

} // verus!
