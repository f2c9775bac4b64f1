//! Resolution of sessions and drivers against the OpenF1 API: request
//! addresses, cache keys, and the reading of the `/sessions` and `/drivers`
//! answers.

use vstd::prelude::*;
use crate::json::{array_opt, jarray, jget, jstr, ju64, str_opt, u64_opt, JsonValue};
use crate::text::{
    parse_u16, parse_u16_spec, contains_chars, contains_seq, decimal, decimal_string, join2, join3, lower_chars, lowercase,
};

verus! {

/// `{base}/sessions?year={year}&country_name={grand_prix}&session_name={session}`.
pub fn sessions_url(base_url: &str, year: u16, grand_prix: &str, session: &str) -> (r: String)
    ensures
        r@ == base_url@ + "/sessions?year="@ + decimal(year as nat) + "&country_name="@ + grand_prix@
            + "&session_name="@ + session@,
{
    let mut r = join2(base_url, "/sessions?year=");
    r.append(decimal_string(year as u64).as_str());
    r.append("&country_name=");
    r.append(grand_prix);
    r.append("&session_name=");
    r.append(session);
    r
}

/// Cache key of a session: `session_key:{year}:{grand_prix}:{session}`.
pub fn session_cache_key(year: u16, grand_prix: &str, session: &str) -> (r: String)
    ensures
        r@ == "session_key:"@ + decimal(year as nat) + ":"@ + grand_prix@ + ":"@ + session@,
{
    let mut r = join2("session_key:", decimal_string(year as u64).as_str());
    r.append(":");
    r.append(grand_prix);
    r.append(":");
    r.append(session);
    r
}

/// Outcome of reading a `/sessions` answer.
pub enum SessionLookup {
    /// The `session_key` of the first session.
    Found(u64),
    /// The answer is not a list of sessions.
    NotAList,
    /// The list is empty, or its first session has no integer key.
    NoSession,
}

/// The `session_key` of the first session of a `/sessions` answer.
pub fn first_session_key(answer: &JsonValue) -> (r: SessionLookup)
    ensures
        match jarray(Some(*answer)) {
            None => r is NotAList,
            Some(sessions) => {
                let key = if sessions.len() > 0 {
                    ju64(jget(sessions[0], "session_key"@))
                } else {
                    None
                };
                match key {
                    Some(k) => r == SessionLookup::Found(k),
                    None => r is NoSession,
                }
            },
        },
{
    match answer.as_array() {
        None => SessionLookup::NotAList,
        Some(sessions) => {
            if sessions.len() == 0 {
                return SessionLookup::NoSession;
            }
            match u64_opt(sessions[0].get("session_key")) {
                Some(k) => SessionLookup::Found(k),
                None => SessionLookup::NoSession,
            }
        },
    }
}

/// Message when no session matches.
pub fn no_session_message(year: u16, grand_prix: &str, session: &str) -> (r: String)
    ensures
        r@ == "no session found for year="@ + decimal(year as nat) + ", gp="@ + grand_prix@
            + ", session="@ + session@,
{
    let mut r = join2("no session found for year=", decimal_string(year as u64).as_str());
    r.append(", gp=");
    r.append(grand_prix);
    r.append(", session=");
    r.append(session);
    r
}

/// A driver given by number needs no lookup: the number, when `driver`
/// reads as a 16-bit unsigned integer the way `str::parse::<u16>` reads it.
pub fn numeric_driver(driver: &str) -> (r: Option<u16>)
    ensures
        r == parse_u16_spec(driver@),
{
    parse_u16(driver)
}

/// `{base}/drivers?session_key={key}`.
pub fn drivers_url(base_url: &str, session_key: u64) -> (r: String)
    ensures
        r@ == base_url@ + "/drivers?session_key="@ + decimal(session_key as nat),
{
    join3(base_url, "/drivers?session_key=", decimal_string(session_key).as_str())
}

/// Cache key of the drivers of a session: `drivers:{key}`.
pub fn drivers_cache_key(session_key: u64) -> (r: String)
    ensures
        r@ == "drivers:"@ + decimal(session_key as nat),
{
    join2("drivers:", decimal_string(session_key).as_str())
}

pub open spec fn lower_equals(v: Option<Seq<char>>, needle: Seq<char>) -> bool {
    match v {
        Some(s) => lowercase(s) == needle,
        None => false,
    }
}

pub open spec fn lower_contains(v: Option<Seq<char>>, needle: Seq<char>) -> bool {
    match v {
        Some(s) => contains_seq(lowercase(s), needle),
        None => false,
    }
}

/// A driver entry matches the lower-cased `needle` by acronym, by first or
/// last name (whole, case-insensitively), or by a part of the full name.
pub open spec fn driver_matches(d: JsonValue, needle: Seq<char>) -> bool {
    ||| lower_equals(jstr(jget(d, "name_acronym"@)), needle)
    ||| lower_contains(jstr(jget(d, "full_name"@)), needle)
    ||| lower_equals(jstr(jget(d, "first_name"@)), needle)
    ||| lower_equals(jstr(jget(d, "last_name"@)), needle)
}

/// The number of the first entry that matches and has an integer number.
pub open spec fn first_matching_number(ds: Seq<JsonValue>, needle: Seq<char>) -> Option<u64>
    decreases ds.len(),
{
    if ds.len() == 0 {
        None
    } else if driver_matches(ds[0], needle) && ju64(jget(ds[0], "driver_number"@)) is Some {
        ju64(jget(ds[0], "driver_number"@))
    } else {
        first_matching_number(ds.drop_first(), needle)
    }
}

/// Whether the optional string lower-cases to `needle`.
fn lower_is(v: Option<&str>, needle: &[char]) -> (b: bool)
    ensures
        b == lower_equals(
            match v {
                Some(s) => Some(s@),
                None => None,
            },
            needle@,
        ),
{
    match v {
        Some(s) => {
            let l = lower_chars(s);
            chars_equal(&l, needle)
        },
        None => false,
    }
}

/// Character-wise equality.
fn chars_equal(a: &[char], b: &[char]) -> (r: bool)
    ensures
        r == (a@ == b@),
{
    if a.len() != b.len() {
        return false;
    }
    let mut i: usize = 0;
    while i < a.len()
        invariant
            a@.len() == b@.len(),
            i <= a@.len(),
            forall|k: int| 0 <= k < i ==> a@[k] == b@[k],
        decreases a@.len() - i,
    {
        if a[i] != b[i] {
            return false;
        }
        i = i + 1;
    }
    assert(a@ =~= b@);
    true
}

fn matches_driver(d: &JsonValue, needle: &[char]) -> (b: bool)
    ensures
        b == driver_matches(*d, needle@),
{
    let acronym = lower_is(str_opt(d.get("name_acronym")), needle);
    let full = match str_opt(d.get("full_name")) {
        Some(s) => {
            let l = lower_chars(s);
            contains_chars(&l, needle)
        },
        None => false,
    };
    let first = lower_is(str_opt(d.get("first_name")), needle);
    let last = lower_is(str_opt(d.get("last_name")), needle);
    acronym || full || first || last
}

/// The answer to a driver lookup: the number of the first driver of the
/// session that matches `driver` (case-insensitively) and has a number.
/// Fails when the answer is not a list, when no driver matches, or when the
/// number does not fit in 16 bits.
pub fn match_driver(drivers: &JsonValue, driver: &str, session_key: u64) -> (r: Result<u16, String>)
    ensures
        match jarray(Some(*drivers)) {
            None => r matches Err(m) && m@ == "drivers response is not an array"@,
            Some(ds) => match first_matching_number(ds, lowercase(driver@)) {
                Some(n) => if n <= u16::MAX {
                    r == Ok::<u16, String>(n as u16)
                } else {
                    r matches Err(m) && m@ == "driver_number "@ + decimal(n as nat) + " out of u16 range"@
                },
                None => r matches Err(m) && m@ == "no driver matching '"@ + driver@ + "' found in session "@ + decimal(session_key as nat),
            },
        },
{
    let ds = match drivers.as_array() {
        Some(ds) => ds,
        None => return Err(String::from_str("drivers response is not an array")),
    };
    let needle = lower_chars(driver);
    let ghost n = needle@;
    let mut i: usize = 0;
    assert(ds@.skip(0) =~= ds@);
    while i < ds.len()
        invariant
            i <= ds@.len(),
            n == needle@,
            n == lowercase(driver@),
            jarray(Some(*drivers)) == Some(ds@),
            first_matching_number(ds@, n) == first_matching_number(ds@.skip(i as int), n),
        decreases ds@.len() - i,
    {
        let d = &ds[i];
        assert(ds@.skip(i as int)[0] == ds@[i as int]);
        assert(ds@.skip(i as int).drop_first() =~= ds@.skip(i + 1));
        if matches_driver(d, &needle) {
            match u64_opt(d.get("driver_number")) {
                Some(num) => {
                    if num <= 65535 {
                        return Ok(num as u16);
                    } else {
                        let mut m = join2("driver_number ", decimal_string(num).as_str());
                        m.append(" out of u16 range");
                        return Err(m);
                    }
                },
                None => {},
            }
        }
        i = i + 1;
    }
    let mut m = join3("no driver matching '", driver, "' found in session ");
    m.append(decimal_string(session_key).as_str());
    Err(m)
}

/// A driver entry names the lower-cased `needle` when its acronym, its first
/// name or its last name lower-cases to it, or its lower-cased full name
/// contains it.
pub open spec fn names_driver(d: JsonValue, needle: Seq<char>) -> bool {
    ||| (jstr(jget(d, "name_acronym"@)) matches Some(a) && lowercase(a) == needle)
    ||| (jstr(jget(d, "full_name"@)) matches Some(f) && contains_seq(lowercase(f), needle))
    ||| (jstr(jget(d, "first_name"@)) matches Some(f) && lowercase(f) == needle)
    ||| (jstr(jget(d, "last_name"@)) matches Some(l) && lowercase(l) == needle)
}

/// The lookup answers the number of the first numbered driver entry named
/// by the needle (by acronym, first name, last name, or a part of the full
/// name), whatever later entries hold.
pub proof fn driver_lookup_first(ds: Seq<JsonValue>, needle: Seq<char>, j: int)
    requires
        0 <= j < ds.len(),
        names_driver(ds[j], needle),
        ju64(jget(ds[j], "driver_number"@)) is Some,
        forall|i: int|
            0 <= i < j ==> !(names_driver(#[trigger] ds[i], needle) && ju64(jget(ds[i], "driver_number"@)) is Some),
    ensures
        first_matching_number(ds, needle) == ju64(jget(ds[j], "driver_number"@)),
    decreases ds.len(),
{
    if j > 0 {
        let rest = ds.drop_first();
        assert(names_driver(ds[0], needle) == driver_matches(ds[0], needle));
        assert(rest[j - 1] == ds[j]);
        assert forall|i: int| 0 <= i < j - 1 implies !(names_driver(#[trigger] rest[i], needle) && ju64(
            jget(rest[i], "driver_number"@),
        ) is Some) by {
            assert(rest[i] == ds[i + 1]);
        }
        driver_lookup_first(rest, needle, j - 1);
    } else {
        assert(names_driver(ds[0], needle) == driver_matches(ds[0], needle));
    }
}

/// When no numbered entry is named by the needle, the lookup finds nothing.
pub proof fn driver_lookup_none(ds: Seq<JsonValue>, needle: Seq<char>)
    requires
        forall|i: int|
            0 <= i < ds.len() ==> !(names_driver(#[trigger] ds[i], needle) && ju64(jget(ds[i], "driver_number"@)) is Some),
    ensures
        first_matching_number(ds, needle) is None,
    decreases ds.len(),
{
    if ds.len() > 0 {
        let rest = ds.drop_first();
        assert(names_driver(ds[0], needle) == driver_matches(ds[0], needle));
        assert forall|i: int| 0 <= i < rest.len() implies !(names_driver(#[trigger] rest[i], needle) && ju64(
            jget(rest[i], "driver_number"@),
        ) is Some) by {
            assert(rest[i] == ds[i + 1]);
        }
        driver_lookup_none(rest, needle);
    }
}

} // verus!
