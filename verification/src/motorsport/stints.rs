//! Tyre strategy of a race (OpenF1 `/stints`): compound, lap range and tyre
//! age of each stint, with driver names from `/drivers`.

use vstd::prelude::*;
use crate::json::{elements, jget, jstr, ju64, str_opt, u64_member_or, u64_opt, JsonValue};
use crate::text::{decimal, decimal_string, join2};

verus! {

/// One stint of one driver.
pub struct StintRow {
    pub driver_number: u64,
    pub driver_name: String,
    pub stint_number: u64,
    pub compound: String,
    pub lap_start: u64,
    pub lap_end: u64,
    pub laps: u64,
    pub tyre_age_at_start: u64,
}

#[verifier::ext_equal]
pub struct StintRowView {
    pub driver_number: u64,
    pub driver_name: Seq<char>,
    pub stint_number: u64,
    pub compound: Seq<char>,
    pub lap_start: u64,
    pub lap_end: u64,
    pub laps: int,
    pub tyre_age_at_start: u64,
}

impl View for StintRow {
    type V = StintRowView;

    open spec fn view(&self) -> StintRowView {
        StintRowView {
            driver_number: self.driver_number,
            driver_name: self.driver_name@,
            stint_number: self.stint_number,
            compound: self.compound@,
            lap_start: self.lap_start,
            lap_end: self.lap_end,
            laps: self.laps as int,
            tyre_age_at_start: self.tyre_age_at_start,
        }
    }
}

pub open spec fn stint_views(rs: Seq<StintRow>) -> Seq<StintRowView> {
    rs.map_values(|r: StintRow| r@)
}

/// The full name of driver `num`: that of the last driver entry with this
/// number and a full name.
pub open spec fn driver_name_in(drivers: Seq<JsonValue>, num: u64) -> Option<Seq<char>>
    decreases drivers.len(),
{
    if drivers.len() == 0 {
        None
    } else {
        let d = drivers.last();
        if ju64(jget(d, "driver_number"@)) == Some(num) && jstr(jget(d, "full_name"@)) is Some {
            jstr(jget(d, "full_name"@))
        } else {
            driver_name_in(drivers.drop_last(), num)
        }
    }
}

/// The row of a stint entry; entries without an integer driver number,
/// stint number, first lap or last lap are skipped.
pub open spec fn stint_row(stint: JsonValue, drivers: Seq<JsonValue>) -> Option<StintRowView> {
    match (
        ju64(jget(stint, "driver_number"@)),
        ju64(jget(stint, "stint_number"@)),
        ju64(jget(stint, "lap_start"@)),
        ju64(jget(stint, "lap_end"@)),
    ) {
        (Some(num), Some(sn), Some(start), Some(end)) => Some(
            StintRowView {
                driver_number: num,
                driver_name: match driver_name_in(drivers, num) {
                    Some(n) => n,
                    None => "Unknown"@,
                },
                stint_number: sn,
                compound: match jstr(jget(stint, "compound"@)) {
                    Some(c) => c,
                    None => "UNKNOWN"@,
                },
                lap_start: start,
                lap_end: end,
                laps: end - start + 1,
                tyre_age_at_start: match ju64(jget(stint, "tyre_age_at_start"@)) {
                    Some(a) => a,
                    None => 0,
                },
            },
        ),
        _ => None,
    }
}

/// A stint whose lap count can be taken: its last lap is not before its
/// first, and the count fits in 64 bits.
pub open spec fn stint_countable(stint: JsonValue) -> bool {
    match (
        ju64(jget(stint, "driver_number"@)),
        ju64(jget(stint, "stint_number"@)),
        ju64(jget(stint, "lap_start"@)),
        ju64(jget(stint, "lap_end"@)),
    ) {
        (Some(_), Some(_), Some(start), Some(end)) => start <= end && end - start < u64::MAX,
        _ => true,
    }
}

pub open spec fn stints_countable(stints: Seq<JsonValue>) -> bool {
    forall|i: int| 0 <= i < stints.len() ==> stint_countable(#[trigger] stints[i])
}

pub open spec fn stint_rows_of(stints: Seq<JsonValue>, drivers: Seq<JsonValue>) -> Seq<StintRowView>
    decreases stints.len(),
{
    if stints.len() == 0 {
        seq![]
    } else {
        match stint_row(stints.last(), drivers) {
            Some(r) => stint_rows_of(stints.drop_last(), drivers).push(r),
            None => stint_rows_of(stints.drop_last(), drivers),
        }
    }
}

fn driver_name(drivers: &Vec<JsonValue>, num: u64) -> (r: Option<&str>)
    ensures
        match r {
            Some(s) => driver_name_in(drivers@, num) == Some(s@),
            None => driver_name_in(drivers@, num) is None,
        },
{
    let mut k: usize = drivers.len();
    assert(drivers@.take(k as int) =~= drivers@);
    while k > 0
        invariant
            k <= drivers@.len(),
            driver_name_in(drivers@, num) == driver_name_in(drivers@.take(k as int), num),
        decreases k,
    {
        let d = &drivers[k - 1];
        assert(drivers@.take(k as int).drop_last() =~= drivers@.take(k - 1));
        assert(drivers@.take(k as int).last() == drivers@[k - 1]);
        if u64_opt(d.get("driver_number")) == Some(num) {
            match str_opt(d.get("full_name")) {
                Some(s) => {
                    return Some(s);
                },
                None => {},
            }
        }
        k = k - 1;
    }
    None
}

/// Whether every stint's lap count can be taken.
pub fn check_stints(stints_json: &JsonValue) -> (b: bool)
    ensures
        b == stints_countable(elements(*stints_json)),
{
    let empty: Vec<JsonValue> = Vec::new();
    let stints: &Vec<JsonValue> = match stints_json.as_array() {
        Some(a) => a,
        None => &empty,
    };
    let mut i: usize = 0;
    while i < stints.len()
        invariant
            i <= stints@.len(),
            stints@ == elements(*stints_json),
            forall|j: int| 0 <= j < i ==> stint_countable(#[trigger] stints@[j]),
        decreases stints@.len() - i,
    {
        let s = &stints[i];
        let ok = match (
            u64_opt(s.get("driver_number")),
            u64_opt(s.get("stint_number")),
            u64_opt(s.get("lap_start")),
            u64_opt(s.get("lap_end")),
        ) {
            (Some(_), Some(_), Some(start), Some(end)) => start <= end && end - start < u64::MAX,
            _ => true,
        };
        if !ok {
            assert(!stint_countable(stints@[i as int]));
            return false;
        }
        i = i + 1;
    }
    true
}

/// The rows of a `/stints` answer, with names from a `/drivers` answer
/// (`Unknown` when the driver has none), in order.
pub fn stint_rows(stints_json: &JsonValue, drivers_json: &JsonValue) -> (r: Vec<StintRow>)
    requires
        stints_countable(elements(*stints_json)),
    ensures
        stint_views(r@) == stint_rows_of(elements(*stints_json), elements(*drivers_json)),
{
    let empty: Vec<JsonValue> = Vec::new();
    let empty2: Vec<JsonValue> = Vec::new();
    let stints: &Vec<JsonValue> = match stints_json.as_array() {
        Some(a) => a,
        None => &empty,
    };
    let drivers: &Vec<JsonValue> = match drivers_json.as_array() {
        Some(a) => a,
        None => &empty2,
    };
    let ghost ds = drivers@;
    assert(ds == elements(*drivers_json));
    let mut r: Vec<StintRow> = Vec::new();
    let mut i: usize = 0;
    while i < stints.len()
        invariant
            i <= stints@.len(),
            stints@ == elements(*stints_json),
            stints_countable(stints@),
            ds == drivers@,
            stint_views(r@) == stint_rows_of(stints@.take(i as int), ds),
        decreases stints@.len() - i,
    {
        let s = &stints[i];
        assert(stints@.take(i + 1).drop_last() =~= stints@.take(i as int));
        assert(stints@.take(i + 1).last() == stints@[i as int]);
        assert(stint_countable(stints@[i as int]));
        match (
            u64_opt(s.get("driver_number")),
            u64_opt(s.get("stint_number")),
            u64_opt(s.get("lap_start")),
            u64_opt(s.get("lap_end")),
        ) {
            (Some(num), Some(sn), Some(start), Some(end)) => {
                let compound = match str_opt(s.get("compound")) {
                    Some(c) => String::from_str(c),
                    None => String::from_str("UNKNOWN"),
                };
                let name = match driver_name(drivers, num) {
                    Some(n) => String::from_str(n),
                    None => String::from_str("Unknown"),
                };
                let row = StintRow {
                    driver_number: num,
                    driver_name: name,
                    stint_number: sn,
                    compound,
                    lap_start: start,
                    lap_end: end,
                    laps: end - start + 1,
                    tyre_age_at_start: u64_member_or(s, "tyre_age_at_start", 0),
                };
                let ghost before = r@;
                r.push(row);
                assert(row@ =~= stint_row(stints@[i as int], ds).unwrap());
                assert(stint_views(r@) =~= stint_views(before).push(row@));
            },
            _ => {},
        }
        i = i + 1;
    }
    assert(stints@.take(stints@.len() as int) =~= stints@);
    r
}

/// The tyre stints of a race.
pub struct TireStints {
    pub year: u16,
    pub grand_prix: String,
    pub driver_filter: Option<String>,
    pub stints_count: usize,
    pub stints: Vec<StintRow>,
}

/// The tyre stints answer from the `/stints` and `/drivers` answers.
pub fn tire_stints(year: u16, grand_prix: &str, driver: Option<&str>, stints_json: &JsonValue, drivers_json: &JsonValue) -> (r: TireStints)
    requires
        stints_countable(elements(*stints_json)),
    ensures
        r.year == year,
        r.grand_prix@ == grand_prix@,
        match driver {
            Some(d) => r.driver_filter matches Some(f) && f@ == d@,
            None => r.driver_filter is None,
        },
        stint_views(r.stints@) == stint_rows_of(elements(*stints_json), elements(*drivers_json)),
        r.stints_count == r.stints@.len(),
{
    let stints = stint_rows(stints_json, drivers_json);
    let filter = match driver {
        Some(d) => Some(String::from_str(d)),
        None => None,
    };
    TireStints { year, grand_prix: String::from_str(grand_prix), driver_filter: filter, stints_count: stints.len(), stints }
}

/// `{base}/stints?session_key={key}`, with `&driver_number={number}` when
/// one driver is asked for.
pub fn stints_url(base_url: &str, session_key: u64, driver_number: Option<u16>) -> (r: String)
    ensures
        r@ == base_url@ + "/stints?session_key="@ + decimal(session_key as nat) + match driver_number {
            Some(n) => "&driver_number="@ + decimal(n as nat),
            None => seq![],
        },
{
    let mut r = join2(base_url, "/stints?session_key=");
    r.append(decimal_string(session_key).as_str());
    match driver_number {
        Some(n) => {
            r.append("&driver_number=");
            r.append(decimal_string(n as u64).as_str());
        },
        None => {
            assert(r@ + Seq::<char>::empty() =~= r@);
        },
    }
    r
}

/// Cache key: `tire_stints:{key}:{number}`, or `...:all` for every driver.
pub fn stints_cache_key(session_key: u64, driver_number: Option<u16>) -> (r: String)
    ensures
        r@ == "tire_stints:"@ + decimal(session_key as nat) + ":"@ + match driver_number {
            Some(n) => decimal(n as nat),
            None => "all"@,
        },
{
    let mut r = join2("tire_stints:", decimal_string(session_key).as_str());
    r.append(":");
    match driver_number {
        Some(n) => r.append(decimal_string(n as u64).as_str()),
        None => r.append("all"),
    }
    r
}

/// `r` is the row of the stint entry `e`: its driver and stint numbers, its
/// first and last lap, the lap count `last - first + 1`, its compound
/// (`UNKNOWN` when it has none) and its integer tyre age (0 when it has none).
pub open spec fn row_of_entry(r: StintRowView, e: JsonValue) -> bool {
    &&& Some(r.driver_number) == ju64(jget(e, "driver_number"@))
    &&& Some(r.stint_number) == ju64(jget(e, "stint_number"@))
    &&& Some(r.lap_start) == ju64(jget(e, "lap_start"@))
    &&& Some(r.lap_end) == ju64(jget(e, "lap_end"@))
    &&& r.laps == r.lap_end - r.lap_start + 1
    &&& r.compound == match jstr(jget(e, "compound"@)) {
        Some(c) => c,
        None => "UNKNOWN"@,
    }
    &&& r.tyre_age_at_start == match ju64(jget(e, "tyre_age_at_start"@)) {
        Some(a) => a,
        None => 0u64,
    }
}

/// Every stint entry that has integer driver and stint numbers and first and
/// last laps gives a row that carries exactly its numbers, lap count,
/// compound and tyre age.
pub proof fn stint_rows_complete(stints: Seq<JsonValue>, drivers: Seq<JsonValue>, j: int)
    requires
        0 <= j < stints.len(),
        ju64(jget(stints[j], "driver_number"@)) is Some,
        ju64(jget(stints[j], "stint_number"@)) is Some,
        ju64(jget(stints[j], "lap_start"@)) is Some,
        ju64(jget(stints[j], "lap_end"@)) is Some,
    ensures
        exists|k: int|
            0 <= k < stint_rows_of(stints, drivers).len() && #[trigger] row_of_entry(stint_rows_of(stints, drivers)[k], stints[j]),
    decreases stints.len(),
{
    let rest = stints.drop_last();
    let prev = stint_rows_of(rest, drivers);
    if j == stints.len() - 1 {
        let row = stint_row(stints.last(), drivers).unwrap();
        let rows = prev.push(row);
        assert(rows[prev.len() as int] == row);
        assert(row_of_entry(rows[prev.len() as int], stints[j]));
        assert(stint_rows_of(stints, drivers) == rows);
        assert(row_of_entry(stint_rows_of(stints, drivers)[prev.len() as int], stints[j]));
    } else {
        assert(rest[j] == stints[j]);
        stint_rows_complete(rest, drivers, j);
        let k = choose|k: int| 0 <= k < prev.len() && #[trigger] row_of_entry(prev[k], stints[j]);
        match stint_row(stints.last(), drivers) {
            Some(r) => {
                assert(prev.push(r)[k] == prev[k]);
                assert(stint_rows_of(stints, drivers) == prev.push(r));
            },
            None => {
                assert(stint_rows_of(stints, drivers) == prev);
            },
        }
        assert(row_of_entry(stint_rows_of(stints, drivers)[k], stints[j]));
    }
}

} // verus!
