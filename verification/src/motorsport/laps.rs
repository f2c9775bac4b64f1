//! Lap-by-lap timing of one driver in a session (OpenF1 `/laps`).

use vstd::prelude::*;
use crate::json::{
    bool_opt, elements, jbool, jget, jnumber_text, ju64, number_opt, number_view, u64_opt,
    JsonNumber, JsonValue,
};
use crate::text::{decimal, decimal_string, join2};

verus! {

/// One lap: its number, its duration and sector times (the numbers as sent;
/// absent when not a number), and whether it is a pit-out lap.
pub struct LapRow {
    pub lap_number: u64,
    pub duration_seconds: Option<JsonNumber>,
    pub sector_1: Option<JsonNumber>,
    pub sector_2: Option<JsonNumber>,
    pub sector_3: Option<JsonNumber>,
    pub is_pit_out_lap: bool,
}

#[verifier::ext_equal]
pub struct LapRowView {
    pub lap_number: u64,
    pub duration_seconds: Option<Seq<char>>,
    pub sector_1: Option<Seq<char>>,
    pub sector_2: Option<Seq<char>>,
    pub sector_3: Option<Seq<char>>,
    pub is_pit_out_lap: bool,
}

impl View for LapRow {
    type V = LapRowView;

    open spec fn view(&self) -> LapRowView {
        LapRowView {
            lap_number: self.lap_number,
            duration_seconds: number_view(self.duration_seconds),
            sector_1: number_view(self.sector_1),
            sector_2: number_view(self.sector_2),
            sector_3: number_view(self.sector_3),
            is_pit_out_lap: self.is_pit_out_lap,
        }
    }
}

pub open spec fn lap_views(rs: Seq<LapRow>) -> Seq<LapRowView> {
    rs.map_values(|r: LapRow| r@)
}

/// The row of a lap entry; entries without an integer lap number are skipped.
pub open spec fn lap_row(lap: JsonValue) -> Option<LapRowView> {
    match ju64(jget(lap, "lap_number"@)) {
        Some(n) => Some(
            LapRowView {
                lap_number: n,
                duration_seconds: jnumber_text(jget(lap, "lap_duration"@)),
                sector_1: jnumber_text(jget(lap, "duration_sector_1"@)),
                sector_2: jnumber_text(jget(lap, "duration_sector_2"@)),
                sector_3: jnumber_text(jget(lap, "duration_sector_3"@)),
                is_pit_out_lap: match jbool(jget(lap, "is_pit_out_lap"@)) {
                    Some(b) => b,
                    None => false,
                },
            },
        ),
        None => None,
    }
}

pub open spec fn lap_rows_of(laps: Seq<JsonValue>) -> Seq<LapRowView>
    decreases laps.len(),
{
    if laps.len() == 0 {
        seq![]
    } else {
        match lap_row(laps.last()) {
            Some(r) => lap_rows_of(laps.drop_last()).push(r),
            None => lap_rows_of(laps.drop_last()),
        }
    }
}

/// The rows of a `/laps` answer, in order.
pub fn lap_rows(laps_json: &JsonValue) -> (r: Vec<LapRow>)
    ensures
        lap_views(r@) == lap_rows_of(elements(*laps_json)),
{
    let empty: Vec<JsonValue> = Vec::new();
    let laps: &Vec<JsonValue> = match laps_json.as_array() {
        Some(a) => a,
        None => &empty,
    };
    assert(laps@ == elements(*laps_json));
    let mut r: Vec<LapRow> = Vec::new();
    let mut i: usize = 0;
    while i < laps.len()
        invariant
            i <= laps@.len(),
            lap_views(r@) == lap_rows_of(laps@.take(i as int)),
        decreases laps@.len() - i,
    {
        let lap = &laps[i];
        assert(laps@.take(i + 1).drop_last() =~= laps@.take(i as int));
        assert(laps@.take(i + 1).last() == laps@[i as int]);
        match u64_opt(lap.get("lap_number")) {
            Some(n) => {
                let pit = match bool_opt(lap.get("is_pit_out_lap")) {
                    Some(b) => b,
                    None => false,
                };
                let row = LapRow {
                    lap_number: n,
                    duration_seconds: number_opt(lap.get("lap_duration")),
                    sector_1: number_opt(lap.get("duration_sector_1")),
                    sector_2: number_opt(lap.get("duration_sector_2")),
                    sector_3: number_opt(lap.get("duration_sector_3")),
                    is_pit_out_lap: pit,
                };
                let ghost before = r@;
                r.push(row);
                assert(row@ =~= lap_row(laps@[i as int]).unwrap());
                assert(lap_views(r@) =~= lap_views(before).push(row@));
            },
            None => {},
        }
        i = i + 1;
    }
    assert(laps@.take(laps@.len() as int) =~= laps@);
    r
}

/// Lap times of one driver in a session.
pub struct LapTimes {
    pub year: u16,
    pub grand_prix: String,
    pub session: String,
    pub driver: String,
    pub driver_number: u16,
    pub laps_count: usize,
    pub laps: Vec<LapRow>,
}

/// The lap times answer from a `/laps` answer.
pub fn lap_times(year: u16, grand_prix: &str, session: &str, driver: &str, driver_number: u16, laps_json: &JsonValue) -> (r: LapTimes)
    ensures
        r.year == year,
        r.grand_prix@ == grand_prix@,
        r.session@ == session@,
        r.driver@ == driver@,
        r.driver_number == driver_number,
        lap_views(r.laps@) == lap_rows_of(elements(*laps_json)),
        r.laps_count == r.laps@.len(),
{
    let laps = lap_rows(laps_json);
    LapTimes {
        year,
        grand_prix: String::from_str(grand_prix),
        session: String::from_str(session),
        driver: String::from_str(driver),
        driver_number,
        laps_count: laps.len(),
        laps,
    }
}

/// `{base}/laps?session_key={key}&driver_number={number}`.
pub fn laps_url(base_url: &str, session_key: u64, driver_number: u16) -> (r: String)
    ensures
        r@ == base_url@ + "/laps?session_key="@ + decimal(session_key as nat) + "&driver_number="@
            + decimal(driver_number as nat),
{
    let mut r = join2(base_url, "/laps?session_key=");
    r.append(decimal_string(session_key).as_str());
    r.append("&driver_number=");
    r.append(decimal_string(driver_number as u64).as_str());
    r
}

/// Cache key of a driver's lap times: `lap_times:{key}:{number}`.
pub fn lap_times_cache_key(session_key: u64, driver_number: u16) -> (r: String)
    ensures
        r@ == "lap_times:"@ + decimal(session_key as nat) + ":"@ + decimal(driver_number as nat),
{
    let mut r = join2("lap_times:", decimal_string(session_key).as_str());
    r.append(":");
    r.append(decimal_string(driver_number as u64).as_str());
    r
}

/// `r` is the row of the lap entry `e`: its lap number, the numbers under
/// `lap_duration` and `duration_sector_1` to `_3` (absent when not numbers),
/// and its pit-out flag (false when it has none).
pub open spec fn lap_of_entry(r: LapRowView, e: JsonValue) -> bool {
    &&& Some(r.lap_number) == ju64(jget(e, "lap_number"@))
    &&& r.duration_seconds == jnumber_text(jget(e, "lap_duration"@))
    &&& r.sector_1 == jnumber_text(jget(e, "duration_sector_1"@))
    &&& r.sector_2 == jnumber_text(jget(e, "duration_sector_2"@))
    &&& r.sector_3 == jnumber_text(jget(e, "duration_sector_3"@))
    &&& r.is_pit_out_lap == (jbool(jget(e, "is_pit_out_lap"@)) == Some(true))
}

/// Every lap entry with an integer lap number gives a row that carries its
/// lap duration and its three sector times, each from its own member.
pub proof fn lap_rows_complete(laps: Seq<JsonValue>, j: int)
    requires
        0 <= j < laps.len(),
        ju64(jget(laps[j], "lap_number"@)) is Some,
    ensures
        exists|k: int| 0 <= k < lap_rows_of(laps).len() && #[trigger] lap_of_entry(lap_rows_of(laps)[k], laps[j]),
    decreases laps.len(),
{
    let rest = laps.drop_last();
    let prev = lap_rows_of(rest);
    if j == laps.len() - 1 {
        let row = lap_row(laps.last()).unwrap();
        let rows = prev.push(row);
        assert(rows[prev.len() as int] == row);
        assert(lap_of_entry(rows[prev.len() as int], laps[j]));
        assert(lap_rows_of(laps) == rows);
        assert(lap_of_entry(lap_rows_of(laps)[prev.len() as int], laps[j]));
    } else {
        assert(rest[j] == laps[j]);
        lap_rows_complete(rest, j);
        let k = choose|k: int| 0 <= k < prev.len() && #[trigger] lap_of_entry(prev[k], laps[j]);
        match lap_row(laps.last()) {
            Some(r) => {
                assert(prev.push(r)[k] == prev[k]);
                assert(lap_rows_of(laps) == prev.push(r));
            },
            None => {
                assert(lap_rows_of(laps) == prev);
            },
        }
        assert(lap_of_entry(lap_rows_of(laps)[k], laps[j]));
    }
}

} // verus!
