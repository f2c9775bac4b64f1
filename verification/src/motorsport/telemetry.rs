//! Car telemetry (OpenF1 `/car_data`): speed, throttle, brake, gear, DRS and
//! engine speed samples of one driver, optionally within one lap.

use vstd::prelude::*;
use crate::json::{
    jarray, jget, jnumber_text, jstr, ju64, number_opt, number_view, str_member, str_member_of,
    str_opt, u64_member_or, u64_opt, JsonNumber, JsonValue,
};
use crate::spain::boe::opt_string_view;
use crate::text::{decimal, decimal_string, join2};

verus! {

/// Cache key: `telemetry:{key}:{number}:{lap}`, with `all` for every lap.
pub fn telemetry_cache_key(session_key: u64, driver_number: u16, lap: Option<u16>) -> (r: String)
    ensures
        r@ == "telemetry:"@ + decimal(session_key as nat) + ":"@ + decimal(driver_number as nat) + ":"@
            + match lap {
            Some(l) => decimal(l as nat),
            None => "all"@,
        },
{
    let mut r = join2("telemetry:", decimal_string(session_key).as_str());
    r.append(":");
    r.append(decimal_string(driver_number as u64).as_str());
    r.append(":");
    match lap {
        Some(l) => r.append(decimal_string(l as u64).as_str()),
        None => r.append("all"),
    }
    r
}

/// `{base}/laps?session_key={key}&driver_number={number}&lap_number={lap}`.
pub fn lap_url(base_url: &str, session_key: u64, driver_number: u16, lap: u16) -> (r: String)
    ensures
        r@ == base_url@ + "/laps?session_key="@ + decimal(session_key as nat) + "&driver_number="@
            + decimal(driver_number as nat) + "&lap_number="@ + decimal(lap as nat),
{
    let mut r = join2(base_url, "/laps?session_key=");
    r.append(decimal_string(session_key).as_str());
    r.append("&driver_number=");
    r.append(decimal_string(driver_number as u64).as_str());
    r.append("&lap_number=");
    r.append(decimal_string(lap as u64).as_str());
    r
}

/// What a lap answer tells of the lap's time window: the start timestamp
/// and the duration of its first entry.
pub struct LapWindow {
    pub date_start: Option<String>,
    pub lap_duration: Option<JsonNumber>,
}

/// The start and duration of the first lap entry, or none when the answer
/// has no entry.
pub fn lap_window(laps_json: &JsonValue) -> (r: Option<LapWindow>)
    ensures
        match jarray(Some(*laps_json)) {
            Some(laps) => if laps.len() > 0 {
                r matches Some(w) && (match w.date_start {
                    Some(s) => jstr(jget(laps[0], "date_start"@)) == Some(s@),
                    None => jstr(jget(laps[0], "date_start"@)) is None,
                }) && number_view(w.lap_duration) == jnumber_text(jget(laps[0], "lap_duration"@))
            } else {
                r is None
            },
            None => r is None,
        },
{
    match laps_json.as_array() {
        Some(laps) => {
            if laps.len() == 0 {
                return None;
            }
            let first = &laps[0];
            let start = match str_opt(first.get("date_start")) {
                Some(s) => Some(String::from_str(s)),
                None => None,
            };
            Some(LapWindow { date_start: start, lap_duration: number_opt(first.get("lap_duration")) })
        },
        None => None,
    }
}

/// What chrono gives for an RFC 3339 timestamp moved by a number of
/// milliseconds: the moved instant written by `DateTime::to_rfc3339` (in the
/// timestamp's own offset); none when the text is not an RFC 3339 timestamp
/// or the moved instant is outside chrono's range.
pub uninterp spec fn rfc3339_plus_millis(start: Seq<char>, millis: int) -> Option<Seq<char>>;

/// Calls chrono's `DateTime::parse_from_rfc3339`, `TimeDelta::milliseconds`,
/// `DateTime::checked_add_signed` and `DateTime::to_rfc3339` in turn: one
/// computation on plain values, whose result is named by
/// `rfc3339_plus_millis`. `checked_add_signed` is what `+` calls before it
/// panics on overflow; here an overflow gives `None`. `TimeDelta::milliseconds`
/// panics on `i64::MIN` only, which `requires` leaves out.
#[verifier::external_body]
fn rfc3339_shift(start: &str, millis: i64) -> (r: Option<String>)
    requires
        millis != i64::MIN,
    ensures
        opt_string_view(r) == rfc3339_plus_millis(start@, millis as int),
{
    match chrono::DateTime::parse_from_rfc3339(start) {
        Ok(t) => match t.checked_add_signed(chrono::TimeDelta::milliseconds(millis)) {
            Some(end) => Some(end.to_rfc3339()),
            None => None,
        },
        Err(_) => None,
    }
}

/// The end of a lap's time window: the lap's start moved by its duration in
/// milliseconds; none when either is missing or the start does not read as
/// an RFC 3339 timestamp.
pub fn lap_window_end(date_start: Option<&str>, duration_millis: Option<i64>) -> (r: Option<String>)
    requires
        duration_millis != Some(i64::MIN),
    ensures
        match (date_start, duration_millis) {
            (Some(s), Some(ms)) => opt_string_view(r) == rfc3339_plus_millis(s@, ms as int),
            _ => r is None,
        },
{
    match (date_start, duration_millis) {
        (Some(s), Some(ms)) => rfc3339_shift(s, ms),
        _ => None,
    }
}

/// `{base}/car_data?session_key={key}&driver_number={number}`, then
/// `&date>{start}` and `&date<{end}` for the bounds that are given.
pub fn car_data_url(base_url: &str, session_key: u64, driver_number: u16, date_start: Option<&str>, date_end: Option<&str>) -> (r: String)
    ensures
        r@ == base_url@ + "/car_data?session_key="@ + decimal(session_key as nat) + "&driver_number="@
            + decimal(driver_number as nat) + match date_start {
            Some(s) => "&date>"@ + s@,
            None => seq![],
        } + match date_end {
            Some(e) => "&date<"@ + e@,
            None => seq![],
        },
{
    let mut r = join2(base_url, "/car_data?session_key=");
    r.append(decimal_string(session_key).as_str());
    r.append("&driver_number=");
    r.append(decimal_string(driver_number as u64).as_str());
    let ghost base = r@;
    match date_start {
        Some(s) => {
            r.append("&date>");
            r.append(s);
        },
        None => {},
    }
    let ghost mid = r@;
    match date_end {
        Some(e) => {
            r.append("&date<");
            r.append(e);
        },
        None => {},
    }
    assert(r@ =~= base + match date_start {
        Some(s) => "&date>"@ + s@,
        None => seq![],
    } + match date_end {
        Some(e) => "&date<"@ + e@,
        None => seq![],
    });
    r
}

/// One telemetry sample.
pub struct TelemetrySample {
    pub date: String,
    pub speed: u64,
    pub throttle: u64,
    pub brake: u64,
    pub gear: u64,
    pub drs: u64,
    pub rpm: Option<u64>,
}

#[verifier::ext_equal]
pub struct TelemetrySampleView {
    pub date: Seq<char>,
    pub speed: u64,
    pub throttle: u64,
    pub brake: u64,
    pub gear: u64,
    pub drs: u64,
    pub rpm: Option<u64>,
}

impl View for TelemetrySample {
    type V = TelemetrySampleView;

    open spec fn view(&self) -> TelemetrySampleView {
        TelemetrySampleView {
            date: self.date@,
            speed: self.speed,
            throttle: self.throttle,
            brake: self.brake,
            gear: self.gear,
            drs: self.drs,
            rpm: self.rpm,
        }
    }
}

pub open spec fn sample_views(rs: Seq<TelemetrySample>) -> Seq<TelemetrySampleView> {
    rs.map_values(|r: TelemetrySample| r@)
}

pub open spec fn u64_or_zero(v: Option<JsonValue>) -> u64 {
    match ju64(v) {
        Some(n) => n,
        None => 0,
    }
}

/// The sample of a `/car_data` entry: missing readings are 0 (the engine
/// speed is left absent), a missing date is empty.
pub open spec fn sample_of(s: JsonValue) -> TelemetrySampleView {
    TelemetrySampleView {
        date: str_member(s, "date"@),
        speed: u64_or_zero(jget(s, "speed"@)),
        throttle: u64_or_zero(jget(s, "throttle"@)),
        brake: u64_or_zero(jget(s, "brake"@)),
        gear: u64_or_zero(jget(s, "n_gear"@)),
        drs: u64_or_zero(jget(s, "drs"@)),
        rpm: ju64(jget(s, "rpm"@)),
    }
}

/// The samples of `/car_data` entries, in order.
pub fn telemetry_samples(entries: &Vec<JsonValue>) -> (r: Vec<TelemetrySample>)
    ensures
        sample_views(r@) == entries@.map_values(|s: JsonValue| sample_of(s)),
{
    let mut r: Vec<TelemetrySample> = Vec::new();
    let mut i: usize = 0;
    while i < entries.len()
        invariant
            i <= entries@.len(),
            sample_views(r@) == entries@.take(i as int).map_values(|s: JsonValue| sample_of(s)),
        decreases entries@.len() - i,
    {
        let s = &entries[i];
        let sample = TelemetrySample {
            date: str_member_of(s, "date"),
            speed: u64_member_or(s, "speed", 0),
            throttle: u64_member_or(s, "throttle", 0),
            brake: u64_member_or(s, "brake", 0),
            gear: u64_member_or(s, "n_gear", 0),
            drs: u64_member_or(s, "drs", 0),
            rpm: u64_opt(s.get("rpm")),
        };
        assert(sample@ =~= sample_of(entries@[i as int]));
        let ghost before = r@;
        r.push(sample);
        assert(sample_views(r@) =~= sample_views(before).push(sample@));
        i = i + 1;
        assert(entries@.take(i as int).map_values(|s: JsonValue| sample_of(s)) =~= entries@.take(
            i - 1,
        ).map_values(|s: JsonValue| sample_of(s)).push(sample_of(entries@[i - 1])));
    }
    assert(entries@.take(entries@.len() as int) =~= entries@);
    r
}

/// Telemetry of one driver in a session.
pub struct Telemetry {
    pub year: u16,
    pub grand_prix: String,
    pub session: String,
    pub driver: String,
    pub driver_number: u16,
    pub lap: Option<u16>,
    pub total_raw_samples: usize,
    pub samples_returned: usize,
    pub telemetry: Vec<TelemetrySample>,
}

/// The telemetry answer: `selected` are the entries kept out of
/// `total_raw_samples` entries.
pub fn telemetry(year: u16, grand_prix: &str, session: &str, driver: &str, driver_number: u16, lap: Option<u16>, total_raw_samples: usize, selected: &Vec<JsonValue>) -> (r: Telemetry)
    ensures
        r.year == year,
        r.grand_prix@ == grand_prix@,
        r.session@ == session@,
        r.driver@ == driver@,
        r.driver_number == driver_number,
        r.lap == lap,
        r.total_raw_samples == total_raw_samples,
        sample_views(r.telemetry@) == selected@.map_values(|s: JsonValue| sample_of(s)),
        r.samples_returned == r.telemetry@.len(),
{
    let samples = telemetry_samples(selected);
    Telemetry {
        year,
        grand_prix: String::from_str(grand_prix),
        session: String::from_str(session),
        driver: String::from_str(driver),
        driver_number,
        lap,
        total_raw_samples,
        samples_returned: samples.len(),
        telemetry: samples,
    }
}

/// The integer reading under `key` of a sample entry, 0 when it has none.
pub open spec fn reading(e: JsonValue, key: Seq<char>) -> u64 {
    match ju64(jget(e, key)) {
        Some(n) => n,
        None => 0u64,
    }
}

/// Each telemetry sample carries its own entry's readings, channel by
/// channel: speed, throttle, brake, gear (`n_gear`), DRS and engine speed,
/// and its date; a sample list made from entries has one sample per entry.
pub proof fn telemetry_channels(entries: Seq<JsonValue>, samples: Seq<TelemetrySample>)
    requires
        sample_views(samples) == entries.map_values(|s: JsonValue| sample_of(s)),
    ensures
        samples.len() == entries.len(),
        forall|k: int| 0 <= k < samples.len() ==> {
            let e = entries[k];
            &&& #[trigger] samples[k].speed == reading(e, "speed"@)
            &&& samples[k].throttle == reading(e, "throttle"@)
            &&& samples[k].brake == reading(e, "brake"@)
            &&& samples[k].gear == reading(e, "n_gear"@)
            &&& samples[k].drs == reading(e, "drs"@)
            &&& samples[k].rpm == ju64(jget(e, "rpm"@))
            &&& samples[k].date@ == match jstr(jget(e, "date"@)) {
                Some(d) => d,
                None => seq![],
            }
        },
{
    assert(sample_views(samples).len() == samples.len());
    assert forall|k: int| 0 <= k < samples.len() implies {
        let e = entries[k];
        &&& #[trigger] samples[k].speed == reading(e, "speed"@)
        &&& samples[k].throttle == reading(e, "throttle"@)
        &&& samples[k].brake == reading(e, "brake"@)
        &&& samples[k].gear == reading(e, "n_gear"@)
        &&& samples[k].drs == reading(e, "drs"@)
        &&& samples[k].rpm == ju64(jget(e, "rpm"@))
        &&& samples[k].date@ == match jstr(jget(e, "date"@)) {
            Some(d) => d,
            None => seq![],
        }
    } by {
        assert(sample_views(samples)[k] == samples[k]@);
        assert(entries.map_values(|s: JsonValue| sample_of(s))[k] == sample_of(entries[k]));
    }
}

} // verus!
