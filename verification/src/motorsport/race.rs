//! Final classification of a race: the last position reported for each
//! driver (OpenF1 `/position`), with names and teams from `/drivers`,
//! ordered by position.

use vstd::prelude::*;
use vstd::seq_lib::to_multiset_contains;
use crate::json::{elements, jget, jget_opt, jstr, ju64, str_opt, u64_opt, JsonValue};
use crate::sorting::{sort_by_key, sorted_by_key};
use crate::text::{decimal, decimal_string, join2, join3};

verus! {

/// The final position of driver `n`: that of the last position entry with
/// this driver number and an integer position.
pub open spec fn final_position(positions: Seq<JsonValue>, n: u64) -> Option<u64>
    decreases positions.len(),
{
    if positions.len() == 0 {
        None
    } else {
        let p = positions.last();
        if ju64(jget(p, "driver_number"@)) == Some(n) && ju64(jget(p, "position"@)) is Some {
            ju64(jget(p, "position"@))
        } else {
            final_position(positions.drop_last(), n)
        }
    }
}

/// The entry of driver `n`: the last driver entry with this number.
pub open spec fn driver_entry(drivers: Seq<JsonValue>, n: u64) -> Option<JsonValue>
    decreases drivers.len(),
{
    if drivers.len() == 0 {
        None
    } else if ju64(jget(drivers.last(), "driver_number"@)) == Some(n) {
        Some(drivers.last())
    } else {
        driver_entry(drivers.drop_last(), n)
    }
}

/// A string member of the driver's entry, or `default`.
pub open spec fn driver_text(drivers: Seq<JsonValue>, n: u64, key: Seq<char>, default: Seq<char>) -> Seq<char> {
    match jstr(jget_opt(driver_entry(drivers, n), key)) {
        Some(s) => s,
        None => default,
    }
}

/// One row of the classification.
pub struct RaceResult {
    pub position: u64,
    pub driver_number: u64,
    pub driver_name: String,
    pub driver_acronym: String,
    pub team: String,
}

/// The row of driver `n`, whose final position is `pos`.
pub open spec fn result_row(r: RaceResult, drivers: Seq<JsonValue>) -> bool {
    &&& r.driver_name@ == driver_text(drivers, r.driver_number, "full_name"@, "Unknown"@)
    &&& r.driver_acronym@ == driver_text(drivers, r.driver_number, "name_acronym"@, seq![])
    &&& r.team@ == driver_text(drivers, r.driver_number, "team_name"@, "Unknown"@)
}

proof fn lemma_final_position_push(ps: Seq<JsonValue>, p: JsonValue, n: u64)
    ensures
        final_position(ps.push(p), n) is Some <==> (final_position(ps, n) is Some || (ju64(
            jget(p, "driver_number"@),
        ) == Some(n) && ju64(jget(p, "position"@)) is Some)),
{
    assert(ps.push(p).drop_last() =~= ps);
}

/// Driver numbers that have a final position, each once, in order of first
/// report.
fn classified_drivers(positions: &Vec<JsonValue>) -> (r: Vec<u64>)
    ensures
        r@.no_duplicates(),
        forall|n: u64| r@.contains(n) <==> final_position(positions@, n) is Some,
{
    let mut r: Vec<u64> = Vec::new();
    let mut i: usize = 0;
    while i < positions.len()
        invariant
            i <= positions@.len(),
            r@.no_duplicates(),
            forall|n: u64| r@.contains(n) <==> final_position(positions@.take(i as int), n) is Some,
        decreases positions@.len() - i,
    {
        let p = &positions[i];
        assert(*p == positions@[i as int]);
        assert(positions@.take(i + 1) =~= positions@.take(i as int).push(positions@[i as int]));
        match (u64_opt(p.get("driver_number")), u64_opt(p.get("position"))) {
            (Some(n), Some(_)) => {
                let mut found = false;
                let mut j: usize = 0;
                while j < r.len()
                    invariant
                        j <= r@.len(),
                        !found ==> forall|k: int| 0 <= k < j ==> r@[k] != n,
                        found ==> r@.contains(n),
                    decreases r@.len() - j,
                {
                    if r[j] == n {
                        found = true;
                    }
                    j = j + 1;
                }
                let ghost before = r@;
                if !found {
                    r.push(n);
                }
                assert forall|m: u64| r@.contains(m) == (before.contains(m) || m == n) by {
                    if r@.contains(m) {
                        let k = choose|k: int| 0 <= k < r@.len() && r@[k] == m;
                        if k < before.len() {
                            assert(before[k] == m);
                        }
                    }
                    if before.contains(m) {
                        let k = choose|k: int| 0 <= k < before.len() && before[k] == m;
                        assert(r@[k] == m);
                    }
                    if m == n && !found {
                        assert(r@[before.len() as int] == n);
                    }
                }
                assert forall|m: u64|
                    r@.contains(m) == (final_position(positions@.take(i + 1), m) is Some) by {
                    lemma_final_position_push(positions@.take(i as int), positions@[i as int], m);
                    assert(before.contains(m) == (final_position(positions@.take(i as int), m) is Some));
                    if found {
                        assert(before.contains(n));
                    }
                }
            },
            _ => {
                assert forall|m: u64|
                    r@.contains(m) == (final_position(positions@.take(i + 1), m) is Some) by {
                    lemma_final_position_push(positions@.take(i as int), positions@[i as int], m);
                }
            },
        }
        i = i + 1;
    }
    assert(positions@.take(positions@.len() as int) =~= positions@);
    r
}

fn find_final_position(positions: &Vec<JsonValue>, n: u64) -> (r: Option<u64>)
    ensures
        r == final_position(positions@, n),
{
    let mut k: usize = positions.len();
    assert(positions@.take(k as int) =~= positions@);
    while k > 0
        invariant
            k <= positions@.len(),
            final_position(positions@, n) == final_position(positions@.take(k as int), n),
        decreases k,
    {
        let p = &positions[k - 1];
        assert(positions@.take(k as int).drop_last() =~= positions@.take(k - 1));
        assert(positions@.take(k as int).last() == positions@[k - 1]);
        if u64_opt(p.get("driver_number")) == Some(n) {
            let pos = u64_opt(p.get("position"));
            if pos.is_some() {
                return pos;
            }
        }
        k = k - 1;
    }
    None
}

fn find_driver<'a>(drivers: &'a Vec<JsonValue>, n: u64) -> (r: Option<&'a JsonValue>)
    ensures
        match r {
            Some(d) => driver_entry(drivers@, n) == Some(*d),
            None => driver_entry(drivers@, n) is None,
        },
{
    let mut k: usize = drivers.len();
    assert(drivers@.take(k as int) =~= drivers@);
    while k > 0
        invariant
            k <= drivers@.len(),
            driver_entry(drivers@, n) == driver_entry(drivers@.take(k as int), n),
        decreases k,
    {
        assert(drivers@.take(k as int).drop_last() =~= drivers@.take(k - 1));
        assert(drivers@.take(k as int).last() == drivers@[k - 1]);
        if u64_opt(drivers[k - 1].get("driver_number")) == Some(n) {
            return Some(&drivers[k - 1]);
        }
        k = k - 1;
    }
    None
}

fn text_of(entry: Option<&JsonValue>, key: &str, default: &str) -> (r: String)
    ensures
        r@ == match jstr(
            jget_opt(
                match entry {
                    Some(e) => Some(*e),
                    None => None,
                },
                key@,
            ),
        ) {
            Some(s) => s,
            None => default@,
        },
{
    match entry {
        Some(e) => match str_opt(e.get(key)) {
            Some(s) => String::from_str(s),
            None => String::from_str(default),
        },
        None => String::from_str(default),
    }
}

/// The classification from a `/position` answer and a `/drivers` answer:
/// one row per driver with a reported position, holding the last position
/// reported for that driver, in order of position (drivers on equal
/// positions in no particular order).
pub fn race_results(positions_json: &JsonValue, drivers_json: &JsonValue) -> (r: Vec<RaceResult>)
    ensures
        forall|x: int, y: int| 0 <= x < y < r@.len() ==> r@[x].position <= r@[y].position,
        forall|x: int, y: int| 0 <= x < y < r@.len() ==> r@[x].driver_number != r@[y].driver_number,
        forall|k: int|
            0 <= k < r@.len() ==> final_position(elements(*positions_json), #[trigger] r@[k].driver_number)
                == Some(r@[k].position) && result_row(r@[k], elements(*drivers_json)),
        forall|n: u64|
            final_position(elements(*positions_json), n) is Some ==> exists|k: int|
                0 <= k < r@.len() && #[trigger] r@[k].driver_number == n,
{
    let empty_p: Vec<JsonValue> = Vec::new();
    let empty_d: Vec<JsonValue> = Vec::new();
    let positions: &Vec<JsonValue> = match positions_json.as_array() {
        Some(x) => x,
        None => &empty_p,
    };
    let drivers: &Vec<JsonValue> = match drivers_json.as_array() {
        Some(x) => x,
        None => &empty_d,
    };
    let ghost ps = positions@;
    let ghost ds = drivers@;
    assert(ps == elements(*positions_json));
    assert(ds == elements(*drivers_json));
    let nums = classified_drivers(positions);
    // Pair each driver with its final position.
    let mut keyed: Vec<(u64, u64)> = Vec::new();
    let mut i: usize = 0;
    while i < nums.len()
        invariant
            i <= nums@.len(),
            nums@.no_duplicates(),
            ps == positions@,
            forall|n: u64| nums@.contains(n) <==> final_position(ps, n) is Some,
            keyed@.len() == i,
            forall|k: int| 0 <= k < i ==> #[trigger] keyed@[k].1 == nums@[k] && Some(keyed@[k].0)
                == final_position(ps, nums@[k]),
        decreases nums@.len() - i,
    {
        let n = nums[i];
        assert(nums@.contains(n));
        let pos = match find_final_position(positions, n) {
            Some(p) => p,
            None => 0,
        };
        keyed.push((pos, n));
        i = i + 1;
    }
    let ghost ks = keyed@;
    assert(ks.no_duplicates()) by {
        assert forall|x: int, y: int| 0 <= x < ks.len() && 0 <= y < ks.len() && x != y implies ks[x]
            != ks[y] by {
            assert(ks[x].1 == nums@[x]);
            assert(ks[y].1 == nums@[y]);
        }
    }
    let sorted = sort_by_key(&keyed);
    let ghost ss = sorted@;
    proof {
        ks.lemma_multiset_has_no_duplicates();
        ss.lemma_multiset_has_no_duplicates_conv();
    }
    assert forall|k: int| 0 <= k < ss.len() implies final_position(ps, #[trigger] ss[k].1) == Some(
        ss[k].0,
    ) by {
        to_multiset_contains(ss, ss[k]);
        to_multiset_contains(ks, ss[k]);
        let j = choose|j: int| 0 <= j < ks.len() && ks[j] == ss[k];
        assert(ks[j].1 == nums@[j]);
    }
    let mut r: Vec<RaceResult> = Vec::new();
    let mut k: usize = 0;
    while k < sorted.len()
        invariant
            k <= ss.len(),
            ss == sorted@,
            ds == drivers@,
            r@.len() == k,
            forall|x: int| 0 <= x < k ==> (#[trigger] r@[x]).position == ss[x].0 && r@[x].driver_number == ss[x].1
                && result_row(r@[x], ds),
        decreases ss.len() - k,
    {
        let (pos, n) = sorted[k];
        let entry = find_driver(drivers, n);
        let row = RaceResult {
            position: pos,
            driver_number: n,
            driver_name: text_of(entry, "full_name", "Unknown"),
            driver_acronym: text_of(entry, "name_acronym", ""),
            team: text_of(entry, "team_name", "Unknown"),
        };
        proof {
            reveal_strlit("");
            assert(""@ =~= Seq::<char>::empty());
        }
        let ghost before = r@;
        r.push(row);
        assert(forall|x: int| 0 <= x < before.len() ==> r@[x] == before[x]);
        assert(r@[k as int] == row);
        k = k + 1;
    }
    assert forall|x: int| 0 <= x < r@.len() implies final_position(ps, (#[trigger] r@[x]).driver_number) == Some(r@[x].position) by {
        assert(r@[x].driver_number == ss[x].1);
        assert(final_position(ps, ss[x].1) == Some(ss[x].0));
    }
    assert forall|x: int, y: int| 0 <= x < y < r@.len() implies r@[x].driver_number != r@[y].driver_number by {
        assert(r@[x].position == ss[x].0 && r@[x].driver_number == ss[x].1);
        assert(r@[y].position == ss[y].0 && r@[y].driver_number == ss[y].1);
        if ss[x].1 == ss[y].1 {
            assert(final_position(ps, ss[x].1) == Some(ss[x].0));
            assert(final_position(ps, ss[y].1) == Some(ss[y].0));
            assert(ss[x] == ss[y]);
        }
    }
    assert forall|x: int, y: int| 0 <= x < y < r@.len() implies r@[x].position <= r@[y].position by {
        assert(r@[x].position == ss[x].0);
        assert(r@[y].position == ss[y].0);
    }
    assert forall|n: u64| final_position(ps, n) is Some implies exists|x: int|
        0 <= x < r@.len() && #[trigger] r@[x].driver_number == n by {
        assert(nums@.contains(n));
        let j = choose|j: int| 0 <= j < nums@.len() && nums@[j] == n;
        assert(ks[j].1 == n);
        to_multiset_contains(ks, ks[j]);
        to_multiset_contains(ss, ks[j]);
        let x = choose|x: int| 0 <= x < ss.len() && ss[x] == ks[j];
        assert(r@[x].driver_number == n);
    }
    r
}

/// The classification of a session.
pub struct RaceResults {
    pub year: u16,
    pub grand_prix: String,
    pub session: String,
    pub results_count: usize,
    pub results: Vec<RaceResult>,
}

/// The classification answer of a session (the race: `Race`) from its
/// `/position` and `/drivers` answers.
pub fn race_classification(year: u16, grand_prix: &str, session: &str, positions_json: &JsonValue, drivers_json: &JsonValue) -> (r: RaceResults)
    ensures
        r.year == year,
        r.grand_prix@ == grand_prix@,
        r.session@ == session@,
        r.results_count == r.results@.len(),
        forall|x: int, y: int| 0 <= x < y < r.results@.len() ==> r.results@[x].position <= r.results@[y].position,
        forall|x: int, y: int| 0 <= x < y < r.results@.len() ==> r.results@[x].driver_number != r.results@[y].driver_number,
        forall|k: int|
            0 <= k < r.results@.len() ==> final_position(elements(*positions_json), #[trigger] r.results@[k].driver_number)
                == Some(r.results@[k].position) && result_row(r.results@[k], elements(*drivers_json)),
        forall|n: u64|
            final_position(elements(*positions_json), n) is Some ==> exists|k: int|
                0 <= k < r.results@.len() && #[trigger] r.results@[k].driver_number == n,
{
    let results = race_results(positions_json, drivers_json);
    RaceResults {
        year,
        grand_prix: String::from_str(grand_prix),
        session: String::from_str(session),
        results_count: results.len(),
        results,
    }
}

/// `{base}/position?session_key={key}`.
pub fn positions_url(base_url: &str, session_key: u64) -> (r: String)
    ensures
        r@ == base_url@ + "/position?session_key="@ + decimal(session_key as nat),
{
    join3(base_url, "/position?session_key=", decimal_string(session_key).as_str())
}

/// Cache key of a race classification: `race_results:{year}:{grand_prix}`.
pub fn race_results_cache_key(year: u16, grand_prix: &str) -> (r: String)
    ensures
        r@ == "race_results:"@ + decimal(year as nat) + ":"@ + grand_prix@,
{
    let mut r = join2("race_results:", decimal_string(year as u64).as_str());
    r.append(":");
    r.append(grand_prix);
    r
}

/// Cache key of the classification of any session:
/// `session_results:{year}:{grand_prix}:{session}`.
pub fn session_results_cache_key(year: u16, grand_prix: &str, session: &str) -> (r: String)
    ensures
        r@ == "session_results:"@ + decimal(year as nat) + ":"@ + grand_prix@ + ":"@ + session@,
{
    let mut r = join2("session_results:", decimal_string(year as u64).as_str());
    r.append(":");
    r.append(grand_prix);
    r.append(":");
    r.append(session);
    r
}

/// A driver's final position is the one given by the last report with the
/// driver's number and an integer position, whatever earlier reports said.
pub proof fn final_position_is_last_report(positions: Seq<JsonValue>, n: u64, j: int)
    requires
        0 <= j < positions.len(),
        ju64(jget(positions[j], "driver_number"@)) == Some(n),
        ju64(jget(positions[j], "position"@)) is Some,
        forall|k: int|
            j < k < positions.len() ==> !(ju64(jget(#[trigger] positions[k], "driver_number"@)) == Some(n)
                && ju64(jget(positions[k], "position"@)) is Some),
    ensures
        final_position(positions, n) == ju64(jget(positions[j], "position"@)),
    decreases positions.len(),
{
    if j < positions.len() - 1 {
        let rest = positions.drop_last();
        assert(positions[positions.len() - 1] == positions.last());
        assert(rest[j] == positions[j]);
        assert forall|k: int| j < k < rest.len() implies !(ju64(jget(#[trigger] rest[k], "driver_number"@))
            == Some(n) && ju64(jget(rest[k], "position"@)) is Some) by {
            assert(rest[k] == positions[k]);
        }
        final_position_is_last_report(rest, n, j);
    }
}

/// A driver with no report that gives an integer position has no final
/// position, so no row in the classification.
pub proof fn unreported_driver_unclassified(positions: Seq<JsonValue>, n: u64)
    requires
        forall|k: int|
            0 <= k < positions.len() ==> !(ju64(jget(#[trigger] positions[k], "driver_number"@)) == Some(n)
                && ju64(jget(positions[k], "position"@)) is Some),
    ensures
        final_position(positions, n) is None,
    decreases positions.len(),
{
    if positions.len() > 0 {
        let rest = positions.drop_last();
        assert(positions[positions.len() - 1] == positions.last());
        assert forall|k: int| 0 <= k < rest.len() implies !(ju64(jget(#[trigger] rest[k], "driver_number"@))
            == Some(n) && ju64(jget(rest[k], "position"@)) is Some) by {
            assert(rest[k] == positions[k]);
        }
        unreported_driver_unclassified(rest, n);
    }
}

proof fn lemma_driver_entry_last(drivers: Seq<JsonValue>, n: u64, j: int)
    requires
        0 <= j < drivers.len(),
        ju64(jget(drivers[j], "driver_number"@)) == Some(n),
        forall|k: int| j < k < drivers.len() ==> ju64(jget(#[trigger] drivers[k], "driver_number"@)) != Some(n),
    ensures
        driver_entry(drivers, n) == Some(drivers[j]),
    decreases drivers.len(),
{
    if j < drivers.len() - 1 {
        let rest = drivers.drop_last();
        assert(drivers[drivers.len() - 1] == drivers.last());
        assert(rest[j] == drivers[j]);
        assert forall|k: int| j < k < rest.len() implies ju64(jget(#[trigger] rest[k], "driver_number"@)) != Some(n) by {
            assert(rest[k] == drivers[k]);
        }
        lemma_driver_entry_last(rest, n, j);
    }
}

/// A classification row takes the driver's full name, acronym and team from
/// the last `/drivers` entry with its number: `full_name` (else `Unknown`),
/// `name_acronym` (else empty) and `team_name` (else `Unknown`).
pub proof fn race_row_names(r: RaceResult, drivers: Seq<JsonValue>, j: int)
    requires
        result_row(r, drivers),
        0 <= j < drivers.len(),
        ju64(jget(drivers[j], "driver_number"@)) == Some(r.driver_number),
        forall|k: int|
            j < k < drivers.len() ==> ju64(jget(#[trigger] drivers[k], "driver_number"@)) != Some(r.driver_number),
    ensures
        r.driver_name@ == match jstr(jget(drivers[j], "full_name"@)) {
            Some(s) => s,
            None => "Unknown"@,
        },
        r.driver_acronym@ == match jstr(jget(drivers[j], "name_acronym"@)) {
            Some(s) => s,
            None => Seq::<char>::empty(),
        },
        r.team@ == match jstr(jget(drivers[j], "team_name"@)) {
            Some(s) => s,
            None => "Unknown"@,
        },
{
    lemma_driver_entry_last(drivers, r.driver_number, j);
}

} // verus!
