//! Championship standings from the Jolpica-F1 (Ergast) API:
//! `/{year}/driverStandings.json` and `/{year}/constructorStandings.json`.

use vstd::prelude::*;
use crate::json::{
    array_opt, deref_opt, get_opt, jarray, jget, jget_opt, jstr, str_opt, JsonValue,
};
use crate::text::{decimal, decimal_string, join2, join3, lowercase, push_char, str_eq, to_lower};

verus! {

/// Which standings are asked for.
#[derive(PartialEq, Eq, Structural, Clone, Copy)]
pub enum StandingsKind {
    Drivers,
    Constructors,
}

/// The path segment of a kind of standings.
pub open spec fn kind_segment(k: StandingsKind) -> Seq<char> {
    match k {
        StandingsKind::Drivers => "driverStandings"@,
        StandingsKind::Constructors => "constructorStandings"@,
    }
}

/// Read the kind of standings (case-insensitive): `drivers`/`driver`, or
/// `constructors`/`constructor`/`teams`/`team`.
pub fn standings_kind(standings_type: &str) -> (r: Result<StandingsKind, String>)
    ensures
        ({
            let t = lowercase(standings_type@);
            &&& (t == "drivers"@ || t == "driver"@) ==> r == Ok::<StandingsKind, String>(StandingsKind::Drivers)
            &&& (!(t == "drivers"@ || t == "driver"@) && (t == "constructors"@ || t == "constructor"@
                || t == "teams"@ || t == "team"@)) ==> r
                == Ok::<StandingsKind, String>(StandingsKind::Constructors)
            &&& !(t == "drivers"@ || t == "driver"@ || t == "constructors"@ || t == "constructor"@
                || t == "teams"@ || t == "team"@) ==> (r matches Err(m) && m@ == "Invalid standings_type '"@
                + t + "'. Use 'drivers' or 'constructors'."@)
        }),
{
    let t = to_lower(standings_type);
    let s = t.as_str();
    if str_eq(s, "drivers") || str_eq(s, "driver") {
        Ok(StandingsKind::Drivers)
    } else if str_eq(s, "constructors") || str_eq(s, "constructor") || str_eq(s, "teams") || str_eq(
        s,
        "team",
    ) {
        Ok(StandingsKind::Constructors)
    } else {
        Err(join3("Invalid standings_type '", s, "'. Use 'drivers' or 'constructors'."))
    }
}

/// `{base}/{year}/{segment}.json`.
pub fn standings_url(base_url: &str, year: u16, kind: StandingsKind) -> (r: String)
    ensures
        r@ == base_url@ + "/"@ + decimal(year as nat) + "/"@ + kind_segment(kind) + ".json"@,
{
    let mut r = join3(base_url, "/", decimal_string(year as u64).as_str());
    r.append("/");
    match kind {
        StandingsKind::Drivers => r.append("driverStandings"),
        StandingsKind::Constructors => r.append("constructorStandings"),
    }
    r.append(".json");
    r
}

/// Cache key: `standings:{year}:{segment}`.
pub fn standings_cache_key(year: u16, kind: StandingsKind) -> (r: String)
    ensures
        r@ == "standings:"@ + decimal(year as nat) + ":"@ + kind_segment(kind),
{
    let mut r = join3("standings:", decimal_string(year as u64).as_str(), ":");
    match kind {
        StandingsKind::Drivers => r.append("driverStandings"),
        StandingsKind::Constructors => r.append("constructorStandings"),
    }
    r
}

/// The entries under `key` of the first standings list of the answer.
pub open spec fn standings_entries(body: JsonValue, key: Seq<char>) -> Seq<JsonValue> {
    match jarray(jget_opt(jget_opt(jget(body, "MRData"@), "StandingsTable"@), "StandingsLists"@)) {
        Some(lists) => if lists.len() > 0 {
            match jarray(jget(lists[0], key)) {
                Some(es) => es,
                None => seq![],
            }
        } else {
            seq![]
        },
        None => seq![],
    }
}

fn entries_of<'a>(body: &'a JsonValue, key: &str) -> (r: Option<&'a Vec<JsonValue>>)
    ensures
        match r {
            Some(es) => standings_entries(*body, key@) == es@,
            None => standings_entries(*body, key@) == Seq::<JsonValue>::empty(),
        },
{
    let lists = array_opt(get_opt(get_opt(body.get("MRData"), "StandingsTable"), "StandingsLists"));
    match lists {
        Some(ls) => {
            if ls.len() == 0 {
                return None;
            }
            array_opt(ls[0].get(key))
        },
        None => None,
    }
}

/// One row of the driver standings.
pub struct DriverStanding {
    pub position: String,
    pub driver: String,
    pub driver_code: String,
    pub team: String,
    pub points: String,
    pub wins: String,
}

#[verifier::ext_equal]
pub struct DriverStandingView {
    pub position: Seq<char>,
    pub driver: Seq<char>,
    pub driver_code: Seq<char>,
    pub team: Seq<char>,
    pub points: Seq<char>,
    pub wins: Seq<char>,
}

impl View for DriverStanding {
    type V = DriverStandingView;

    open spec fn view(&self) -> DriverStandingView {
        DriverStandingView {
            position: self.position@,
            driver: self.driver@,
            driver_code: self.driver_code@,
            team: self.team@,
            points: self.points@,
            wins: self.wins@,
        }
    }
}

pub open spec fn driver_standing_views(rs: Seq<DriverStanding>) -> Seq<DriverStandingView> {
    rs.map_values(|r: DriverStanding| r@)
}

/// The text of a member that must be present: none when the member is
/// missing, the empty string when it is present but not a string.
pub open spec fn present_text(v: Option<JsonValue>) -> Option<Seq<char>> {
    match v {
        Some(x) => Some(
            match jstr(Some(x)) {
                Some(s) => s,
                None => seq![],
            },
        ),
        None => None,
    }
}

/// The row of a driver standings entry; an entry lacks a row when its
/// position, points or wins is not a string, or when it has no `Driver`, or
/// its driver has no given or family name member.
pub open spec fn driver_standing(e: JsonValue) -> Option<DriverStandingView> {
    let driver = jget(e, "Driver"@);
    match (
        jstr(jget(e, "position"@)),
        jstr(jget(e, "points"@)),
        jstr(jget(e, "wins"@)),
        driver,
    ) {
        (Some(position), Some(points), Some(wins), Some(d)) => match (
            present_text(jget(d, "givenName"@)),
            present_text(jget(d, "familyName"@)),
        ) {
            (Some(first), Some(last)) => Some(
                DriverStandingView {
                    position: position,
                    driver: first + seq![' '] + last,
                    driver_code: match jstr(jget(d, "code"@)) {
                        Some(c) => c,
                        None => seq![],
                    },
                    team: match jarray(jget(e, "Constructors"@)) {
                        Some(cs) => if cs.len() > 0 {
                            match jstr(jget(cs[0], "name"@)) {
                                Some(n) => n,
                                None => "Unknown"@,
                            }
                        } else {
                            "Unknown"@
                        },
                        None => "Unknown"@,
                    },
                    points: points,
                    wins: wins,
                },
            ),
            _ => None,
        },
        _ => None,
    }
}

pub open spec fn driver_standings_of(es: Seq<JsonValue>) -> Seq<DriverStandingView>
    decreases es.len(),
{
    if es.len() == 0 {
        seq![]
    } else {
        match driver_standing(es.last()) {
            Some(r) => driver_standings_of(es.drop_last()).push(r),
            None => driver_standings_of(es.drop_last()),
        }
    }
}

fn present_text_of(v: Option<&JsonValue>) -> (r: Option<String>)
    ensures
        match r {
            Some(s) => present_text(deref_opt(v)) == Some(s@),
            None => present_text(deref_opt(v)) is None,
        },
{
    match v {
        Some(x) => match x.as_str() {
            Some(s) => Some(String::from_str(s)),
            None => Some(String::new()),
        },
        None => None,
    }
}

fn team_of(e: &JsonValue) -> (r: String)
    ensures
        r@ == match jarray(jget(*e, "Constructors"@)) {
            Some(cs) => if cs.len() > 0 {
                match jstr(jget(cs[0], "name"@)) {
                    Some(n) => n,
                    None => "Unknown"@,
                }
            } else {
                "Unknown"@
            },
            None => "Unknown"@,
        },
{
    match array_opt(e.get("Constructors")) {
        Some(cs) => {
            if cs.len() > 0 {
                match str_opt(cs[0].get("name")) {
                    Some(n) => String::from_str(n),
                    None => String::from_str("Unknown"),
                }
            } else {
                String::from_str("Unknown")
            }
        },
        None => String::from_str("Unknown"),
    }
}

fn driver_standing_row(e: &JsonValue) -> (r: Option<DriverStanding>)
    ensures
        match r {
            Some(row) => driver_standing(*e) == Some(row@),
            None => driver_standing(*e) is None,
        },
{
    let position = match str_opt(e.get("position")) {
        Some(s) => s,
        None => return None,
    };
    let points = match str_opt(e.get("points")) {
        Some(s) => s,
        None => return None,
    };
    let wins = match str_opt(e.get("wins")) {
        Some(s) => s,
        None => return None,
    };
    let d = match e.get("Driver") {
        Some(d) => d,
        None => return None,
    };
    let first = match present_text_of(d.get("givenName")) {
        Some(s) => s,
        None => return None,
    };
    let last = match present_text_of(d.get("familyName")) {
        Some(s) => s,
        None => return None,
    };
    let mut name = first;
    push_char(&mut name, ' ');
    name.append(last.as_str());
    let code = match str_opt(d.get("code")) {
        Some(c) => String::from_str(c),
        None => String::new(),
    };
    let row = DriverStanding {
        position: String::from_str(position),
        driver: name,
        driver_code: code,
        team: team_of(e),
        points: String::from_str(points),
        wins: String::from_str(wins),
    };
    assert(row@ =~= driver_standing(*e).unwrap());
    Some(row)
}

/// The driver standings of a Jolpica answer, in order.
pub fn parse_driver_standings(body: &JsonValue) -> (r: Vec<DriverStanding>)
    ensures
        driver_standing_views(r@) == driver_standings_of(standings_entries(*body, "DriverStandings"@)),
{
    let mut r: Vec<DriverStanding> = Vec::new();
    match entries_of(body, "DriverStandings") {
        Some(es) => {
            let mut i: usize = 0;
            while i < es.len()
                invariant
                    i <= es@.len(),
                    driver_standing_views(r@) == driver_standings_of(es@.take(i as int)),
                decreases es@.len() - i,
            {
                assert(es@.take(i + 1).drop_last() =~= es@.take(i as int));
                assert(es@.take(i + 1).last() == es@[i as int]);
                match driver_standing_row(&es[i]) {
                    Some(row) => {
                        let ghost before = r@;
                        r.push(row);
                        assert(driver_standing_views(r@) =~= driver_standing_views(before).push(row@));
                    },
                    None => {},
                }
                i = i + 1;
            }
            assert(es@.take(es@.len() as int) =~= es@);
        },
        None => {
            assert(driver_standing_views(r@) =~= seq![]);
        },
    }
    r
}

/// One row of the constructor standings.
pub struct ConstructorStanding {
    pub position: String,
    pub constructor: String,
    pub nationality: String,
    pub points: String,
    pub wins: String,
}

#[verifier::ext_equal]
pub struct ConstructorStandingView {
    pub position: Seq<char>,
    pub constructor: Seq<char>,
    pub nationality: Seq<char>,
    pub points: Seq<char>,
    pub wins: Seq<char>,
}

impl View for ConstructorStanding {
    type V = ConstructorStandingView;

    open spec fn view(&self) -> ConstructorStandingView {
        ConstructorStandingView {
            position: self.position@,
            constructor: self.constructor@,
            nationality: self.nationality@,
            points: self.points@,
            wins: self.wins@,
        }
    }
}

pub open spec fn constructor_standing_views(rs: Seq<ConstructorStanding>) -> Seq<ConstructorStandingView> {
    rs.map_values(|r: ConstructorStanding| r@)
}

/// The row of a constructor standings entry; an entry lacks a row when its
/// position, points, wins or constructor name is not a string.
pub open spec fn constructor_standing(e: JsonValue) -> Option<ConstructorStandingView> {
    let c = jget(e, "Constructor"@);
    match (
        jstr(jget(e, "position"@)),
        jstr(jget(e, "points"@)),
        jstr(jget(e, "wins"@)),
        jstr(jget_opt(c, "name"@)),
    ) {
        (Some(position), Some(points), Some(wins), Some(name)) => Some(
            ConstructorStandingView {
                position: position,
                constructor: name,
                nationality: match jstr(jget_opt(c, "nationality"@)) {
                    Some(n) => n,
                    None => seq![],
                },
                points: points,
                wins: wins,
            },
        ),
        _ => None,
    }
}

pub open spec fn constructor_standings_of(es: Seq<JsonValue>) -> Seq<ConstructorStandingView>
    decreases es.len(),
{
    if es.len() == 0 {
        seq![]
    } else {
        match constructor_standing(es.last()) {
            Some(r) => constructor_standings_of(es.drop_last()).push(r),
            None => constructor_standings_of(es.drop_last()),
        }
    }
}

fn constructor_standing_row(e: &JsonValue) -> (r: Option<ConstructorStanding>)
    ensures
        match r {
            Some(row) => constructor_standing(*e) == Some(row@),
            None => constructor_standing(*e) is None,
        },
{
    let position = match str_opt(e.get("position")) {
        Some(s) => s,
        None => return None,
    };
    let points = match str_opt(e.get("points")) {
        Some(s) => s,
        None => return None,
    };
    let wins = match str_opt(e.get("wins")) {
        Some(s) => s,
        None => return None,
    };
    let c = e.get("Constructor");
    let name = match str_opt(get_opt(c, "name")) {
        Some(s) => s,
        None => return None,
    };
    let nationality = match str_opt(get_opt(c, "nationality")) {
        Some(n) => String::from_str(n),
        None => String::new(),
    };
    let row = ConstructorStanding {
        position: String::from_str(position),
        constructor: String::from_str(name),
        nationality,
        points: String::from_str(points),
        wins: String::from_str(wins),
    };
    assert(row@ =~= constructor_standing(*e).unwrap());
    Some(row)
}

/// The constructor standings of a Jolpica answer, in order.
pub fn parse_constructor_standings(body: &JsonValue) -> (r: Vec<ConstructorStanding>)
    ensures
        constructor_standing_views(r@) == constructor_standings_of(standings_entries(*body, "ConstructorStandings"@)),
{
    let mut r: Vec<ConstructorStanding> = Vec::new();
    match entries_of(body, "ConstructorStandings") {
        Some(es) => {
            let mut i: usize = 0;
            while i < es.len()
                invariant
                    i <= es@.len(),
                    constructor_standing_views(r@) == constructor_standings_of(es@.take(i as int)),
                decreases es@.len() - i,
            {
                assert(es@.take(i + 1).drop_last() =~= es@.take(i as int));
                assert(es@.take(i + 1).last() == es@[i as int]);
                match constructor_standing_row(&es[i]) {
                    Some(row) => {
                        let ghost before = r@;
                        r.push(row);
                        assert(constructor_standing_views(r@) =~= constructor_standing_views(before).push(row@));
                    },
                    None => {},
                }
                i = i + 1;
            }
            assert(es@.take(es@.len() as int) =~= es@);
        },
        None => {
            assert(constructor_standing_views(r@) =~= seq![]);
        },
    }
    r
}

/// The rows of standings of either kind.
pub enum StandingsRows {
    Drivers(Vec<DriverStanding>),
    Constructors(Vec<ConstructorStanding>),
}

/// Championship standings of a season.
pub struct Standings {
    pub year: u16,
    pub standings_type: String,
    pub standings_count: usize,
    pub standings: StandingsRows,
}

/// The standings answer of a season from a Jolpica answer.
pub fn standings(year: u16, standings_type: &str, kind: StandingsKind, body: &JsonValue) -> (r: Standings)
    ensures
        r.year == year,
        r.standings_type@ == standings_type@,
        kind == StandingsKind::Drivers ==> (r.standings matches StandingsRows::Drivers(rows)
            && driver_standing_views(rows@) == driver_standings_of(standings_entries(*body, "DriverStandings"@))
            && r.standings_count == rows@.len()),
        kind == StandingsKind::Constructors ==> (r.standings matches StandingsRows::Constructors(rows)
            && constructor_standing_views(rows@) == constructor_standings_of(standings_entries(*body, "ConstructorStandings"@))
            && r.standings_count == rows@.len()),
{
    match kind {
        StandingsKind::Drivers => {
            let rows = parse_driver_standings(body);
            Standings {
                year,
                standings_type: String::from_str(standings_type),
                standings_count: rows.len(),
                standings: StandingsRows::Drivers(rows),
            }
        },
        StandingsKind::Constructors => {
            let rows = parse_constructor_standings(body);
            Standings {
                year,
                standings_type: String::from_str(standings_type),
                standings_count: rows.len(),
                standings: StandingsRows::Constructors(rows),
            }
        },
    }
}

/// The text of a member, or the empty string when it is not a string.
pub open spec fn text_of(v: Option<JsonValue>) -> Seq<char> {
    match jstr(v) {
        Some(s) => s,
        None => seq![],
    }
}

/// `r` is the row of the driver standings entry `e`.
pub open spec fn driver_row_of_entry(r: DriverStandingView, e: JsonValue) -> bool {
    let d = jget(e, "Driver"@).unwrap();
    &&& Some(r.position) == jstr(jget(e, "position"@))
    &&& Some(r.points) == jstr(jget(e, "points"@))
    &&& Some(r.wins) == jstr(jget(e, "wins"@))
    &&& r.driver == text_of(jget(d, "givenName"@)) + seq![' '] + text_of(jget(d, "familyName"@))
    &&& r.driver_code == text_of(jget(d, "code"@))
    &&& r.team == match jarray(jget(e, "Constructors"@)) {
        Some(cs) => if cs.len() > 0 && jstr(jget(cs[0], "name"@)) is Some {
            jstr(jget(cs[0], "name"@)).unwrap()
        } else {
            "Unknown"@
        },
        None => "Unknown"@,
    }
}

/// Every driver standings entry with string position, points and wins, and
/// a driver with given and family names, gives a row that carries its own
/// position, points, wins, the driver's full name and code, and the first
/// constructor's name.
pub proof fn driver_standings_complete(es: Seq<JsonValue>, j: int)
    requires
        0 <= j < es.len(),
        jstr(jget(es[j], "position"@)) is Some,
        jstr(jget(es[j], "points"@)) is Some,
        jstr(jget(es[j], "wins"@)) is Some,
        jget(es[j], "Driver"@) is Some,
        jget(jget(es[j], "Driver"@).unwrap(), "givenName"@) is Some,
        jget(jget(es[j], "Driver"@).unwrap(), "familyName"@) is Some,
    ensures
        exists|k: int|
            0 <= k < driver_standings_of(es).len() && #[trigger] driver_row_of_entry(driver_standings_of(es)[k], es[j]),
    decreases es.len(),
{
    let rest = es.drop_last();
    let prev = driver_standings_of(rest);
    if j == es.len() - 1 {
        let row = driver_standing(es.last()).unwrap();
        assert(driver_standings_of(es) == prev.push(row));
        assert(driver_standings_of(es)[prev.len() as int] == row);
        assert(driver_row_of_entry(driver_standings_of(es)[prev.len() as int], es[j]));
    } else {
        assert(rest[j] == es[j]);
        driver_standings_complete(rest, j);
        let k = choose|k: int| 0 <= k < prev.len() && #[trigger] driver_row_of_entry(prev[k], es[j]);
        match driver_standing(es.last()) {
            Some(r) => {
                assert(driver_standings_of(es) == prev.push(r));
                assert(prev.push(r)[k] == prev[k]);
            },
            None => {
                assert(driver_standings_of(es) == prev);
            },
        }
        assert(driver_row_of_entry(driver_standings_of(es)[k], es[j]));
    }
}

/// `r` is the row of the constructor standings entry `e`.
pub open spec fn constructor_row_of_entry(r: ConstructorStandingView, e: JsonValue) -> bool {
    let c = jget(e, "Constructor"@);
    &&& Some(r.position) == jstr(jget(e, "position"@))
    &&& Some(r.points) == jstr(jget(e, "points"@))
    &&& Some(r.wins) == jstr(jget(e, "wins"@))
    &&& Some(r.constructor) == jstr(jget_opt(c, "name"@))
    &&& r.nationality == text_of(jget_opt(c, "nationality"@))
}

/// Every constructor standings entry with string position, points and wins
/// and a constructor with a name gives a row that carries its own position,
/// points, wins, name and nationality.
pub proof fn constructor_standings_complete(es: Seq<JsonValue>, j: int)
    requires
        0 <= j < es.len(),
        jstr(jget(es[j], "position"@)) is Some,
        jstr(jget(es[j], "points"@)) is Some,
        jstr(jget(es[j], "wins"@)) is Some,
        jstr(jget_opt(jget(es[j], "Constructor"@), "name"@)) is Some,
    ensures
        exists|k: int|
            0 <= k < constructor_standings_of(es).len() && #[trigger] constructor_row_of_entry(
                constructor_standings_of(es)[k],
                es[j],
            ),
    decreases es.len(),
{
    let rest = es.drop_last();
    let prev = constructor_standings_of(rest);
    if j == es.len() - 1 {
        let row = constructor_standing(es.last()).unwrap();
        assert(constructor_standings_of(es) == prev.push(row));
        assert(constructor_standings_of(es)[prev.len() as int] == row);
        assert(constructor_row_of_entry(constructor_standings_of(es)[prev.len() as int], es[j]));
    } else {
        assert(rest[j] == es[j]);
        constructor_standings_complete(rest, j);
        let k = choose|k: int| 0 <= k < prev.len() && #[trigger] constructor_row_of_entry(prev[k], es[j]);
        match constructor_standing(es.last()) {
            Some(r) => {
                assert(constructor_standings_of(es) == prev.push(r));
                assert(prev.push(r)[k] == prev[k]);
            },
            None => {
                assert(constructor_standings_of(es) == prev);
            },
        }
        assert(constructor_row_of_entry(constructor_standings_of(es)[k], es[j]));
    }
}

} // verus!
