use mcp_servers::json::{JsonNumber, JsonValue};
use mcp_servers::motorsport::compare::{compare_cache_key, comparable_laps};
use mcp_servers::motorsport::inputs::{jolpica_section, JolpicaConfig};
use mcp_servers::motorsport::laps::{lap_times, lap_times_cache_key, laps_url};
use mcp_servers::motorsport::race::{
    positions_url, race_classification, race_results, race_results_cache_key, session_results_cache_key,
};
use mcp_servers::motorsport::resolve::{
    drivers_cache_key, drivers_url, first_session_key, match_driver, no_session_message,
    numeric_driver, session_cache_key, sessions_url, SessionLookup,
};
use mcp_servers::motorsport::standings::{
    standings, standings_cache_key, standings_kind, standings_url, StandingsKind, StandingsRows,
};
use mcp_servers::motorsport::stints::{check_stints, stints_cache_key, stints_url, tire_stints};
use mcp_servers::motorsport::telemetry::{
    car_data_url, lap_url, lap_window, lap_window_end, telemetry, telemetry_cache_key,
    telemetry_samples,
};

fn s(x: &str) -> JsonValue {
    JsonValue::Str(x.to_string())
}

fn num(x: &str) -> JsonValue {
    JsonValue::Number(JsonNumber { repr: x.to_string() })
}

fn arr(xs: Vec<JsonValue>) -> JsonValue {
    JsonValue::Array(xs)
}

fn obj(xs: Vec<(&str, JsonValue)>) -> JsonValue {
    JsonValue::Object(xs.into_iter().map(|(k, v)| (k.to_string(), v)).collect())
}

fn sessions_json() -> JsonValue {
    arr(vec![obj(vec![
        ("session_key", num("9001")),
        ("session_name", s("Race")),
        ("country_name", s("Bahrain")),
        ("year", num("2024")),
    ])])
}

fn drivers_json() -> JsonValue {
    let driver = |n: &str, acr: &str, full: &str, first: &str, last: &str, team: &str| {
        obj(vec![
            ("driver_number", num(n)),
            ("name_acronym", s(acr)),
            ("full_name", s(full)),
            ("first_name", s(first)),
            ("last_name", s(last)),
            ("team_name", s(team)),
        ])
    };
    arr(vec![
        driver("1", "VER", "Max VERSTAPPEN", "Max", "VERSTAPPEN", "Red Bull Racing"),
        driver("4", "NOR", "Lando NORRIS", "Lando", "NORRIS", "McLaren"),
    ])
}

// ---------------------------------------------------------------------------
// Session and driver resolution
// ---------------------------------------------------------------------------

#[test]
fn test_resolve_session_key() {
    let url = sessions_url("https://api.openf1.org/v1", 2024, "Bahrain", "Race");
    assert_eq!(url, "https://api.openf1.org/v1/sessions?year=2024&country_name=Bahrain&session_name=Race");
    match first_session_key(&sessions_json()) {
        SessionLookup::Found(k) => assert_eq!(k, 9001),
        _ => panic!("expected Ok"),
    }
}

#[test]
fn test_resolve_driver_number_by_acronym() {
    let result = match_driver(&drivers_json(), "VER", 9001);
    assert!(result.is_ok(), "expected Ok, got: {result:?}");
    assert_eq!(result.unwrap(), 1);
}

#[test]
fn test_resolve_driver_number_by_name() {
    // "Norris" matches the full name case-insensitively.
    let result = match_driver(&drivers_json(), "Norris", 9001);
    assert!(result.is_ok(), "expected Ok, got: {result:?}");
    assert_eq!(result.unwrap(), 4);
}

#[test]
fn resolve_failures() {
    assert!(matches!(first_session_key(&arr(vec![])), SessionLookup::NoSession));
    assert!(matches!(first_session_key(&obj(vec![])), SessionLookup::NotAList));
    assert!(matches!(
        first_session_key(&arr(vec![obj(vec![("session_key", s("9001"))])])),
        SessionLookup::NoSession
    ));
    assert_eq!(
        no_session_message(2024, "Monaco", "Race"),
        "no session found for year=2024, gp=Monaco, session=Race"
    );
    assert_eq!(
        match_driver(&drivers_json(), "HAM", 9001).unwrap_err(),
        "no driver matching 'HAM' found in session 9001"
    );
    assert_eq!(match_driver(&obj(vec![]), "VER", 1).unwrap_err(), "drivers response is not an array");
    let big = arr(vec![obj(vec![("driver_number", num("70000")), ("name_acronym", s("BIG"))])]);
    assert_eq!(match_driver(&big, "big", 1).unwrap_err(), "driver_number 70000 out of u16 range");
}

#[test]
fn resolve_by_first_name_and_partial_full_name() {
    assert_eq!(match_driver(&drivers_json(), "lando", 9001).unwrap(), 4);
    assert_eq!(match_driver(&drivers_json(), "verst", 9001).unwrap(), 1);
    // A partial last name alone is not a match unless the full name holds it.
    assert_eq!(match_driver(&drivers_json(), "max v", 9001).unwrap(), 1);
}

#[test]
fn resolve_addresses_and_keys() {
    assert_eq!(drivers_url("http://h", 9001), "http://h/drivers?session_key=9001");
    assert_eq!(drivers_cache_key(9001), "drivers:9001");
    assert_eq!(session_cache_key(2024, "Bahrain", "Race"), "session_key:2024:Bahrain:Race");
}

// ---------------------------------------------------------------------------
// Lap times
// ---------------------------------------------------------------------------

#[test]
fn test_get_lap_times() {
    let lap = |n: &str, s1: &str, s2: &str, s3: &str, d: &str| {
        obj(vec![
            ("lap_number", num(n)),
            ("duration_sector_1", num(s1)),
            ("duration_sector_2", num(s2)),
            ("duration_sector_3", num(s3)),
            ("lap_duration", num(d)),
            ("driver_number", num("1")),
            ("is_pit_out_lap", JsonValue::Bool(false)),
        ])
    };
    let laps = arr(vec![lap("1", "28.5", "34.2", "31.1", "93.8"), lap("2", "27.9", "33.8", "30.5", "92.2")]);
    assert_eq!(laps_url("http://h", 9001, 1), "http://h/laps?session_key=9001&driver_number=1");
    let r = lap_times(2024, "Bahrain", "Race", "VER", 1, &laps);
    assert_eq!(r.laps_count, 2);
    assert_eq!(r.laps.len(), 2);
    assert_eq!(r.laps[0].lap_number, 1);
    assert_eq!(r.laps[1].lap_number, 2);
    assert_eq!(r.laps[0].duration_seconds.as_ref().unwrap().repr, "93.8");
    assert_eq!(r.laps[1].sector_3.as_ref().unwrap().repr, "30.5");
    assert!(!r.laps[0].is_pit_out_lap);
    assert_eq!(r.driver_number, 1);
    assert_eq!(lap_times_cache_key(9001, 1), "lap_times:9001:1");
}

#[test]
fn lap_entries_without_a_number_are_skipped() {
    let laps = arr(vec![
        obj(vec![("lap_number", JsonValue::Null), ("lap_duration", num("90.0"))]),
        obj(vec![("lap_number", num("3")), ("lap_duration", JsonValue::Null), ("is_pit_out_lap", JsonValue::Bool(true))]),
    ]);
    let r = lap_times(2024, "X", "Race", "VER", 1, &laps);
    assert_eq!(r.laps_count, 1);
    assert_eq!(r.laps[0].lap_number, 3);
    assert!(r.laps[0].duration_seconds.is_none());
    assert!(r.laps[0].is_pit_out_lap);
    let none = lap_times(2024, "X", "Race", "VER", 1, &JsonValue::Null);
    assert_eq!(none.laps_count, 0);
}

// ---------------------------------------------------------------------------
// Tyre stints
// ---------------------------------------------------------------------------

#[test]
fn test_get_tire_stints() {
    let stint = |sn: &str, c: &str, a: &str, b: &str| {
        obj(vec![
            ("driver_number", num("1")),
            ("stint_number", num(sn)),
            ("compound", s(c)),
            ("lap_start", num(a)),
            ("lap_end", num(b)),
            ("tyre_age_at_start", num("0")),
        ])
    };
    let stints = arr(vec![stint("1", "MEDIUM", "1", "20"), stint("2", "HARD", "21", "57")]);
    assert!(check_stints(&stints));
    let r = tire_stints(2024, "Bahrain", Some("VER"), &stints, &drivers_json());
    assert_eq!(r.stints_count, 2);
    assert_eq!(r.stints.len(), 2);
    assert_eq!(r.stints[0].compound, "MEDIUM");
    assert_eq!(r.stints[0].lap_start, 1);
    assert_eq!(r.stints[0].lap_end, 20);
    assert_eq!(r.stints[1].compound, "HARD");
    assert_eq!(r.stints[1].lap_start, 21);
    assert_eq!(r.stints[1].lap_end, 57);
    assert_eq!(r.stints[0].laps, 20);
    assert_eq!(r.stints[1].laps, 37);
    assert_eq!(r.stints[0].driver_name, "Max VERSTAPPEN");
    assert_eq!(r.driver_filter.as_deref(), Some("VER"));
}

#[test]
fn stints_defaults_and_checks() {
    let unknown = arr(vec![obj(vec![
        ("driver_number", num("99")),
        ("stint_number", num("1")),
        ("lap_start", num("5")),
        ("lap_end", num("5")),
    ])]);
    let r = tire_stints(2024, "X", None, &unknown, &drivers_json());
    assert_eq!(r.stints[0].driver_name, "Unknown");
    assert_eq!(r.stints[0].compound, "UNKNOWN");
    assert_eq!(r.stints[0].laps, 1);
    assert_eq!(r.stints[0].tyre_age_at_start, 0);
    assert!(r.driver_filter.is_none());
    let backwards = arr(vec![obj(vec![
        ("driver_number", num("1")),
        ("stint_number", num("1")),
        ("lap_start", num("9")),
        ("lap_end", num("3")),
    ])]);
    assert!(!check_stints(&backwards));
    assert_eq!(stints_url("http://h", 7, Some(44)), "http://h/stints?session_key=7&driver_number=44");
    assert_eq!(stints_url("http://h", 7, None), "http://h/stints?session_key=7");
    assert_eq!(stints_cache_key(7, None), "tire_stints:7:all");
    assert_eq!(stints_cache_key(7, Some(44)), "tire_stints:7:44");
}

// ---------------------------------------------------------------------------
// Standings
// ---------------------------------------------------------------------------

#[test]
fn test_get_standings() {
    let body = obj(vec![(
        "MRData",
        obj(vec![(
            "StandingsTable",
            obj(vec![(
                "StandingsLists",
                arr(vec![obj(vec![(
                    "DriverStandings",
                    arr(vec![obj(vec![
                        ("position", s("1")),
                        ("points", s("575")),
                        ("wins", s("19")),
                        (
                            "Driver",
                            obj(vec![("givenName", s("Max")), ("familyName", s("Verstappen")), ("code", s("VER"))]),
                        ),
                        ("Constructors", arr(vec![obj(vec![("name", s("Red Bull"))])])),
                    ])]),
                )])]),
            )]),
        )]),
    )]);
    let kind = standings_kind("drivers").unwrap();
    assert_eq!(standings_url("http://h", 2024, kind), "http://h/2024/driverStandings.json");
    let r = standings(2024, "drivers", kind, &body);
    assert_eq!(r.standings_count, 1);
    match r.standings {
        StandingsRows::Drivers(rows) => {
            assert_eq!(rows.len(), 1);
            assert_eq!(rows[0].driver, "Max Verstappen");
            assert_eq!(rows[0].points, "575");
            assert_eq!(rows[0].wins, "19");
            assert_eq!(rows[0].team, "Red Bull");
            assert_eq!(rows[0].driver_code, "VER");
            assert_eq!(rows[0].position, "1");
        },
        _ => panic!("expected driver standings"),
    }
}

#[test]
fn constructor_standings() {
    let body = obj(vec![(
        "MRData",
        obj(vec![(
            "StandingsTable",
            obj(vec![(
                "StandingsLists",
                arr(vec![obj(vec![(
                    "ConstructorStandings",
                    arr(vec![obj(vec![
                        ("position", s("1")),
                        ("points", s("666")),
                        ("wins", s("6")),
                        ("Constructor", obj(vec![("name", s("McLaren")), ("nationality", s("British"))])),
                    ])]),
                )])]),
            )]),
        )]),
    )]);
    let kind = standings_kind("Teams").unwrap();
    assert!(kind == StandingsKind::Constructors);
    assert_eq!(standings_cache_key(2024, kind), "standings:2024:constructorStandings");
    let r = standings(2024, "Teams", kind, &body);
    match r.standings {
        StandingsRows::Constructors(rows) => {
            assert_eq!(rows.len(), 1);
            assert_eq!(rows[0].constructor, "McLaren");
            assert_eq!(rows[0].nationality, "British");
            assert_eq!(rows[0].points, "666");
        },
        _ => panic!("expected constructor standings"),
    }
}

#[test]
fn standings_kind_errors() {
    assert!(standings_kind("DRIVER").unwrap() == StandingsKind::Drivers);
    assert!(standings_kind("constructor").unwrap() == StandingsKind::Constructors);
    assert_eq!(
        standings_kind("Pilots").err().unwrap(),
        "Invalid standings_type 'pilots'. Use 'drivers' or 'constructors'."
    );
}

#[test]
fn jolpica_section_must_be_configured() {
    assert_eq!(jolpica_section(None).err().unwrap(), "Jolpica-F1 API is not configured. Add a [jolpica] section to your config file.");
    let cfg = JolpicaConfig { base_url: "http://j".to_string() };
    assert_eq!(jolpica_section(Some(&cfg)).unwrap().base_url, "http://j");
}

// ---------------------------------------------------------------------------
// Driver comparison
// ---------------------------------------------------------------------------

#[test]
fn test_compare_drivers() {
    let lap = |n: &str, d: &str, drv: &str| {
        obj(vec![("lap_number", num(n)), ("lap_duration", num(d)), ("driver_number", num(drv))])
    };
    let ver = arr(vec![lap("1", "93.8", "1"), lap("2", "92.2", "1"), lap("3", "91.5", "1")]);
    let nor = arr(vec![lap("1", "94.1", "4"), lap("2", "92.5", "4"), lap("3", "91.8", "4")]);
    let a = match_driver(&drivers_json(), "VER", 9001).unwrap();
    let b = match_driver(&drivers_json(), "NOR", 9001).unwrap();
    assert_eq!(a, 1);
    assert_eq!(b, 4);
    let laps = comparable_laps(&ver, &nor);
    assert_eq!(laps.len(), 3);
    for l in &laps {
        let ta: f64 = l.driver_a_time.repr.parse().unwrap();
        let tb: f64 = l.driver_b_time.repr.parse().unwrap();
        assert!(ta - tb < 0.0, "expected negative delta (VER faster)");
    }
    let best_a = laps.iter().map(|l| l.driver_a_time.repr.parse::<f64>().unwrap()).fold(f64::MAX, f64::min);
    let best_b = laps.iter().map(|l| l.driver_b_time.repr.parse::<f64>().unwrap()).fold(f64::MAX, f64::min);
    assert!((best_a - 91.5).abs() < 0.01);
    assert!((best_b - 91.8).abs() < 0.01);
    assert_eq!(compare_cache_key(9001, 1, 4), "compare:9001:1:4");
}

#[test]
fn comparable_laps_are_common_and_ordered() {
    let lap = |n: &str, d: JsonValue| obj(vec![("lap_number", num(n)), ("lap_duration", d)]);
    let a = arr(vec![lap("5", num("90.1")), lap("2", num("91.0")), lap("3", JsonValue::Null), lap("7", num("89.0"))]);
    let b = arr(vec![lap("7", num("88.5")), lap("3", num("92.0")), lap("2", num("90.5")), lap("5", num("90.0"))]);
    let laps = comparable_laps(&a, &b);
    let numbers: Vec<u64> = laps.iter().map(|l| l.lap).collect();
    assert_eq!(numbers, vec![2, 5, 7]);
    assert_eq!(laps[0].driver_a_time.repr, "91.0");
    assert_eq!(laps[0].driver_b_time.repr, "90.5");
    assert_eq!(laps[2].driver_b_time.repr, "88.5");
    assert!(comparable_laps(&a, &JsonValue::Null).is_empty());
}

// ---------------------------------------------------------------------------
// Race results
// ---------------------------------------------------------------------------

#[test]
fn race_results_use_last_position_and_sort() {
    let pos = |d: &str, p: &str| obj(vec![("driver_number", num(d)), ("position", num(p))]);
    let positions = arr(vec![pos("4", "1"), pos("1", "2"), pos("1", "1"), pos("4", "2"), pos("16", "3")]);
    let r = race_results(&positions, &drivers_json());
    assert_eq!(r.len(), 3);
    assert_eq!((r[0].position, r[0].driver_number), (1, 1));
    assert_eq!((r[1].position, r[1].driver_number), (2, 4));
    assert_eq!((r[2].position, r[2].driver_number), (3, 16));
    assert_eq!(r[0].driver_name, "Max VERSTAPPEN");
    assert_eq!(r[0].driver_acronym, "VER");
    assert_eq!(r[1].team, "McLaren");
    assert_eq!(r[2].driver_name, "Unknown");
    assert_eq!(r[2].driver_acronym, "");
    assert_eq!(r[2].team, "Unknown");
    assert_eq!(positions_url("http://h", 9001), "http://h/position?session_key=9001");
    assert_eq!(race_results_cache_key(2024, "Bahrain"), "race_results:2024:Bahrain");
}

// ---------------------------------------------------------------------------
// Telemetry
// ---------------------------------------------------------------------------

#[test]
fn telemetry_window_and_samples() {
    let laps = arr(vec![obj(vec![("date_start", s("2024-03-02T15:03:00.000000+00:00")), ("lap_duration", num("93.8"))])]);
    let w = lap_window(&laps).unwrap();
    assert_eq!(w.date_start.as_deref(), Some("2024-03-02T15:03:00.000000+00:00"));
    assert_eq!(w.lap_duration.unwrap().repr, "93.8");
    assert!(lap_window(&arr(vec![])).is_none());
    assert_eq!(lap_url("http://h", 9, 1, 3), "http://h/laps?session_key=9&driver_number=1&lap_number=3");
    assert_eq!(
        car_data_url("http://h", 9, 1, Some("A"), Some("B")),
        "http://h/car_data?session_key=9&driver_number=1&date>A&date<B"
    );
    assert_eq!(car_data_url("http://h", 9, 1, None, None), "http://h/car_data?session_key=9&driver_number=1");
    assert_eq!(telemetry_cache_key(9, 1, None), "telemetry:9:1:all");
    assert_eq!(telemetry_cache_key(9, 1, Some(3)), "telemetry:9:1:3");
    let entries = vec![
        obj(vec![
            ("date", s("t0")),
            ("speed", num("301")),
            ("throttle", num("99")),
            ("brake", num("0")),
            ("n_gear", num("8")),
            ("drs", num("12")),
            ("rpm", num("11000")),
        ]),
        obj(vec![("speed", num("12.5"))]),
    ];
    let samples = telemetry_samples(&entries);
    assert_eq!(samples.len(), 2);
    assert_eq!(samples[0].speed, 301);
    assert_eq!(samples[0].gear, 8);
    assert_eq!(samples[0].rpm, Some(11000));
    assert_eq!(samples[1].speed, 0);
    assert_eq!(samples[1].date, "");
    assert!(samples[1].rpm.is_none());
    let t = telemetry(2024, "Bahrain", "Race", "VER", 1, Some(3), 500, &entries);
    assert_eq!(t.total_raw_samples, 500);
    assert_eq!(t.samples_returned, 2);
    assert_eq!(t.telemetry.len(), 2);
    assert_eq!(t.lap, Some(3));
}

#[test]
fn numeric_drivers_need_no_lookup() {
    assert_eq!(numeric_driver("44"), Some(44));
    assert_eq!(numeric_driver("+7"), Some(7));
    assert_eq!(numeric_driver("01"), Some(1));
    assert_eq!(numeric_driver("VER"), None);
    assert_eq!(numeric_driver("70000"), None);
    assert_eq!(numeric_driver("-1"), None);
    assert_eq!(numeric_driver(""), None);
}

#[test]
fn lap_window_end_adds_the_duration() {
    assert_eq!(
        lap_window_end(Some("2024-03-02T15:03:00.000000+00:00"), Some(93_800)).as_deref(),
        Some("2024-03-02T15:04:33.800+00:00")
    );
    assert_eq!(
        lap_window_end(Some("2024-03-02T23:59:30+01:00"), Some(60_000)).as_deref(),
        Some("2024-03-03T00:00:30+01:00")
    );
    assert!(lap_window_end(Some("not a date"), Some(1)).is_none());
    assert!(lap_window_end(None, Some(1)).is_none());
    assert!(lap_window_end(Some("2024-03-02T15:03:00+00:00"), None).is_none());
}

#[test]
fn session_classification_answer() {
    let pos = |d: &str, p: &str| obj(vec![("driver_number", num(d)), ("position", num(p))]);
    let positions = arr(vec![pos("4", "2"), pos("1", "1")]);
    let r = race_classification(2024, "Bahrain", "Qualifying", &positions, &drivers_json());
    assert_eq!(r.session, "Qualifying");
    assert_eq!(r.year, 2024);
    assert_eq!(r.grand_prix, "Bahrain");
    assert_eq!(r.results_count, 2);
    assert_eq!(r.results[0].driver_number, 1);
    assert_eq!(session_results_cache_key(2024, "Bahrain", "Qualifying"), "session_results:2024:Bahrain:Qualifying");
}
