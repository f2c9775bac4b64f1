//! Configuration and inputs of the Formula 1 tools.

use vstd::prelude::*;

verus! {

pub struct JolpicaConfig {
    pub base_url: String,
}

/// The Jolpica-F1 section, or the message that it is missing.
pub fn jolpica_section(section: Option<&JolpicaConfig>) -> (r: Result<&JolpicaConfig, &'static str>)
    ensures
        match section {
            Some(j) => r == Ok::<&JolpicaConfig, &'static str>(j),
            None => r == Err::<&JolpicaConfig, &'static str>(
                "Jolpica-F1 API is not configured. Add a [jolpica] section to your config file.",
            ),
        },
{
    match section {
        Some(j) => Ok(j),
        None => Err("Jolpica-F1 API is not configured. Add a [jolpica] section to your config file."),
    }
}

pub struct GetRaceResultsInput {
    /// Season year (e.g., 2024).
    pub year: u16,
    /// Grand Prix country name (e.g., "Bahrain", "Monaco", "Spain").
    pub grand_prix: String,
}

pub struct GetSessionResultsInput {
    pub year: u16,
    pub grand_prix: String,
    /// Session type: FP1, FP2, FP3, Qualifying, Sprint, or Race.
    pub session: String,
}

pub struct GetLapTimesInput {
    pub year: u16,
    pub grand_prix: String,
    pub session: String,
    /// Driver name, three-letter acronym (e.g., "VER"), or car number (e.g., "1").
    pub driver: String,
}

pub struct GetTireStintsInput {
    pub year: u16,
    pub grand_prix: String,
    /// Optional driver name, acronym, or number; all drivers when omitted.
    pub driver: Option<String>,
}

pub struct GetTelemetryInput {
    pub year: u16,
    pub grand_prix: String,
    pub session: String,
    pub driver: String,
    /// Optional lap number to restrict telemetry to one lap.
    pub lap: Option<u16>,
}

pub struct CompareDriversInput {
    pub year: u16,
    pub grand_prix: String,
    pub session: String,
    /// First driver: name, acronym, or car number.
    pub driver_a: String,
    /// Second driver: name, acronym, or car number.
    pub driver_b: String,
}

pub struct GetStandingsInput {
    pub year: u16,
    /// Type of standings: "drivers" or "constructors".
    pub standings_type: String,
}

} // verus!
