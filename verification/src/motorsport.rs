//! Formula 1 data from the OpenF1 and Jolpica-F1 APIs: sessions, drivers,
//! lap times, tyre stints, telemetry, race results and standings.

pub mod resolve;
pub mod laps;
pub mod stints;
pub mod standings;
pub mod telemetry;
pub mod compare;
pub mod race;
pub mod inputs;
