//! Verified core of a family of MCP servers: Spanish public data (CNAE codes,
//! tax calendar, Verifactu, BOE, Catastro), Formula 1 data and
//! infrastructure metrics.

pub mod text;
pub mod json;
pub mod spain;
pub mod motorsport;
pub mod sorting;
pub mod infra;
pub mod common;
