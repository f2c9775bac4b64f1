//! Spanish public data: business activity codes, tax calendar, Verifactu
//! e-invoicing rules, the official gazette (BOE) and the property registry.

pub mod cnae;
pub mod aeat;
pub mod verifactu;
pub mod boe;
pub mod catastro;
pub mod dates;
pub mod inputs;
