//! Inputs of the Spanish public data tools.

use vstd::prelude::*;

verus! {

pub struct LookupCnaeInput {
    /// CNAE code or prefix to search for (e.g., "6201", "62").
    pub code: Option<String>,
    /// Description substring to search for (case-insensitive).
    pub description: Option<String>,
}

pub struct SearchBoeInput {
    /// Keywords to search in BOE document titles.
    pub keywords: String,
    /// First day of the search range (YYYYMMDD or YYYY-MM-DD); by default 29
    /// days before the last day.
    pub date_from: Option<String>,
    /// Last day of the search range (YYYYMMDD or YYYY-MM-DD); by default today.
    pub date_to: Option<String>,
    /// Filter by BOE section name.
    pub section: Option<String>,
    /// Filter by publishing department.
    pub department: Option<String>,
}

pub struct GetAeatCalendarInput {
    /// Tax year (e.g., 2025).
    pub year: u16,
    /// Quarter to filter (1-4); all quarters when omitted.
    pub quarter: Option<u8>,
    /// Business type filter: autonomo, sl, sa, cooperativa.
    pub business_type: Option<String>,
}

pub struct QueryCatastroInput {
    /// Cadastral reference number (20-character alphanumeric).
    pub reference: Option<String>,
    /// Province name for address-based lookup.
    pub province: Option<String>,
    /// Municipality name for address-based lookup.
    pub municipality: Option<String>,
    /// Street name for address-based lookup.
    pub street: Option<String>,
    /// Street number for address-based lookup.
    pub number: Option<String>,
}

pub struct CheckVerifactuInput {
    /// Business type: autonomo, sl, sa, cooperativa.
    pub business_type: String,
    /// Whether the business is enrolled in SII (turnover above 6M EUR).
    pub sii_enrolled: Option<bool>,
}

} // verus!
