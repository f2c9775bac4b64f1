//! Inputs of the infrastructure tools.

use vstd::prelude::*;

verus! {

pub struct GetServerHealthInput {}

pub struct ListContainersInput {
    /// Filter containers by name substring.
    pub name_filter: Option<String>,
    /// Include stopped containers (default: false).
    pub all: Option<bool>,
}

pub struct QueryPrometheusInput {
    /// PromQL query expression.
    pub query: String,
    /// Evaluation timestamp (RFC3339 or Unix). Defaults to now.
    pub time: Option<String>,
    /// Range query start time.
    pub start: Option<String>,
    /// Range query end time.
    pub end: Option<String>,
    /// Range query step interval (e.g., 15s, 1m, 5m).
    pub step: Option<String>,
}

pub struct GetGrafanaDashboardInput {
    /// Dashboard name to search for.
    pub name: Option<String>,
    /// Dashboard UID for direct lookup.
    pub uid: Option<String>,
}

pub struct ListAlertsInput {
    /// Filter by alert status (firing, resolved).
    pub status: Option<String>,
    /// Filter by severity (critical, warning, info).
    pub severity: Option<String>,
}

} // verus!
