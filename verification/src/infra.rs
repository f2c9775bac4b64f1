//! Infrastructure metrics: Prometheus queries, Grafana dashboards,
//! Alertmanager alerts, Docker containers and host health.

pub mod alerts;
pub mod docker;
pub mod grafana;
pub mod health;
pub mod prometheus;
pub mod config;
pub mod inputs;
