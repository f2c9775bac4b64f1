//! Configuration of the infrastructure server.

use vstd::prelude::*;
use crate::common::config::ServerConfig;

verus! {

pub struct PrometheusConfig {
    pub url: String,
    pub auth_token: Option<String>,
}

pub struct DockerConfig {
    pub socket: Option<String>,
}

impl Default for DockerConfig {
    fn default() -> (r: Self)
        ensures
            r.socket is None,
    {
        DockerConfig { socket: None }
    }
}

pub struct GrafanaConfig {
    pub url: String,
    pub auth_token: Option<String>,
}

pub struct AlertmanagerConfig {
    pub url: String,
}

pub struct InfraConfig {
    pub server: ServerConfig,
    pub prometheus: PrometheusConfig,
    pub docker: DockerConfig,
    pub grafana: Option<GrafanaConfig>,
    pub alertmanager: Option<AlertmanagerConfig>,
}

impl InfraConfig {
    /// The Grafana section, or the message that it is missing.
    pub fn grafana_section(&self) -> (r: Result<&GrafanaConfig, &'static str>)
        ensures
            match self.grafana {
                Some(g) => r == Ok::<&GrafanaConfig, &'static str>(&g),
                None => r == Err::<&GrafanaConfig, &'static str>(
                    "Grafana is not configured. Add a [grafana] section to your config file.",
                ),
            },
    {
        match &self.grafana {
            Some(g) => Ok(g),
            None => Err("Grafana is not configured. Add a [grafana] section to your config file."),
        }
    }

    /// The Alertmanager section, or the message that it is missing.
    pub fn alertmanager_section(&self) -> (r: Result<&AlertmanagerConfig, &'static str>)
        ensures
            match self.alertmanager {
                Some(a) => r == Ok::<&AlertmanagerConfig, &'static str>(&a),
                None => r == Err::<&AlertmanagerConfig, &'static str>(
                    "Alertmanager is not configured. Add an [alertmanager] section to your config file.",
                ),
            },
    {
        match &self.alertmanager {
            Some(a) => Ok(a),
            None => Err(
                "Alertmanager is not configured. Add an [alertmanager] section to your config file.",
            ),
        }
    }
}

} // verus!
