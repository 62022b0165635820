//! The daemon's configuration: control-plane server and data-plane
//! attachment settings.

use vstd::prelude::*;

verus! {

/// The whole configuration.
#[derive(Debug)]
pub struct Configuration {
    pub control_plane: ApplicationConfiguration,
    pub data_plane: DataPlaneConfiguration,
}

/// Where the HTTP API listens and how it logs.
#[derive(Debug)]
pub struct ApplicationConfiguration {
    pub host: String,
    pub port: u16,
    pub prefix: String,
    pub logger_name: String,
    pub default_env_filter: String,
}

/// Which container network to serve, the XDP attach mode, and the
/// physical NIC exposed ports are bound to.
#[derive(Debug)]
pub struct DataPlaneConfiguration {
    pub network: String,
    pub mode: String,
    pub pnic: Option<String>,
}

} // verus!
