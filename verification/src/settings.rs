//! The service's configuration values and their defaults.

use vstd::prelude::*;
use vstd::string::StringExecFns;

verus! {

/// The configuration the process runs with: listen address, sidecar channel
/// address, and the logical store name.
#[derive(Clone, Debug, PartialEq, Eq)]
pub struct AppSettings {
    pub app_port: String,
    pub app_ip: String,
    pub dapr_state_store_name: String,
    pub dapr_grpc_server_address: String,
}

impl AppSettings {
    /// Builds the settings from whatever values the environment supplied,
    /// filling each absent one with its default.
    pub fn from_env_values(
        app_port: Option<String>,
        app_ip: Option<String>,
        dapr_grpc_server_address: Option<String>,
        dapr_state_store_name: Option<String>,
    ) -> (r: AppSettings)
        ensures
            r.app_port@ == match app_port {
                Some(p) => p@,
                None => "8080"@,
            },
            r.app_ip@ == match app_ip {
                Some(p) => p@,
                None => "0.0.0.0"@,
            },
            r.dapr_grpc_server_address@ == match dapr_grpc_server_address {
                Some(p) => p@,
                None => "http://localhost:5005"@,
            },
            r.dapr_state_store_name@ == match dapr_state_store_name {
                Some(p) => p@,
                None => "statestore"@,
            },
    {
        AppSettings {
            app_port: match app_port {
                Some(p) => p,
                None => "8080".to_owned(),
            },
            app_ip: match app_ip {
                Some(p) => p,
                None => "0.0.0.0".to_owned(),
            },
            dapr_state_store_name: match dapr_state_store_name {
                Some(p) => p,
                None => "statestore".to_owned(),
            },
            dapr_grpc_server_address: match dapr_grpc_server_address {
                Some(p) => p,
                None => "http://localhost:5005".to_owned(),
            },
        }
    }
}

} // verus!
