//! What a client of the beacon node API sends and receives.

pub mod paths;
pub mod types;
pub mod validator_status;
