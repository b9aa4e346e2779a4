//! Slashing protection for validator signing duties: per-validator lower
//! bounds, the signing rules that guard them, and the interchange model used
//! to move protection data between stores.

pub mod account_manager;
pub mod behaviour;
pub mod decimal;
pub mod eth2;
pub mod exchange;
pub mod exchange_laws;
pub mod hex_text;
pub mod http_api;
pub mod interchange;
pub mod interchange_json;
pub mod interchange_json_laws;
pub mod interchange_reader;
pub mod interchange_writer;
pub mod json;
pub mod laws;
pub mod lower_bound;
pub mod root_text;
pub mod serde;
pub mod serde_utils;
pub mod signing;
pub mod slashing_database;
pub mod store;
pub mod test_utils;
pub mod text;
pub mod types;

pub use crate::exchange::ImportError;
pub use crate::interchange::SUPPORTED_INTERCHANGE_FORMAT_VERSION;
pub use crate::lower_bound::LowerBound;
pub use crate::signing::{InvalidAttestation, InvalidBlock, NotSafe, Safe};
pub use crate::slashing_database::SlashingDatabase;
