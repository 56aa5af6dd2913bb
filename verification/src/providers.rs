//! The provider layer: the classified provider errors, the wire-shaped
//! payload models, the two provider implementations and the normalized
//! report they both produce.

pub mod error;
pub mod models;
pub mod open_weather;
pub mod providers_report;
pub mod weather_api;

pub use error::ProviderResult;
pub use providers_report::ProvidersReport;
