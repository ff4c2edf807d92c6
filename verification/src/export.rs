//! Log export formats and the persisted settings.

pub mod exporter;
pub mod persistence;
