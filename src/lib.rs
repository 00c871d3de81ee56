//! Verified core of a 3D-print quoting service: upload screening, model
//! format checks, G-code metadata extraction, profile selection and
//! retention decisions.
pub mod text;
pub mod error;
pub mod validate;
pub mod gcode;
pub mod filename;
pub mod profiles;
pub mod sweep;
pub mod pipeline;
