//! A format-string engine for GPU telemetry: a small templating language whose
//! placeholders name typed, unit-aware metrics, resolved against a snapshot in
//! which any metric may be unavailable.
//!
//! - [`gpu_status::fields`] holds the vocabulary of fields and reads the text
//!   of a placeholder; [`formatter::units`] the units and their conversions.
//! - [`formatter`] parses a template into chunks and renders the chunks
//!   against a snapshot; [`formatter::grammar`] says what a placeholder is.
//! - [`formatter::prune`] tailors a default template to what a device has.
//! - [`gpu_status`] holds the snapshot and writes single fields.
//! - [`config`] chooses the templates; [`nvidia`], [`amd`] and [`drm`] turn
//!   what the drivers report into snapshots; [`instance`] finds the vendor.

pub mod amd;
pub mod config;
pub mod drm;
pub mod formatter;
pub mod gpu_status;
pub mod instance;
pub mod nvidia;
pub mod text;
