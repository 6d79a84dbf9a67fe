//! Telemetry core of a GPU-shaded status bar.
//!
//! Raw operating-system counters are parsed from text, turned into usage
//! bytes, kept as a per-row ring of the last 256 samples and packed four to a
//! 32-bit word in the exact layout the fragment shader reads.

pub mod error;
pub mod normalize;
pub mod packing;
pub mod history;
pub mod text;
pub mod counters;
pub mod sensors;
pub mod rows;
pub mod uniform;
pub mod frame;
pub mod strings;
pub mod paths;
pub mod pattern;
pub mod registry;
pub mod detect;
pub mod tray;
