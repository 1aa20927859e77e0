//! Image intake and battery-reading extraction for a camera bridge.
//!
//! A camera device sends encoded images over a serial link or a network
//! upload. This library frames the serial byte stream, stages the most recent
//! image for text recognition behind a single-worker guard, runs recognition
//! and extracts battery-percentage readings from the recognized text.

pub mod extract;
pub mod framing;
pub mod framing_laws;
pub mod intake;
pub mod intake_laws;
pub mod link;
pub mod paths;
pub mod recognize;
pub mod upload;
pub mod views;
