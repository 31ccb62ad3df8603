//! Bridge library between generic MIDI control surfaces and PreSonus UCNet
//! mixers: the UCNet wire codec, the MIDI message model, the bidirectional
//! parameter mapper with taper curves, the shadow-state feedback suppressor,
//! and the synchronisation engine that ties them together.
//!
//! Continuous values (fader levels, pan positions) are carried in fixed
//! point: an `i64` counts micro-units, with [`taper::UNIT`] micro-units
//! standing for 1.0.

pub mod strutil;
pub mod translation;
pub mod taper;
pub mod shadow;
pub mod midi;
pub mod mapper;
pub mod engine;
pub mod learn;
pub mod errors;
pub mod protocol;
pub mod usb;
pub mod keys;
pub mod ucnet_types;
pub mod discovery;
pub mod device_db;
pub mod enumeration;
pub mod db_types;
pub mod learn_api;
pub mod requests;
pub mod mcu;
pub mod connection;
