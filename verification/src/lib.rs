//! A minimal account-record state machine: one persisted record per account,
//! with one-time initialization and authenticated counter updates.
//!
//! The record is stored as a fixed 37-byte layout (version, counter,
//! authority). Two instructions exist: `Initialize`, which claims an
//! uninitialized record for an authority, and `Greet`, which lets that
//! authority add to the record's counter.

pub mod error;
pub mod instruction;
pub mod processor;
pub mod state;
