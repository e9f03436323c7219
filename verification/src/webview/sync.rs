//! Relógio de reprodução.

pub mod clock;
