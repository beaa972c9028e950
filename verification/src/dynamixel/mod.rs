//! Servo models speaking protocol 1.

pub mod mx28;
