//! Status reporting for Huawei-style cellular modems.
//!
//! The library covers everything between the raw bytes read from the serial
//! transport and the commands written back to it: assembling read chunks into
//! complete lines, classifying each line against the fixed AT-response
//! grammar, folding classified events into a status record, and choosing the
//! next command of the polling cycle. Opening the port, reading, writing and
//! presenting snapshots are left to the surrounding program.

pub mod at;
pub mod classify;
pub mod framer;
pub mod machine;
pub mod text;
