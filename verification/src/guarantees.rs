//! What the operations are for, stated of the calls themselves: of what goes into
//! a call and what comes out of it, in the bytes, ports, times and keys that a
//! caller sees.

pub mod admission;
pub mod basics;
pub mod control;
pub mod datapath;
pub mod decision;
pub mod files;
pub mod filtering;
pub mod format;
pub mod hosts;
pub mod material;
pub mod reading;
pub mod reload;
pub mod replay;
pub mod reporting;
pub mod sealing;
pub mod trust;
pub mod wording;
