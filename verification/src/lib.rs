//! Discovery, selection and launch planning for showcase examples.
//!
//! The library holds the rules of the launcher as verified code: which
//! directory entries are descriptors, how a descriptor document becomes
//! example records, which examples a filter selects, and in which order
//! the processes of an example are delayed, started and awaited. Reading
//! directories, talking to the operator and starting processes are left to
//! the caller, who performs each request and reports back what happened.

pub mod descriptor;
pub mod json;
pub mod model;
pub mod report;
pub mod runner;
pub mod scan;
pub mod select;
pub mod session;
pub mod text;
