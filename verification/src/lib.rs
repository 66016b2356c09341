//! A verified core for a detailed directory lister.
//!
//! The library classifies directory members into a closed set of kinds,
//! renders permission bits, sizes and grouped numbers as text, resolves
//! owners through a lookup table, collects raw directory records into a
//! sorted list of entries, and lays the result out as an aligned report.
//! All filesystem access stays outside: callers hand the library plain
//! values read from the directory stream and receive finished lines back.

pub mod collect;
pub mod entry;
pub mod errors;
pub mod kind;
pub mod locale;
pub mod order;
pub mod permissions;
pub mod report;
pub mod sizes;
pub mod text;
pub mod users;
