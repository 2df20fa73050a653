//! Verified core of a package-repository ingestion pipeline.
//!
//! The library scans a package root for repository directories, models each
//! repository as an aggregate of parsed package records, and turns the whole
//! set into an ordered plan of relational insert statements: one repository
//! row before all of that repository's package rows, each package row carrying
//! a download URL derived from per-repository configuration.
//!
//! Filesystem enumeration, descriptor parsing and statement execution live
//! outside the library; it works on plain values and is verified end to end.

pub mod config;
pub mod package;
pub mod plan;
pub mod row;
pub mod scan;
pub mod text;
