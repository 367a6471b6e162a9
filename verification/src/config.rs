//! Where a dump comes from and where it is kept.

use vstd::prelude::*;

verus! {

/// The database to read, the schemas to take, and the file that holds the dump.
#[derive(Debug, Clone, PartialEq, Eq)]
pub struct DumpConfig {
    pub host: String,
    pub port: String,
    pub user: String,
    pub password: String,
    pub database: String,
    /// A pattern for `similar to`: the names of the schemas to take.
    pub scheme: String,
    pub ssl: bool,
    pub file: String,
}

} // verus!
