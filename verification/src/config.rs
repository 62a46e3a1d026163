//! Application configuration: where the primary and backup drives live.
//!
//! Reading and writing the configuration file is a host concern; this type
//! only carries the two drive paths as plain strings.

use vstd::prelude::*;

verus! {

/// The two drive roots the vault works with. Either may be unset: the
/// primary before first configuration, the backup whenever no mirror is
/// attached.
pub struct AppConfig {
    pub primary_drive: Option<String>,
    pub backup_drive: Option<String>,
}

impl AppConfig {
    /// A configuration with no drives chosen yet.
    pub fn new() -> (c: AppConfig)
        ensures
            c.primary_drive is None,
            c.backup_drive is None,
    {
        AppConfig { primary_drive: None, backup_drive: None }
    }
}

impl Default for AppConfig {
    fn default() -> (c: AppConfig)
        ensures
            c.primary_drive is None,
            c.backup_drive is None,
    {
        AppConfig::new()
    }
}

} // verus!
