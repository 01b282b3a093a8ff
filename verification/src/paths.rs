//! Filesystem locations of the daemon's state.
//!
//! The directories are created and locked down by the embedding program;
//! this type only fixes where everything lives.

use vstd::prelude::*;

verus! {

/// Where the daemon keeps its data, database, configuration and logs.
#[derive(Debug)]
pub struct ApfPaths {
    pub data_dir: String,
    pub db_path: String,
    pub config_dir: String,
    pub log_dir: String,
}

impl Default for ApfPaths {
    /// The standard system locations.
    fn default() -> (r: Self)
        ensures
            r.data_dir@ == "/var/lib/apf"@,
            r.db_path@ == "/var/lib/apf/apf.db"@,
            r.config_dir@ == "/etc/appfence"@,
            r.log_dir@ == "/var/log/apf"@,
    {
        ApfPaths {
            data_dir: "/var/lib/apf".to_owned(),
            db_path: "/var/lib/apf/apf.db".to_owned(),
            config_dir: "/etc/appfence".to_owned(),
            log_dir: "/var/log/apf".to_owned(),
        }
    }
}

} // verus!
