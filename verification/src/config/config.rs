//! The service's settings as they are read from its configuration file.
use vstd::prelude::*;

verus! {

/// The settings of the service.
pub struct Config {
    pub logging: LoggingConfig,
}

/// Where the service keeps its snapshot.
pub struct LoggingConfig {
    pub log_rdb_dir: String,
}

} // verus!
