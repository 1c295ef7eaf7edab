//! The logging settings: the directory of the log files and the path of the
//! manifest.
use vstd::prelude::*;

verus! {

/// The logging settings.
pub struct LoggingConfig {
    pub log_dir: String,
    pub manifest: String,
}

/// The path of the manifest that the settings name.
pub fn load_manifest(logging_config: &LoggingConfig) -> (r: String)
    ensures
        r@ == logging_config.manifest@,
{
    logging_config.manifest.clone()
}

/// The directory of the log files that the settings name.
pub fn load_log_dir(logging_config: &LoggingConfig) -> (r: String)
    ensures
        r@ == logging_config.log_dir@,
{
    logging_config.log_dir.clone()
}

} // verus!
