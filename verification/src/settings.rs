use vstd::prelude::*;

verus! {

/// Process-level configuration: where configuration and data live,
/// and which optional behaviours are switched on.
#[derive(Debug, Clone)]
pub struct AppSettings {
    pub config_dir: Option<String>,
    pub data_dir: Option<String>,
    pub use_backup: bool,
    pub use_service: bool,
}

/// Relies on directories::ProjectDirs::from for the platform's
/// configuration and data directories; the result depends on the
/// machine's environment, so nothing is promised of it.
#[verifier::external_body]
fn project_dir_paths() -> (Option<String>, Option<String>) {
    match directories::ProjectDirs::from("io", "imtony", "ThingsTodo") {
        Some(pd) => (
            pd.config_dir().to_str().map(|p| p.to_owned()),
            pd.data_dir().to_str().map(|p| p.to_owned()),
        ),
        None => (None, None),
    }
}

impl Default for AppSettings {
    /// The stock configuration: directories as the platform
    /// conventions resolve them, backups on, service integration off.
    fn default() -> (r: Self)
        ensures
            r.use_backup == true,
            r.use_service == false,
    {
        let dirs = project_dir_paths();
        AppSettings { config_dir: dirs.0, data_dir: dirs.1, use_backup: true, use_service: false }
    }
}

} // verus!
