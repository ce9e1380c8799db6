//! Persistent application settings: the schema, its defaults, and the
//! in-memory store. Reading and writing the settings file is the caller's.

use vstd::prelude::*;

verus! {

use vstd::string::StringExecFns;

/// The settings schema.
#[derive(Clone, Debug)]
pub struct AppSettings {
    pub log_level: String,
    pub max_concurrency: u32,
    pub default_download_dir: Option<String>,
    pub upload_thumbnail: bool,
    pub android_tree_uri: Option<String>,
}

impl AppSettings {
    /// The defaults: info logging, two concurrent transfers, thumbnails off.
    pub fn fresh() -> (r: AppSettings)
        ensures
            r.log_level@ == "info"@,
            r.max_concurrency == 2,
            r.default_download_dir is None,
            !r.upload_thumbnail,
            r.android_tree_uri is None,
    {
        AppSettings {
            log_level: String::from_str("info"),
            max_concurrency: 2,
            default_download_dir: None,
            upload_thumbnail: false,
            android_tree_uri: None,
        }
    }

    /// A field-wise copy.
    pub fn duplicate(&self) -> (r: AppSettings)
        ensures
            r == *self,
    {
        AppSettings {
            log_level: self.log_level.clone(),
            max_concurrency: self.max_concurrency,
            default_download_dir: match &self.default_download_dir {
                Some(x) => Some(x.clone()),
                None => None,
            },
            upload_thumbnail: self.upload_thumbnail,
            android_tree_uri: match &self.android_tree_uri {
                Some(x) => Some(x.clone()),
                None => None,
            },
        }
    }
}

/// The in-memory settings store.
pub struct SettingsStore {
    pub current: AppSettings,
}

impl SettingsStore {
    /// Start from loaded settings, or from the defaults when none loaded.
    pub fn init(loaded: Option<AppSettings>) -> (r: SettingsStore)
        ensures
            match loaded {
                Some(s) => r.current == s,
                None => r.current.log_level@ == "info"@ && r.current.max_concurrency == 2
                    && !r.current.upload_thumbnail,
            },
    {
        SettingsStore {
            current: match loaded {
                Some(s) => s,
                None => AppSettings::fresh(),
            },
        }
    }

    /// The settings in force.
    pub fn get(&self) -> (r: AppSettings)
        ensures
            r == self.current,
    {
        self.current.duplicate()
    }

    /// Replace the settings; the caller persists the same value.
    pub fn set(&mut self, new_settings: AppSettings)
        ensures
            final(self).current == new_settings,
    {
        self.current = new_settings;
    }
}

} // verus!
