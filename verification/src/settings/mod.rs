//! Application settings: the configuration, its file, and the manager that
//! holds the current snapshot.
use vstd::prelude::*;

pub mod config;
pub mod store;

use config::{is_default_settings, AppSettings};
use store::{SettingsError, SettingsStore};

verus! {

/// The current settings and the store they persist to.
pub struct SettingsManager {
    store: SettingsStore,
    current: AppSettings,
}

impl SettingsManager {
    /// The settings in effect.
    pub closed spec fn settings(&self) -> AppSettings {
        self.current
    }

    /// The store the settings persist to.
    pub closed spec fn settings_store(&self) -> SettingsStore {
        self.store
    }

    /// A manager for `store` holding the default settings; the store is
    /// neither read nor written.
    pub fn with_store(store: SettingsStore) -> (r: Self)
        ensures
            r.settings_store() == store,
            is_default_settings(r.settings()),
    {
        SettingsManager { store, current: AppSettings::default() }
    }

    /// A manager for `store` from what loading it gave: the loaded settings,
    /// or the loading error itself.
    pub fn new(store: SettingsStore, loaded: Result<AppSettings, SettingsError>) -> (r: Result<Self, SettingsError>)
        ensures
            match loaded {
                Ok(s) => r matches Ok(m) && m.settings() == s && m.settings_store() == store,
                Err(e) => r == Err::<Self, SettingsError>(e),
            },
    {
        match loaded {
            Ok(s) => Ok(SettingsManager { store, current: s }),
            Err(e) => Err(e),
        }
    }

    /// A snapshot of the current settings.
    pub fn get(&self) -> (r: AppSettings)
        ensures
            r == self.settings(),
    {
        self.current.duplicate()
    }

    /// The store the settings persist to.
    pub fn store(&self) -> (r: &SettingsStore)
        ensures
            *r == self.settings_store(),
    {
        &self.store
    }

    /// Makes `new_settings` current if saving them succeeded and returns
    /// them; if saving failed, the settings in effect stay and the error is
    /// returned.
    pub fn set(&mut self, new_settings: AppSettings, saved: Result<(), SettingsError>) -> (r: Result<AppSettings, SettingsError>)
        ensures
            final(self).settings_store() == old(self).settings_store(),
            match saved {
                Ok(_) => r == Ok::<AppSettings, SettingsError>(new_settings)
                    && final(self).settings() == new_settings,
                Err(e) => r == Err::<AppSettings, SettingsError>(e)
                    && final(self).settings() == old(self).settings(),
            },
    {
        match saved {
            Ok(()) => {
                let returned = new_settings.duplicate();
                self.current = new_settings;
                Ok(returned)
            },
            Err(e) => Err(e),
        }
    }

    /// Resets the settings to their defaults if saving the defaults
    /// succeeded; if saving failed, the settings in effect stay.
    pub fn reset(&mut self, saved: Result<(), SettingsError>) -> (r: Result<AppSettings, SettingsError>)
        ensures
            final(self).settings_store() == old(self).settings_store(),
            match saved {
                Ok(_) => r matches Ok(s) && s == final(self).settings() && is_default_settings(s),
                Err(e) => r == Err::<AppSettings, SettingsError>(e)
                    && final(self).settings() == old(self).settings(),
            },
    {
        self.set(AppSettings::default(), saved)
    }
}

} // verus!
