//! The backend's settings: Twitch credentials and the database address,
//! read from a TOML file that is watched and reloaded when it changes.

use vstd::prelude::*;

use crate::text::to_owned_string;

verus! {

/// The settings, with the file they were read from.
#[derive(Clone, Debug)]
pub struct Config {
    pub twitch: Twitch,
    pub db: Db,
    pub path: String,
}

/// The settings as the file holds them.
#[derive(Debug)]
pub struct InnerConfig {
    pub twitch: Twitch,
    pub db: Db,
}

#[derive(Clone, Debug)]
pub struct Twitch {
    pub username: String,
    pub client_id: String,
    pub client_secret: String,
}

#[derive(Clone, Debug)]
pub struct Db {
    pub url: String,
}

/// What the file watcher does with an event on the settings file.
#[derive(Clone, Copy, Debug, PartialEq, Eq, Structural)]
pub enum WatchAction {
    /// Not a modification: nothing happens.
    Ignore,
    /// A modification right after another one: only its time is kept.
    Touch,
    /// Reload the settings, run the callbacks, and keep the event's time.
    Reload,
}

/// The least time, in milliseconds, between two modifications that each
/// reload the settings.
pub const RELOAD_GAP_MS: u128 = 25;

impl Config {
    /// The settings read from the file at `path`.
    pub fn new(path: &str, data: InnerConfig) -> (c: Self)
        ensures
            c.twitch == data.twitch,
            c.db == data.db,
            c.path@ == path@,
    {
        Config { twitch: data.twitch, db: data.db, path: to_owned_string(path) }
    }

    /// Add callbacks that trigger when the config updates
    pub fn add_callback<C>(callbacks: &mut Vec<C>, callback: C)
        ensures
            final(callbacks)@ == old(callbacks)@.push(callback),
    {
        callbacks.push(callback);
    }

    /// Takes over the settings just read from the file again; the file
    /// stays the same.
    pub fn config_reload(&mut self, data: InnerConfig)
        ensures
            final(self).twitch == data.twitch,
            final(self).db == data.db,
            final(self).path@ == old(self).path@,
    {
        self.twitch = data.twitch;
        self.db = data.db;
    }

    /// What to do with a file event: a modification reloads the settings
    /// unless it comes less than `RELOAD_GAP_MS` after the previous one;
    /// other events are ignored.
    pub fn watch_action(is_modify: bool, since_last_ms: u128) -> (a: WatchAction)
        ensures
            a == (if !is_modify {
                WatchAction::Ignore
            } else if since_last_ms >= RELOAD_GAP_MS {
                WatchAction::Reload
            } else {
                WatchAction::Touch
            }),
    {
        if !is_modify {
            WatchAction::Ignore
        } else if since_last_ms >= RELOAD_GAP_MS {
            WatchAction::Reload
        } else {
            WatchAction::Touch
        }
    }
}

} // verus!
