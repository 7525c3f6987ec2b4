//! The application's settings and how an older file is brought up to date.

use vstd::prelude::*;
use crate::text::{chars_of, is_str, owned};

verus! {

/// Bumped whenever a stored value needs rewriting on load.
pub const SETTINGS_VERSION: u32 = 2;

#[derive(Debug, Clone)]
pub struct AppSettings {
    /// Schema version of the file this was read from; 0 means pre-versioning.
    pub version: u32,
    pub default_quality: String,
    pub external_player: String,
    pub user_id: Option<String>,
    pub sort_voices: bool,
    pub theme: String,
    pub initial_view: String,
    /// Continue with the next episode automatically when playback ends.
    pub auto_next_episode: bool,
    /// Show the quality picker before every playback instead of using the saved choice.
    pub ask_quality_before_play: bool,
    /// Lower-cased country names whose titles are left out of listings.
    pub hidden_countries: Vec<String>,
}

/// The theme a file without one gets.
pub fn default_theme() -> (r: String)
    ensures
        r@ == "system"@,
{
    owned("system")
}

/// The first view a file without one gets.
pub fn default_initial_view() -> (r: String)
    ensures
        r@ == "home"@,
{
    owned("home")
}

/// The settings of a fresh install.
pub open spec fn is_default_settings(s: AppSettings) -> bool {
    &&& s.version == SETTINGS_VERSION
    &&& s.default_quality@ == "1080p"@
    &&& s.external_player@ == "mpv"@
    &&& s.user_id is None
    &&& !s.sort_voices
    &&& s.theme@ == "system"@
    &&& s.initial_view@ == "home"@
    &&& !s.auto_next_episode
    &&& !s.ask_quality_before_play
    &&& s.hidden_countries@.len() == 0
}

impl Default for AppSettings {
    fn default() -> (r: Self)
        ensures
            is_default_settings(r),
    {
        AppSettings {
            version: SETTINGS_VERSION,
            default_quality: owned("1080p"),
            external_player: owned("mpv"),
            user_id: None,
            sort_voices: false,
            theme: default_theme(),
            initial_view: default_initial_view(),
            auto_next_episode: false,
            ask_quality_before_play: false,
            hidden_countries: Vec::new(),
        }
    }
}

/// `t` is `s` brought up to date: before version 1 the player was a
/// launcher command (such as `xdg-open`) that cannot stream or report
/// progress, so it becomes the default player; version 1 wrote its "catalog"
/// start view to disk on first run, so that becomes the Home default.
/// Current settings are left alone, and nothing else changes.
pub open spec fn is_migration(s: AppSettings, t: AppSettings) -> bool {
    if s.version >= SETTINGS_VERSION {
        t == s
    } else {
        &&& t.version == SETTINGS_VERSION
        &&& t.external_player@ == (if s.version < 1 {
            "mpv"@
        } else {
            s.external_player@
        })
        &&& t.initial_view@ == (if s.initial_view@ == "catalog"@ {
            "home"@
        } else {
            s.initial_view@
        })
        &&& t.default_quality == s.default_quality
        &&& t.user_id == s.user_id
        &&& t.sort_voices == s.sort_voices
        &&& t.theme == s.theme
        &&& t.auto_next_episode == s.auto_next_episode
        &&& t.ask_quality_before_play == s.ask_quality_before_play
        &&& t.hidden_countries == s.hidden_countries
    }
}

impl AppSettings {
    /// Rewrite values carried over from an older schema. Returns whether
    /// anything changed, so the caller can persist the result.
    pub fn migrate(&mut self) -> (changed: bool)
        ensures
            changed == (old(self).version < SETTINGS_VERSION),
            is_migration(*old(self), *final(self)),
    {
        if self.version >= SETTINGS_VERSION {
            return false;
        }
        if self.version < 1 {
            self.external_player = owned("mpv");
        }
        if is_str(&chars_of(self.initial_view.as_str()), "catalog") {
            self.initial_view = default_initial_view();
        }
        self.version = SETTINGS_VERSION;
        true
    }

    /// The settings to run with, given what the settings file held (`None`
    /// when there was none or it could not be read), and whether they must
    /// be written back: a stored file is brought up to date and written
    /// back when that changed it; without one the defaults are used and
    /// written.
    pub fn load(stored: Option<AppSettings>) -> (r: (AppSettings, bool))
        ensures
            stored matches Some(s) ==> is_migration(s, r.0) && r.1 == (s.version
                < SETTINGS_VERSION),
            stored is None ==> is_default_settings(r.0) && r.1,
    {
        match stored {
            Some(mut settings) => {
                let changed = settings.migrate();
                (settings, changed)
            },
            None => (AppSettings::default(), true),
        }
    }
}


/// Migrating settings a second time changes nothing: the first migration
/// leaves them at the current version, which the second keeps as it is.
pub proof fn law_migration_is_idempotent(s: AppSettings, t: AppSettings, u: AppSettings)
    requires
        is_migration(s, t),
        is_migration(t, u),
    ensures
        u == t,
        t.version >= SETTINGS_VERSION,
{
}

} // verus!
