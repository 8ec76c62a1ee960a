//! The settings that the program is started with.

use vstd::prelude::*;

verus! {

/// A week, in seconds: how long a session lasts unless the settings say
/// otherwise.
pub const DEFAULT_SESSION_DURATION_SECS: i64 = 604_800;

/// Who may log in, and for how long.
#[derive(Debug, PartialEq, Eq)]
pub struct AuthConfig {
    pub username: String,
    pub password: String,
    /// Without this, every request is let through.
    pub enabled: bool,
    pub session_duration_secs: i64,
}

/// What an [`AuthConfig`] holds.
pub struct AuthConfigView {
    pub username: Seq<char>,
    pub password: Seq<char>,
    pub enabled: bool,
    pub session_duration_secs: i64,
}

impl AuthConfigView {
    /// The settings of a first start with the given credentials: logging in
    /// is not asked for, and a session lasts a week.
    pub open spec fn initial(username: Seq<char>, password: Seq<char>) -> AuthConfigView {
        AuthConfigView {
            username,
            password,
            enabled: false,
            session_duration_secs: DEFAULT_SESSION_DURATION_SECS,
        }
    }
}

impl DeepView for AuthConfig {
    type V = AuthConfigView;

    open spec fn deep_view(&self) -> AuthConfigView {
        AuthConfigView {
            username: self.username@,
            password: self.password@,
            enabled: self.enabled,
            session_duration_secs: self.session_duration_secs,
        }
    }
}

impl View for AuthConfig {
    type V = AuthConfigView;

    open spec fn view(&self) -> AuthConfigView {
        self.deep_view()
    }
}

impl Clone for AuthConfig {
    fn clone(&self) -> (r: Self)
        ensures
            r@ == self@,
    {
        AuthConfig {
            username: self.username.clone(),
            password: self.password.clone(),
            enabled: self.enabled,
            session_duration_secs: self.session_duration_secs,
        }
    }
}

impl AuthConfig {
    /// The settings of a first start with the given credentials.
    pub fn with_credentials(username: String, password: String) -> (r: Self)
        ensures
            r@ == AuthConfigView::initial(username@, password@),
    {
        AuthConfig {
            username,
            password,
            enabled: false,
            session_duration_secs: DEFAULT_SESSION_DURATION_SECS,
        }
    }
}

impl Default for AuthConfig {
    /// The settings of a first start where no credentials are given: both
    /// the user name and the password are "admin".
    fn default() -> (r: Self)
        ensures
            r@ == AuthConfigView::initial("admin"@, "admin"@),
    {
        AuthConfig::with_credentials(String::from_str("admin"), String::from_str("admin"))
    }
}

/// All settings.
#[derive(Debug, PartialEq, Eq)]
pub struct Config {
    pub auth: AuthConfig,
}

/// What a [`Config`] holds.
pub struct ConfigView {
    pub auth: AuthConfigView,
}

impl DeepView for Config {
    type V = ConfigView;

    open spec fn deep_view(&self) -> ConfigView {
        ConfigView { auth: self.auth@ }
    }
}

impl View for Config {
    type V = ConfigView;

    open spec fn view(&self) -> ConfigView {
        self.deep_view()
    }
}

impl Clone for Config {
    fn clone(&self) -> (r: Self)
        ensures
            r@ == self@,
    {
        Config { auth: self.auth.clone() }
    }
}

impl Default for Config {
    fn default() -> (r: Self)
        ensures
            r@.auth == AuthConfigView::initial("admin"@, "admin"@),
    {
        Config { auth: AuthConfig::default() }
    }
}

} // verus!
