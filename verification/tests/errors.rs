use bookmark_hub::config::{AuthConfig, Config, DEFAULT_SESSION_DURATION_SECS};
use bookmark_hub::error::Error;

#[test]
fn status_codes() {
    assert_eq!(Error::BookmarkNotFound.status_code(), 404);
    assert_eq!(Error::ProfileNotFound.status_code(), 404);
    assert_eq!(Error::InvalidCredentials.status_code(), 401);
    assert_eq!(Error::Unauthorized.status_code(), 401);
    assert_eq!(Error::AuthRequired.status_code(), 401);
    assert_eq!(Error::BadRequest.status_code(), 400);
    assert_eq!(Error::CannotDeleteLastProfile.status_code(), 400);
    assert_eq!(Error::ProfileAlreadyExists.status_code(), 400);
    assert_eq!(Error::InvalidProfileOrder.status_code(), 400);
    assert_eq!(Error::InvalidImageFormat.status_code(), 400);
    assert_eq!(Error::VersionConflict.status_code(), 500);
    assert_eq!(Error::Internal.status_code(), 500);
}

#[test]
fn messages() {
    assert_eq!(Error::BookmarkNotFound.message(), "Bookmark not found");
    assert_eq!(Error::ProfileNotFound.message(), "Profile not found");
    assert_eq!(Error::InvalidCredentials.message(), "Invalid credentials");
    assert_eq!(Error::Unauthorized.message(), "Unauthorized");
    assert_eq!(Error::AuthRequired.message(), "Authentication required");
    assert_eq!(Error::CannotDeleteLastProfile.message(), "Cannot delete last profile");
    assert_eq!(Error::ProfileAlreadyExists.message(), "Profile already exists");
    assert_eq!(Error::InvalidProfileOrder.message(), "Invalid profile order");
    assert_eq!(Error::InvalidImageFormat.message(), "Invalid image format");
    assert_eq!(Error::VersionConflict.message(), "Version conflict");
    assert_eq!(Error::BadRequest.message(), "Bad request");
    assert_eq!(Error::Internal.message(), "Internal error");
}

#[test]
fn default_config() {
    let c = Config::default();
    assert_eq!(c.auth.username, "admin");
    assert_eq!(c.auth.password, "admin");
    assert!(!c.auth.enabled);
    assert_eq!(c.auth.session_duration_secs, 7 * 24 * 60 * 60);
    assert_eq!(DEFAULT_SESSION_DURATION_SECS, 604_800);
    assert_eq!(c.clone(), c);
}

#[test]
fn config_with_credentials() {
    let a = AuthConfig::with_credentials("me".to_string(), "secret".to_string());
    assert_eq!(a.username, "me");
    assert_eq!(a.password, "secret");
    assert!(!a.enabled);
    assert_eq!(a.session_duration_secs, 604_800);
    assert_eq!(a.clone(), a);
}
