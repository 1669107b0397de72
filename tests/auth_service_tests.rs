use arrow_server::auth_service::AuthService;
use arrow_server::errors::{APIErrors, AuthServiceError, RoleError};
use arrow_server::permissions::{PermissionString, RolePermissions};

#[test]
fn hash_then_verify_accepts_only_the_password() {
    let auth = AuthService::new();
    let hash = auth.hash_password("correct horse").expect("hashing");
    assert_ne!(hash, "correct horse");
    assert!(hash.starts_with("$argon2id$"));
    assert_eq!(auth.verify_password("correct horse", &hash), Ok(true));
    assert_eq!(auth.verify_password("wrong horse", &hash), Ok(false));
}

#[test]
fn hashing_with_a_given_salt_is_repeatable() {
    let auth = AuthService::new();
    let a = auth.hash_password_with_salt("pw", "c2FsdHNhbHRzYWx0").expect("hashing");
    let b = auth.hash_password_with_salt("pw", "c2FsdHNhbHRzYWx0").expect("hashing");
    assert_eq!(a, b);
    assert_eq!(auth.verify_password("pw", &a), Ok(true));
    assert_eq!(auth.hash_password_with_salt("pw", "!"), Err(AuthServiceError::HashingError));
}

#[test]
fn unusable_hash_is_a_verification_error() {
    let auth = AuthService::new();
    assert_eq!(auth.verify_password("pw", "not a phc string"), Err(AuthServiceError::VerificationError));
    assert_eq!(auth.verify_password("pw", ""), Err(AuthServiceError::VerificationError));
}

#[test]
fn verdicts_map_to_results() {
    assert_eq!(AuthService::verdict_to_result(Some(true)), Ok(true));
    assert_eq!(AuthService::verdict_to_result(Some(false)), Ok(false));
    assert_eq!(AuthService::verdict_to_result(None), Err(AuthServiceError::VerificationError));
}

#[test]
fn error_messages() {
    assert_eq!(AuthServiceError::HashingError.message(), "Password hashing failed");
    assert_eq!(AuthServiceError::VerificationError.message(), "Password verification failed");
    assert_eq!(RoleError::RoleNotFound.message(), "Role not found");
    assert_eq!(RoleError::PermissionDenied.message(), "Permission denied");
    assert_eq!(RoleError::RoleAssignmentFailed.message(), "Role assignment failed");
    assert_eq!(RoleError::RoleCreationFailed.message(), "Role creation failed");
    assert_eq!(RoleError::PermissionAssignmentFailed.message(), "Permission assignment failed");
    assert_eq!(APIErrors::InternalServerError.message(), "Internal server error");
    assert_eq!(APIErrors::AuthenticationFailed.message(), "Authentication failed");
    assert_eq!(APIErrors::InvalidRequest.message(), "Invalid request");
    assert_eq!(APIErrors::ResourceNotFound.message(), "Resource not found");
}

#[test]
fn stored_levels_round_trip_and_unknown_text_fails() {
    for level in [
        RolePermissions::Read,
        RolePermissions::Write,
        RolePermissions::Admin,
        RolePermissions::NoAccess,
    ] {
        assert_eq!(PermissionString::from_permission(level).as_permission(), Some(level));
    }
    assert_eq!(PermissionString::from_permission(RolePermissions::Write).0, "write");
    assert_eq!(PermissionString("superuser".to_string()).as_permission(), None);
    assert_eq!(PermissionString("READ".to_string()).as_permission(), None);
}

#[test]
fn admin_satisfies_every_level() {
    let (read, write, admin, none) = (
        RolePermissions::Read,
        RolePermissions::Write,
        RolePermissions::Admin,
        RolePermissions::NoAccess,
    );
    for required in [read, write, admin, none] {
        assert!(admin.satisfies(required));
    }
    assert!(read.satisfies(read));
    assert!(!read.satisfies(write));
    assert!(!write.satisfies(read));
    assert!(!write.satisfies(admin));
    assert!(!none.satisfies(read));
}
