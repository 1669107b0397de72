use vstd::prelude::*;

verus! {

/// A storage failure: a broken constraint or an exhausted key space. Callers
/// are not told which.
#[derive(Clone, Copy, Debug, PartialEq, Eq, Structural)]
pub struct DatabaseError;

/// Failures of password hashing and checking.
#[derive(Clone, Copy, Debug, PartialEq, Eq, Structural)]
pub enum AuthServiceError {
    HashingError,
    VerificationError,
}

impl AuthServiceError {
    /// The text shown for this error.
    pub fn message(&self) -> (r: String)
        ensures
            r@ == match *self {
                AuthServiceError::HashingError => "Password hashing failed"@,
                AuthServiceError::VerificationError => "Password verification failed"@,
            },
    {
        match self {
            AuthServiceError::HashingError => "Password hashing failed".to_owned(),
            AuthServiceError::VerificationError => "Password verification failed".to_owned(),
        }
    }
}

/// Failures around roles.
#[derive(Clone, Copy, Debug, PartialEq, Eq, Structural)]
pub enum RoleError {
    RoleNotFound,
    PermissionDenied,
    RoleAssignmentFailed,
    RoleCreationFailed,
    PermissionAssignmentFailed,
}

impl RoleError {
    /// The text shown for this error.
    pub fn message(&self) -> (r: String)
        ensures
            r@ == match *self {
                RoleError::RoleNotFound => "Role not found"@,
                RoleError::PermissionDenied => "Permission denied"@,
                RoleError::RoleAssignmentFailed => "Role assignment failed"@,
                RoleError::RoleCreationFailed => "Role creation failed"@,
                RoleError::PermissionAssignmentFailed => "Permission assignment failed"@,
            },
    {
        match self {
            RoleError::RoleNotFound => "Role not found".to_owned(),
            RoleError::PermissionDenied => "Permission denied".to_owned(),
            RoleError::RoleAssignmentFailed => "Role assignment failed".to_owned(),
            RoleError::RoleCreationFailed => "Role creation failed".to_owned(),
            RoleError::PermissionAssignmentFailed => "Permission assignment failed".to_owned(),
        }
    }
}

/// The outcomes other than success of a catalog operation.
#[derive(Clone, Copy, Debug, PartialEq, Eq, Structural)]
pub enum ProductCategoryServiceError {
    PermissionDenied,
    DatabaseError,
    ProductNotFound,
    CategoryNotFound,
}

/// Errors reported at the HTTP boundary.
#[derive(Clone, Copy, Debug, PartialEq, Eq, Structural)]
pub enum APIErrors {
    AuthenticationFailed,
    InvalidRequest,
    ResourceNotFound,
    InternalServerError,
}

impl APIErrors {
    /// The text shown for this error.
    pub fn message(&self) -> (r: String)
        ensures
            r@ == match *self {
                APIErrors::InternalServerError => "Internal server error"@,
                APIErrors::AuthenticationFailed => "Authentication failed"@,
                APIErrors::InvalidRequest => "Invalid request"@,
                APIErrors::ResourceNotFound => "Resource not found"@,
            },
    {
        match self {
            APIErrors::InternalServerError => "Internal server error".to_owned(),
            APIErrors::AuthenticationFailed => "Authentication failed".to_owned(),
            APIErrors::InvalidRequest => "Invalid request".to_owned(),
            APIErrors::ResourceNotFound => "Resource not found".to_owned(),
        }
    }
}

} // verus!
