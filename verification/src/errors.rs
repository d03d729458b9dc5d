//! Error taxonomy: structured validation errors returned inline,
//! authentication and permission errors as typed result members, and
//! opaque internal failures.

use vstd::prelude::*;

verus! {

/// Internal failures that a resolver propagates opaquely instead of
/// translating into a typed response.
#[derive(Clone, Copy, Debug, PartialEq, Eq, Structural)]
pub enum ServerError {
    /// A referenced entity is absent.
    NotFound,
    /// A uniqueness constraint would be broken.
    UniqueViolation,
    /// No further user identifier can be assigned.
    IdSpaceExhausted,
    /// A freshly drawn session identifier is already in use.
    SessionIdCollision,
    /// The hashing backend reported an internal error.
    HashingFailed,
}

/// View of one field-level validation failure.
pub struct FieldErrorV {
    pub field: Seq<char>,
    pub code: Seq<char>,
    pub message: Seq<char>,
}

/// One field-level validation failure: which field, a stable code, and
/// a human-readable message.
pub struct FieldError {
    pub field: String,
    pub code: String,
    pub message: String,
}

impl View for FieldError {
    type V = FieldErrorV;

    open spec fn view(&self) -> FieldErrorV {
        FieldErrorV { field: self.field@, code: self.code@, message: self.message@ }
    }
}

/// An ordered list of field-level failures, returned inline to the caller.
pub struct ValidationError {
    pub errors: Vec<FieldError>,
}

impl View for ValidationError {
    type V = Seq<FieldErrorV>;

    open spec fn view(&self) -> Seq<FieldErrorV> {
        self.errors@.map_values(|e: FieldError| e@)
    }
}

impl ValidationError {
    pub fn new(errors: Vec<FieldError>) -> (r: ValidationError)
        ensures
            r@ == errors@.map_values(|e: FieldError| e@),
    {
        ValidationError { errors }
    }
}

/// Builds one field-level failure from its three parts.
pub(crate) fn field_error(field: &str, code: &str, message: &str) -> (r: FieldError)
    ensures
        r@ == (FieldErrorV { field: field@, code: code@, message: message@ }),
{
    FieldError { field: field.to_owned(), code: code.to_owned(), message: message.to_owned() }
}

/// The failure reported when a registration email is already taken.
pub open spec fn email_duplicate_error() -> FieldErrorV {
    FieldErrorV {
        field: "email"@,
        code: "email_duplicate"@,
        message: "a user already exists with this email"@,
    }
}

/// The failure reported for an email that does not look like one.
pub open spec fn invalid_email_error() -> FieldErrorV {
    FieldErrorV { field: "email"@, code: "email"@, message: "email is invalid"@ }
}

/// The failure reported for a registration password under eight characters.
pub open spec fn short_password_error() -> FieldErrorV {
    FieldErrorV {
        field: "password"@,
        code: "length"@,
        message: "password must be at least 8 characters"@,
    }
}

/// The failure reported for a replacement password under eight characters.
pub open spec fn short_new_password_error() -> FieldErrorV {
    FieldErrorV {
        field: "new_password"@,
        code: "length"@,
        message: "new password must be at least 8 characters"@,
    }
}

/// The failure reported for an item name over 250 characters.
pub open spec fn long_item_name_error() -> FieldErrorV {
    FieldErrorV {
        field: "name"@,
        code: "length"@,
        message: "name must be less than 250 characters"@,
    }
}

/// The failure reported for a negative item price.
pub open spec fn negative_price_error() -> FieldErrorV {
    FieldErrorV { field: "price"@, code: "range"@, message: "price must be more than 0"@ }
}

/// The failure reported for a login with credentials that do not match.
pub open spec fn wrong_credentials_error() -> FieldErrorV {
    FieldErrorV {
        field: "password"@,
        code: "authentication_error"@,
        message: "incorrect credentials"@,
    }
}

/// The failure reported when the old password given for a password change
/// does not match the stored digest.
pub open spec fn old_password_incorrect_error() -> FieldErrorV {
    FieldErrorV {
        field: "old_password"@,
        code: "old_password_incorrect"@,
        message: "incorrect old password"@,
    }
}

pub fn get_user_duplicate_error() -> (r: FieldError)
    ensures
        r@ == email_duplicate_error(),
{
    field_error("email", "email_duplicate", "a user already exists with this email")
}

/// View of a coded error: a stable code and a human-readable message.
pub struct CodedErrorV {
    pub code: Seq<char>,
    pub message: Seq<char>,
}

/// Returned when an operation requires a principal and none was resolved.
pub struct AuthenticationError {
    pub code: String,
    pub message: String,
}

impl View for AuthenticationError {
    type V = CodedErrorV;

    open spec fn view(&self) -> CodedErrorV {
        CodedErrorV { code: self.code@, message: self.message@ }
    }
}

/// The one value `AuthenticationError` ever takes.
pub open spec fn authentication_error() -> CodedErrorV {
    CodedErrorV { code: "authentication_error"@, message: "Authenticated user required"@ }
}

impl Default for AuthenticationError {
    fn default() -> (r: AuthenticationError)
        ensures
            r@ == authentication_error(),
    {
        AuthenticationError {
            code: "authentication_error".to_owned(),
            message: "Authenticated user required".to_owned(),
        }
    }
}

/// Returned when the principal is authenticated but does not own the target.
pub struct PermissionError {
    pub code: String,
    pub message: String,
}

impl View for PermissionError {
    type V = CodedErrorV;

    open spec fn view(&self) -> CodedErrorV {
        CodedErrorV { code: self.code@, message: self.message@ }
    }
}

/// The one value `PermissionError` ever takes.
pub open spec fn permission_error() -> CodedErrorV {
    CodedErrorV { code: "permission_error"@, message: "Permission denied"@ }
}

impl Default for PermissionError {
    fn default() -> (r: PermissionError)
        ensures
            r@ == permission_error(),
    {
        PermissionError { code: "permission_error".to_owned(), message: "Permission denied".to_owned() }
    }
}

} // verus!
