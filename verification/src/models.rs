//! Data model: users, sessions, items, and the credential hasher.
//!
//! Each executable record type has a mathematical view, and every
//! contract in the crate is stated over those views. Timestamps are
//! seconds since the Unix epoch; a session identifier is the 128-bit
//! value of a version-4 UUID.

use vstd::prelude::*;
use crate::errors::{
    FieldError, FieldErrorV, ServerError, ValidationError, field_error, invalid_email_error,
    long_item_name_error, negative_price_error, short_password_error,
};
use crate::external::{
    check_email, email_ok, format_session_token, parsed_session_token, session_token_of,
};

verus! {

/// View of a stored user row, password digest included.
pub struct FullUserV {
    pub id: int,
    pub created_at: int,
    pub updated_at: int,
    pub email: Seq<char>,
    pub password: Seq<char>,
}

/// View of a user as exposed to clients: no password digest.
pub struct UserV {
    pub id: int,
    pub created_at: int,
    pub updated_at: int,
    pub email: Seq<char>,
}

/// View of a session row.
pub struct SessionV {
    pub id: int,
    pub created_at: int,
    pub user_id: int,
}

/// View of an item row.
pub struct ItemV {
    pub id: int,
    pub created_at: int,
    pub updated_at: int,
    pub user_id: int,
    pub name: Seq<char>,
    pub price: int,
    pub protection_ends_at: int,
}

/// The client-visible part of a stored user row.
pub open spec fn slim_of(u: FullUserV) -> UserV {
    UserV { id: u.id, created_at: u.created_at, updated_at: u.updated_at, email: u.email }
}

/// A stored user row: identity, credentials, timestamps.
pub struct FullUser {
    pub id: i32,
    pub created_at: i64,
    pub updated_at: i64,
    pub email: String,
    pub password: String,
}

impl View for FullUser {
    type V = FullUserV;

    open spec fn view(&self) -> FullUserV {
        FullUserV {
            id: self.id as int,
            created_at: self.created_at as int,
            updated_at: self.updated_at as int,
            email: self.email@,
            password: self.password@,
        }
    }
}

impl FullUser {
    /// The row without its password digest.
    pub fn slim(&self) -> (r: User)
        ensures
            r@ == slim_of(self@),
    {
        User {
            id: self.id,
            created_at: self.created_at,
            updated_at: self.updated_at,
            email: self.email.clone(),
        }
    }
}

/// A user as returned to clients; never carries the password or its digest.
pub struct User {
    pub id: i32,
    pub created_at: i64,
    pub updated_at: i64,
    pub email: String,
}

impl View for User {
    type V = UserV;

    open spec fn view(&self) -> UserV {
        UserV {
            id: self.id as int,
            created_at: self.created_at as int,
            updated_at: self.updated_at as int,
            email: self.email@,
        }
    }
}

impl User {
    pub fn id(&self) -> (r: i32)
        ensures
            r == self.id,
    {
        self.id
    }

    pub fn created_at(&self) -> (r: i64)
        ensures
            r == self.created_at,
    {
        self.created_at
    }

    pub fn updated_at(&self) -> (r: i64)
        ensures
            r == self.updated_at,
    {
        self.updated_at
    }

    pub fn email(&self) -> (r: &str)
        ensures
            r@ == self.email@,
    {
        self.email.as_str()
    }

    /// A field-for-field copy.
    pub fn duplicate(&self) -> (r: User)
        ensures
            r@ == self@,
    {
        User {
            id: self.id,
            created_at: self.created_at,
            updated_at: self.updated_at,
            email: self.email.clone(),
        }
    }
}

/// Registration (and login) input: an email and a plaintext password.
pub struct NewUser {
    pub email: String,
    pub password: String,
}

/// The field errors a registration input earns: one for a malformed
/// email, one for a password under eight characters, in that order.
pub open spec fn new_user_validation_errors(email: Seq<char>, password: Seq<char>) -> Seq<
    FieldErrorV,
> {
    (if !email_ok(email) {
        seq![invalid_email_error()]
    } else {
        Seq::<FieldErrorV>::empty()
    }) + (if password.len() < 8 {
        seq![short_password_error()]
    } else {
        Seq::<FieldErrorV>::empty()
    })
}

impl NewUser {
    /// A well-shaped email and a password of at least eight characters.
    pub open spec fn valid(self) -> bool {
        email_ok(self.email@) && self.password@.len() >= 8
    }

    /// Checks email shape and password length; returns the exact field
    /// errors on failure.
    pub fn validate(&self) -> (r: Result<(), ValidationError>)
        ensures
            r is Ok <==> self.valid(),
            r matches Err(v) ==> v@ == new_user_validation_errors(self.email@, self.password@),
    {
        let email_good = check_email(self.email.as_str());
        let password_good = self.password.as_str().unicode_len() >= 8;
        if email_good && password_good {
            return Ok(());
        }
        let mut errors: Vec<FieldError> = Vec::new();
        if !email_good {
            errors.push(field_error("email", "email", "email is invalid"));
        }
        if !password_good {
            errors.push(field_error("password", "length", "password must be at least 8 characters"));
        }
        proof {
            assert(errors@.map_values(|e: FieldError| e@) =~= new_user_validation_errors(
                self.email@,
                self.password@,
            ));
        }
        Err(ValidationError::new(errors))
    }
}

/// A session row: the bearer credential of one logged-in device.
#[derive(Clone, Copy)]
pub struct Session {
    pub id: u128,
    pub created_at: i64,
    pub user_id: i32,
}

impl View for Session {
    type V = SessionV;

    open spec fn view(&self) -> SessionV {
        SessionV {
            id: self.id as int,
            created_at: self.created_at as int,
            user_id: self.user_id as int,
        }
    }
}

impl Session {
    /// The bearer token naming this session: its identifier in canonical
    /// string form.
    pub fn token(&self) -> (r: String)
        ensures
            r@ == session_token_of(self.id),
            parsed_session_token(r@) == Some(self.id),
    {
        format_session_token(self.id)
    }
}

/// Input for creating a session: the owning user.
#[derive(Clone, Copy)]
pub struct NewSession {
    pub user_id: i32,
}

/// An item row, owned by a user.
pub struct Item {
    pub id: i32,
    pub created_at: i64,
    pub updated_at: i64,
    pub user_id: i32,
    pub name: String,
    pub price: i32,
    pub protection_ends_at: i64,
}

impl View for Item {
    type V = ItemV;

    open spec fn view(&self) -> ItemV {
        ItemV {
            id: self.id as int,
            created_at: self.created_at as int,
            updated_at: self.updated_at as int,
            user_id: self.user_id as int,
            name: self.name@,
            price: self.price as int,
            protection_ends_at: self.protection_ends_at as int,
        }
    }
}

impl Item {
    /// A field-for-field copy of the row.
    pub fn duplicate(&self) -> (r: Item)
        ensures
            r@ == self@,
    {
        Item {
            id: self.id,
            created_at: self.created_at,
            updated_at: self.updated_at,
            user_id: self.user_id,
            name: self.name.clone(),
            price: self.price,
            protection_ends_at: self.protection_ends_at,
        }
    }
}

/// Input for creating an item.
pub struct NewItem {
    pub user_id: i32,
    pub name: String,
    pub price: i32,
    pub protection_ends_at: i64,
}

/// The field errors an item input earns: one for a name over 250
/// characters, one for a negative price, in that order.
pub open spec fn new_item_validation_errors(name: Seq<char>, price: int) -> Seq<FieldErrorV> {
    (if name.len() > 250 {
        seq![long_item_name_error()]
    } else {
        Seq::<FieldErrorV>::empty()
    }) + (if price < 0 {
        seq![negative_price_error()]
    } else {
        Seq::<FieldErrorV>::empty()
    })
}

impl NewItem {
    /// A name of at most 250 characters and a price of at least zero.
    pub open spec fn valid(self) -> bool {
        self.name@.len() <= 250 && self.price >= 0
    }

    /// Checks name length and price range; returns the exact field
    /// errors on failure.
    pub fn validate(&self) -> (r: Result<(), ValidationError>)
        ensures
            r is Ok <==> self.valid(),
            r matches Err(v) ==> v@ == new_item_validation_errors(self.name@, self.price as int),
    {
        let name_good = self.name.as_str().unicode_len() <= 250;
        let price_good = self.price >= 0;
        if name_good && price_good {
            return Ok(());
        }
        let mut errors: Vec<FieldError> = Vec::new();
        if !name_good {
            errors.push(field_error("name", "length", "name must be less than 250 characters"));
        }
        if !price_good {
            errors.push(field_error("price", "range", "price must be more than 0"));
        }
        proof {
            assert(errors@.map_values(|e: FieldError| e@) =~= new_item_validation_errors(
                self.name@,
                self.price as int,
            ));
        }
        Err(ValidationError::new(errors))
    }
}

/// Whether verifying `password` under `secret` against the encoded digest
/// `digest` succeeds. Named, not written out: the digest encodes the Argon2
/// parameters and salt, and the outcome is a function of these three strings
/// alone.
pub uninterp spec fn digest_matches(digest: Seq<char>, password: Seq<char>, secret: Seq<char>) -> bool;

/// Short enough that the string's UTF-8 form stays under the hashing
/// backend's four-gigabyte input bound, whatever its characters.
pub open spec fn fits_hashing(s: Seq<char>) -> bool {
    s.len() < 0x4000_0000
}

/// Relies on uuid::Uuid::new_v4 for 16 bytes of operating-system randomness,
/// used as a hashing salt; nothing is assumed of the value but its length.
#[verifier::external_body]
fn random_salt() -> (r: Vec<u8>)
    ensures
        r@.len() == 16,
{
    uuid::Uuid::new_v4().into_bytes().to_vec()
}

/// Relies on argon2::hash_encoded: with a salt of at least 8 bytes it returns
/// an encoded digest that argon2::verify_encoded_ext accepts for the same
/// password and secret, and it fails only for an out-of-range password,
/// salt, or secret length.
#[verifier::external_body]
fn hash_with_salt(password: &str, secret_key: &str, salt: &Vec<u8>) -> (r: Result<
    String,
    ServerError,
>)
    requires
        8 <= salt@.len() < 0xFFFF_FFFF,
    ensures
        r matches Ok(d) ==> digest_matches(d@, password@, secret_key@),
        r matches Err(e) ==> e == ServerError::HashingFailed,
        fits_hashing(password@) && fits_hashing(secret_key@) ==> r is Ok,
{
    let mut config = argon2::Config::default();
    config.secret = secret_key.as_bytes();
    match argon2::hash_encoded(password.as_bytes(), salt.as_slice(), &config) {
        Ok(d) => Ok(d),
        Err(_) => Err(ServerError::HashingFailed),
    }
}

/// One-way hash of `password` keyed by `secret_key`, with a fresh random
/// salt. An internal hashing failure is surfaced, never treated as a
/// mismatch; for inputs within the hashing bound it cannot occur.
pub fn hash_password(password: &str, secret_key: &str) -> (r: Result<String, ServerError>)
    ensures
        r matches Ok(d) ==> digest_matches(d@, password@, secret_key@),
        r matches Err(e) ==> e == ServerError::HashingFailed,
        fits_hashing(password@) && fits_hashing(secret_key@) ==> r is Ok,
{
    let salt = random_salt();
    hash_with_salt(password, secret_key, &salt)
}

/// Relies on argon2::verify_encoded_ext: recomputes the digest from the
/// parameters and salt encoded in `hash` and compares; the outcome is a
/// function of the three strings alone. A malformed digest verifies as
/// false rather than failing.
#[verifier::external_body]
pub fn verify_password(password: &str, hash: &str, secret_key: &str) -> (r: bool)
    ensures
        r == digest_matches(hash@, password@, secret_key@),
{
    argon2::verify_encoded_ext(hash, password.as_bytes(), secret_key.as_bytes(), &[])
        .unwrap_or(false)
}

/// Law: hashing then verifying round-trips. Whenever `hash_password`
/// returns a digest, `verify_password` accepts that digest for the same
/// password and secret; for inputs within the hashing bound a digest is
/// always returned.
pub fn hash_verify_roundtrip(password: &str, secret_key: &str) -> (r: Option<bool>)
    ensures
        r matches Some(b) ==> b,
        fits_hashing(password@) && fits_hashing(secret_key@) ==> r is Some,
{
    match hash_password(password, secret_key) {
        Ok(digest) => Some(verify_password(password, digest.as_str(), secret_key)),
        Err(_) => None,
    }
}

} // verus!
