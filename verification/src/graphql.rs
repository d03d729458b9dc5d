//! The resolvers and the policy they all follow: resolve the bearer
//! token to a principal once per request, then, in every operation that
//! touches owned data, check authentication before ownership and
//! ownership before any data access.

use vstd::prelude::*;
use crate::errors::{
    AuthenticationError, FieldError, PermissionError, ServerError, ValidationError,
    authentication_error, email_duplicate_error, field_error, get_user_duplicate_error,
    old_password_incorrect_error, permission_error, short_new_password_error,
    wrong_credentials_error,
};
use crate::external::{now_timestamp, parse_session_token, parsed_session_token, random_session_id};
use crate::models::{
    FullUserV, Item, NewSession, NewUser, Session, SessionV, User, UserV, digest_matches,
    fits_hashing, hash_password, new_user_validation_errors, slim_of, verify_password,
};
use crate::store::{Store, StoreV, items_of, items_not_of, sessions_not_of, sessions_of};

verus! {

/// Whitespace stripped around a bearer token.
pub open spec fn is_token_space(c: char) -> bool {
    c == ' ' || c == '\t' || c == '\n' || c == '\r' || c == '\u{000C}'
}

/// Case-insensitive match of one character against a lower-case letter.
pub open spec fn eq_ignore_ascii_case(c: char, lower: char) -> bool {
    c == lower || c as int == lower as int - 32
}

/// Whether the header value opens with the bearer scheme, case-insensitively.
pub open spec fn has_bearer_prefix(s: Seq<char>) -> bool {
    &&& s.len() >= 6
    &&& eq_ignore_ascii_case(s[0], 'b')
    &&& eq_ignore_ascii_case(s[1], 'e')
    &&& eq_ignore_ascii_case(s[2], 'a')
    &&& eq_ignore_ascii_case(s[3], 'r')
    &&& eq_ignore_ascii_case(s[4], 'e')
    &&& eq_ignore_ascii_case(s[5], 'r')
}

pub open spec fn trim_start_spaces(s: Seq<char>) -> Seq<char>
    decreases s.len(),
{
    if s.len() > 0 && is_token_space(s[0]) {
        trim_start_spaces(s.drop_first())
    } else {
        s
    }
}

pub open spec fn trim_end_spaces(s: Seq<char>) -> Seq<char>
    decreases s.len(),
{
    if s.len() > 0 && is_token_space(s.last()) {
        trim_end_spaces(s.drop_last())
    } else {
        s
    }
}

/// What the bearer-token extractor yields for a header value: the rest
/// after a case-insensitive bearer scheme, stripped of surrounding
/// whitespace; no token for a missing or different scheme.
pub open spec fn spec_parse_bearer_token(s: Seq<char>) -> Option<Seq<char>> {
    if has_bearer_prefix(s) {
        Some(trim_end_spaces(trim_start_spaces(s.skip(6))))
    } else {
        None
    }
}

/// Whether `c` is whitespace that is stripped around a token.
fn is_space(c: char) -> (b: bool)
    ensures
        b == is_token_space(c),
{
    c == ' ' || c == '\t' || c == '\n' || c == '\r' || c == '\u{000C}'
}

/// Extracts the token following a case-insensitive bearer scheme from
/// the raw value of an Authorization header.
pub fn parse_bearer_token(header: &str) -> (r: Option<String>)
    ensures
        match r {
            Some(t) => spec_parse_bearer_token(header@) == Some(t@),
            None => spec_parse_bearer_token(header@) is None,
        },
{
    let n = header.unicode_len();
    if n < 6 {
        return None;
    }
    let c0 = header.get_char(0);
    let c1 = header.get_char(1);
    let c2 = header.get_char(2);
    let c3 = header.get_char(3);
    let c4 = header.get_char(4);
    let c5 = header.get_char(5);
    let prefix_ok = (c0 == 'b' || c0 == 'B') && (c1 == 'e' || c1 == 'E') && (c2 == 'a' || c2
        == 'A') && (c3 == 'r' || c3 == 'R') && (c4 == 'e' || c4 == 'E') && (c5 == 'r' || c5 == 'R');
    if !prefix_ok {
        proof {
            assert(!has_bearer_prefix(header@));
        }
        return None;
    }
    let mut i: usize = 6;
    while i < n && is_space(header.get_char(i))
        invariant
            6 <= i <= n,
            n == header@.len(),
            trim_start_spaces(header@.skip(6)) == trim_start_spaces(header@.skip(i as int)),
        decreases n - i,
    {
        proof {
            assert(header@.skip(i as int).drop_first() =~= header@.skip(i as int + 1));
        }
        i += 1;
    }
    proof {
        assert(trim_start_spaces(header@.skip(i as int)) == header@.skip(i as int));
    }
    let mut j: usize = n;
    while j > i && is_space(header.get_char(j - 1))
        invariant
            i <= j <= n,
            n == header@.len(),
            trim_end_spaces(header@.skip(i as int)) == trim_end_spaces(
                header@.subrange(i as int, j as int),
            ),
        decreases j,
    {
        proof {
            assert(header@.subrange(i as int, j as int).drop_last() =~= header@.subrange(
                i as int,
                j as int - 1,
            ));
        }
        j -= 1;
    }
    proof {
        assert(header@.subrange(i as int, n as int) =~= header@.skip(i as int));
        assert(trim_end_spaces(header@.subrange(i as int, j as int)) == header@.subrange(
            i as int,
            j as int,
        ));
    }
    let token = header.substring_char(i, j).to_owned();
    Some(token)
}

/// The principal a bearer token resolves to: the owner of the session
/// the token names, if the token parses and such a session exists.
pub open spec fn token_principal(s: StoreV, token: Seq<char>) -> Option<UserV> {
    match parsed_session_token(token) {
        None => None,
        Some(sid) => if s.contains_session(sid as int) {
            let sess = s.session_with_id(sid as int);
            if s.contains_user_id(sess.user_id) {
                Some(slim_of(s.user_with_id(sess.user_id)))
            } else {
                None
            }
        } else {
            None
        },
    }
}

/// View of an optional header value.
pub open spec fn header_view(h: Option<&str>) -> Option<Seq<char>> {
    match h {
        Some(s) => Some(s@),
        None => None,
    }
}

/// The principal a request resolves to from its Authorization header:
/// none for a missing header, a missing or different scheme, a token
/// that does not parse, or a token naming no session.
pub open spec fn header_principal(s: StoreV, header: Option<Seq<char>>) -> Option<UserV> {
    match header {
        None => None,
        Some(h) => match spec_parse_bearer_token(h) {
            None => None,
            Some(tok) => token_principal(s, tok),
        },
    }
}

/// Resolves the raw Authorization header value, if any, to a principal.
/// A present-but-unmatched token resolves exactly like a missing one.
pub fn get_current_user(store: &Store, authorization: Option<&str>) -> (r: Option<User>)
    requires
        store@.wf(),
    ensures
        match r {
            Some(u) => header_principal(store@, header_view(authorization)) == Some(u@),
            None => header_principal(store@, header_view(authorization)) is None,
        },
{
    let header = match authorization {
        Some(h) => h,
        None => {
            return None;
        },
    };
    let token = match parse_bearer_token(header) {
        Some(t) => t,
        None => {
            return None;
        },
    };
    let sid = match parse_session_token(token.as_str()) {
        Some(sid) => sid,
        None => {
            return None;
        },
    };
    let sess = match store.find_session(sid) {
        Some(s) => s,
        None => {
            return None;
        },
    };
    match store.find_full_user(sess.user_id) {
        Some(u) => Some(u.slim()),
        None => None,
    }
}

/// The per-request context: the resolved principal, or none. Built once
/// per request and passed to every resolver of that request.
pub struct Context {
    pub user: Option<User>,
}

impl Context {
    /// The principal this request acts as.
    pub open spec fn principal(self) -> Option<UserV> {
        match self.user {
            Some(u) => Some(u@),
            None => None,
        }
    }

    /// Builds the context for one request from its Authorization header.
    pub fn from_request(store: &Store, authorization: Option<&str>) -> (ctx: Context)
        requires
            store@.wf(),
        ensures
            ctx.principal() == header_principal(store@, header_view(authorization)),
    {
        Context { user: get_current_user(store, authorization) }
    }
}

/// Input naming a session.
#[derive(Clone, Copy)]
pub struct SessionIdInput {
    pub id: u128,
}

/// Output naming a session.
#[derive(Clone, Copy)]
pub struct SessionIdOutput {
    pub id: u128,
}

/// Input naming a user.
#[derive(Clone, Copy)]
pub struct UserIdInput {
    pub id: i32,
}

/// Output naming a user.
#[derive(Clone, Copy)]
pub struct UserIdOutput {
    pub id: i32,
}

/// Input for a password change: the target user, the current password,
/// and its replacement.
pub struct ChangePasswordUser {
    pub id: i32,
    pub old_password: String,
    pub new_password: String,
}

impl ChangePasswordUser {
    /// A replacement password of at least eight characters.
    pub open spec fn valid(self) -> bool {
        self.new_password@.len() >= 8
    }

    /// Checks the replacement password's length; returns the exact field
    /// error on failure.
    pub fn validate(&self) -> (r: Result<(), ValidationError>)
        ensures
            r is Ok <==> self.valid(),
            r matches Err(v) ==> v@ == seq![short_new_password_error()],
    {
        if self.new_password.as_str().unicode_len() >= 8 {
            return Ok(());
        }
        let e = field_error("new_password", "length", "new password must be at least 8 characters");
        Err(single_field_validation_error(e))
    }
}

/// A validation error holding exactly one field error.
fn single_field_validation_error(e: FieldError) -> (v: ValidationError)
    ensures
        v@ == seq![e@],
{
    let ghost ev = e@;
    let mut errors: Vec<FieldError> = Vec::new();
    errors.push(e);
    proof {
        assert(errors@.map_values(|x: FieldError| x@) =~= seq![ev]);
    }
    ValidationError::new(errors)
}

/// Result union for operations that return a user.
pub enum UserResponse {
    User(User),
    ValidationError(ValidationError),
    AuthenticationError(AuthenticationError),
    PermissionError(PermissionError),
}

/// Result union for operations that return a user identifier.
pub enum UserIdResponse {
    UserIdOutput(UserIdOutput),
    AuthenticationError(AuthenticationError),
    PermissionError(PermissionError),
}

/// Result union for operations that return a session identifier.
pub enum SessionIdResponse {
    SessionIdOutput(SessionIdOutput),
    AuthenticationError(AuthenticationError),
    PermissionError(PermissionError),
}

/// Result union for login.
pub enum SessionResponse {
    Session(Session),
    ValidationError(ValidationError),
}

/// Whether `email` names a stored user whose digest accepts `password`
/// under `secret`.
pub open spec fn credentials_match(
    s: StoreV,
    email: Seq<char>,
    password: Seq<char>,
    secret: Seq<char>,
) -> bool {
    s.contains_email(email) && digest_matches(s.user_with_email(email).password, password, secret)
}

/// The read-only operations.
pub struct Query;

impl Query {
    /// The API version, a constant; needs no authentication.
    #[allow(non_snake_case)]
    pub fn apiVersion() -> (r: String)
        ensures
            r@ == "0.1.0"@,
    {
        "0.1.0".to_owned()
    }

    /// Self-only user lookup: authentication, then ownership, then the
    /// read.
    pub fn user(ctx: &Context, store: &Store, user_id: i32) -> (r: Result<
        UserResponse,
        ServerError,
    >)
        requires
            store@.wf(),
        ensures
            match ctx.principal() {
                None => r matches Ok(resp) && resp matches UserResponse::AuthenticationError(e)
                    && e@ == authentication_error(),
                Some(p) => if p.id != user_id as int {
                    r matches Ok(resp) && resp matches UserResponse::PermissionError(e) && e@
                        == permission_error()
                } else if store@.contains_user_id(user_id as int) {
                    r matches Ok(resp) && resp matches UserResponse::User(u) && u@ == slim_of(
                        store@.user_with_id(user_id as int),
                    )
                } else {
                    r == Err::<UserResponse, ServerError>(ServerError::NotFound)
                },
            },
    {
        let p = match &ctx.user {
            Some(u) => u,
            None => {
                return Ok(UserResponse::AuthenticationError(AuthenticationError::default()));
            },
        };
        if p.id != user_id {
            return Ok(UserResponse::PermissionError(PermissionError::default()));
        }
        match store.find_full_user(user_id) {
            Some(u) => Ok(UserResponse::User(u.slim())),
            None => Err(ServerError::NotFound),
        }
    }
}

/// The state-changing operations.
pub struct Mutation;

impl Mutation {
    /// Registration: validate the input, hash the password, insert the
    /// row. A duplicate email is answered with a validation error, not a
    /// storage failure; no authentication is required.
    #[allow(non_snake_case)]
    pub fn createUser(store: &mut Store, input: NewUser, secret_key: &str) -> (r: Result<
        UserResponse,
        ServerError,
    >)
        requires
            old(store)@.wf(),
        ensures
            final(store)@.wf(),
            final(store)@.sessions == old(store)@.sessions,
            final(store)@.items == old(store)@.items,
            !input.valid() ==> {
                &&& final(store)@ == old(store)@
                &&& r matches Ok(resp) && resp matches UserResponse::ValidationError(v) && v@
                    == new_user_validation_errors(input.email@, input.password@)
            },
            input.valid() && old(store)@.contains_email(input.email@) ==> {
                &&& final(store)@ == old(store)@
                &&& r matches Ok(resp) && resp matches UserResponse::ValidationError(v) && v@
                    == seq![email_duplicate_error()]
            },
            input.valid() && !old(store)@.contains_email(input.email@) ==> match r {
                Ok(resp) => resp matches UserResponse::User(u) && {
                    &&& u@.id == old(store)@.next_user_id
                    &&& u@.email == input.email@
                    &&& u@.updated_at == u@.created_at
                    &&& final(store)@.next_user_id == old(store)@.next_user_id + 1
                    &&& exists|d: Seq<char>|
                        #[trigger] digest_matches(d, input.password@, secret_key@) && final(store)@.users == old(store)@.users.push(
                            FullUserV {
                                id: u@.id,
                                created_at: u@.created_at,
                                updated_at: u@.created_at,
                                email: input.email@,
                                password: d,
                            },
                        )
                },
                Err(e) => final(store)@ == old(store)@ && (e == ServerError::HashingFailed || (e
                    == ServerError::IdSpaceExhausted && old(store)@.next_user_id == i32::MAX)),
            },
            input.valid() && !old(store)@.contains_email(input.email@) && old(store)@.next_user_id
                < i32::MAX && fits_hashing(input.password@) && fits_hashing(secret_key@) ==> r
                is Ok,
    {
        match input.validate() {
            Ok(()) => (),
            Err(v) => {
                return Ok(UserResponse::ValidationError(v));
            },
        }
        if store.find_user_by_email(&input.email).is_some() {
            let dup = get_user_duplicate_error();
            return Ok(UserResponse::ValidationError(single_field_validation_error(dup)));
        }
        let digest = match hash_password(input.password.as_str(), secret_key) {
            Ok(d) => d,
            Err(e) => {
                return Err(e);
            },
        };
        let ghost digest_view = digest@;
        let now = now_timestamp();
        let NewUser { email, password } = input;
        match store.insert_user(email, digest, now) {
            Ok(u) => {
                proof {
                    assert(digest_matches(digest_view, input.password@, secret_key@));
                }
                Ok(UserResponse::User(u))
            },
            Err(e) => Err(e),
        }
    }

    /// Login: check the credentials, then create a session for the user.
    /// Wrong credentials — unknown email or mismatched password alike —
    /// earn one and the same validation error, so the response does not
    /// reveal whether the email is registered.
    pub fn login(store: &mut Store, input: NewUser, secret_key: &str) -> (r: Result<
        SessionResponse,
        ServerError,
    >)
        requires
            old(store)@.wf(),
        ensures
            final(store)@.wf(),
            final(store)@.users == old(store)@.users,
            final(store)@.items == old(store)@.items,
            final(store)@.next_user_id == old(store)@.next_user_id,
            !credentials_match(old(store)@, input.email@, input.password@, secret_key@) ==> {
                &&& final(store)@ == old(store)@
                &&& r matches Ok(resp) && resp matches SessionResponse::ValidationError(v) && v@
                    == seq![wrong_credentials_error()]
            },
            credentials_match(old(store)@, input.email@, input.password@, secret_key@) ==> match r {
                Ok(resp) => resp matches SessionResponse::Session(s) && {
                    &&& s@.user_id == old(store)@.user_with_email(input.email@).id
                    &&& final(store)@.sessions == old(store)@.sessions.push(s@)
                    &&& final(store)@.contains_session(s@.id)
                },
                Err(e) => e == ServerError::SessionIdCollision && final(store)@ == old(store)@,
            },
    {
        let (user_id, password_ok) = match store.find_user_by_email(&input.email) {
            Some(u) => (
                u.id,
                verify_password(input.password.as_str(), u.password.as_str(), secret_key),
            ),
            None => {
                let e = field_error("password", "authentication_error", "incorrect credentials");
                return Ok(SessionResponse::ValidationError(single_field_validation_error(e)));
            },
        };
        if !password_ok {
            let e = field_error("password", "authentication_error", "incorrect credentials");
            return Ok(SessionResponse::ValidationError(single_field_validation_error(e)));
        }
        proof {
            let o = store@;
            let k = o.email_index(input.email@);
            assert(0 <= k < o.users.len() && o.users[k].email == input.email@);
            assert(o.users[k].id == user_id as int);
            assert(o.contains_user_id(user_id as int));
        }
        let sid = random_session_id();
        let now = now_timestamp();
        match store.create_session(NewSession { user_id }, sid, now) {
            Ok(s) => {
                proof {
                    lemma_session_push_contains(old(store)@, store@, s@);
                }
                Ok(SessionResponse::Session(s))
            },
            Err(e) => Err(e),
        }
    }

    /// Password change: authentication, then ownership of the target
    /// user, then validation, then the read-verify-write sequence. A
    /// wrong old password earns a validation error and changes nothing.
    #[allow(non_snake_case)]
    pub fn changePassword(
        ctx: &Context,
        store: &mut Store,
        input: ChangePasswordUser,
        secret_key: &str,
    ) -> (r: Result<UserResponse, ServerError>)
        requires
            old(store)@.wf(),
        ensures
            final(store)@.wf(),
            final(store)@.sessions == old(store)@.sessions,
            final(store)@.items == old(store)@.items,
            final(store)@.next_user_id == old(store)@.next_user_id,
            match ctx.principal() {
                None => {
                    &&& final(store)@ == old(store)@
                    &&& r matches Ok(resp) && resp matches UserResponse::AuthenticationError(e)
                        && e@ == authentication_error()
                },
                Some(p) => if p.id != input.id as int {
                    &&& final(store)@ == old(store)@
                    &&& r matches Ok(resp) && resp matches UserResponse::PermissionError(e) && e@
                        == permission_error()
                } else if !input.valid() {
                    &&& final(store)@ == old(store)@
                    &&& r matches Ok(resp) && resp matches UserResponse::ValidationError(v) && v@
                        == seq![short_new_password_error()]
                } else if !old(store)@.contains_user_id(input.id as int) {
                    &&& final(store)@ == old(store)@
                    &&& r == Err::<UserResponse, ServerError>(ServerError::NotFound)
                } else if !digest_matches(
                    old(store)@.user_with_id(input.id as int).password,
                    input.old_password@,
                    secret_key@,
                ) {
                    &&& final(store)@ == old(store)@
                    &&& r matches Ok(resp) && resp matches UserResponse::ValidationError(v) && v@
                        == seq![old_password_incorrect_error()]
                } else {
                    match r {
                        Ok(resp) => resp matches UserResponse::User(u) && {
                            &&& u@ == slim_of(old(store)@.user_with_id(input.id as int))
                            &&& exists|d: Seq<char>|
                                #[trigger] digest_matches(d, input.new_password@, secret_key@)
                                    && final(store)@.users == old(store)@.users.update(
                                    old(store)@.user_index(input.id as int),
                                    FullUserV {
                                        password: d,
                                        ..old(store)@.user_with_id(input.id as int)
                                    },
                                )
                        },
                        Err(e) => final(store)@ == old(store)@ && e == ServerError::HashingFailed,
                    }
                },
            },
            ctx.principal() matches Some(p) && p.id == input.id as int && input.valid() && old(
                store,
            )@.contains_user_id(input.id as int) && digest_matches(
                old(store)@.user_with_id(input.id as int).password,
                input.old_password@,
                secret_key@,
            ) && fits_hashing(input.new_password@) && fits_hashing(secret_key@) ==> r is Ok,
    {
        let p = match &ctx.user {
            Some(u) => u,
            None => {
                return Ok(UserResponse::AuthenticationError(AuthenticationError::default()));
            },
        };
        if p.id != input.id {
            return Ok(UserResponse::PermissionError(PermissionError::default()));
        }
        match input.validate() {
            Ok(()) => (),
            Err(v) => {
                return Ok(UserResponse::ValidationError(v));
            },
        }
        let stored_digest = match store.find_full_user(input.id) {
            Some(u) => u.password.clone(),
            None => {
                return Err(ServerError::NotFound);
            },
        };
        let old_ok = verify_password(
            input.old_password.as_str(),
            stored_digest.as_str(),
            secret_key,
        );
        if !old_ok {
            let e = field_error("old_password", "old_password_incorrect", "incorrect old password");
            return Ok(UserResponse::ValidationError(single_field_validation_error(e)));
        }
        let digest = match hash_password(input.new_password.as_str(), secret_key) {
            Ok(d) => d,
            Err(e) => {
                return Err(e);
            },
        };
        let ghost digest_view = digest@;
        match store.update_user_password(input.id, digest) {
            Ok(u) => {
                proof {
                    assert(digest_matches(digest_view, input.new_password@, secret_key@));
                }
                Ok(UserResponse::User(u))
            },
            Err(e) => Err(e),
        }
    }

    /// Account deletion: authentication, then ownership, then removal of
    /// the user row and, with it, every session and item it owns.
    #[allow(non_snake_case)]
    pub fn deleteUser(ctx: &Context, store: &mut Store, input: UserIdInput) -> (r: Result<
        UserIdResponse,
        ServerError,
    >)
        requires
            old(store)@.wf(),
        ensures
            final(store)@.wf(),
            final(store)@.next_user_id == old(store)@.next_user_id,
            match ctx.principal() {
                None => {
                    &&& final(store)@ == old(store)@
                    &&& r matches Ok(resp) && resp matches UserIdResponse::AuthenticationError(e)
                        && e@ == authentication_error()
                },
                Some(p) => if p.id != input.id as int {
                    &&& final(store)@ == old(store)@
                    &&& r matches Ok(resp) && resp matches UserIdResponse::PermissionError(e) && e@
                        == permission_error()
                } else {
                    &&& r matches Ok(resp) && resp matches UserIdResponse::UserIdOutput(o) && o.id
                        == input.id
                    &&& !final(store)@.contains_user_id(input.id as int)
                    &&& old(store)@.contains_user_id(input.id as int) ==> {
                        &&& final(store)@.users == old(store)@.users.remove(
                            old(store)@.user_index(input.id as int),
                        )
                        &&& final(store)@.sessions == sessions_not_of(
                            old(store)@.sessions,
                            input.id as int,
                        )
                        &&& final(store)@.items == items_not_of(old(store)@.items, input.id as int)
                    }
                    &&& !old(store)@.contains_user_id(input.id as int) ==> final(store)@ == old(
                        store,
                    )@
                },
            },
    {
        let p = match &ctx.user {
            Some(u) => u,
            None => {
                return Ok(UserIdResponse::AuthenticationError(AuthenticationError::default()));
            },
        };
        if p.id != input.id {
            return Ok(UserIdResponse::PermissionError(PermissionError::default()));
        }
        let removed = store.delete_user(input.id);
        proof {
            if !removed && old(store)@.contains_user_id(input.id as int) {
                assert(false);
            }
        }
        Ok(UserIdResponse::UserIdOutput(UserIdOutput { id: input.id }))
    }

    /// Logout: authentication, then the session is fetched, ownership is
    /// checked against its owner, and only then is it removed. The named
    /// session must exist; its absence is a lookup failure, not success.
    pub fn logout(ctx: &Context, store: &mut Store, input: SessionIdInput) -> (r: Result<
        SessionIdResponse,
        ServerError,
    >)
        requires
            old(store)@.wf(),
        ensures
            final(store)@.wf(),
            final(store)@.users == old(store)@.users,
            final(store)@.items == old(store)@.items,
            final(store)@.next_user_id == old(store)@.next_user_id,
            match ctx.principal() {
                None => {
                    &&& final(store)@ == old(store)@
                    &&& r matches Ok(resp) && resp matches SessionIdResponse::AuthenticationError(e)
                        && e@ == authentication_error()
                },
                Some(p) => if !old(store)@.contains_session(input.id as int) {
                    &&& final(store)@ == old(store)@
                    &&& r == Err::<SessionIdResponse, ServerError>(ServerError::NotFound)
                } else if old(store)@.session_with_id(input.id as int).user_id != p.id {
                    &&& final(store)@ == old(store)@
                    &&& r matches Ok(resp) && resp matches SessionIdResponse::PermissionError(e)
                        && e@ == permission_error()
                } else {
                    &&& r matches Ok(resp) && resp matches SessionIdResponse::SessionIdOutput(o)
                        && o.id == input.id
                    &&& final(store)@.sessions == old(store)@.sessions.remove(
                        old(store)@.session_index(input.id as int),
                    )
                    &&& !final(store)@.contains_session(input.id as int)
                },
            },
    {
        let p = match &ctx.user {
            Some(u) => u,
            None => {
                return Ok(SessionIdResponse::AuthenticationError(AuthenticationError::default()));
            },
        };
        let session = match store.find_session(input.id) {
            Some(s) => s,
            None => {
                return Err(ServerError::NotFound);
            },
        };
        if session.user_id != p.id {
            return Ok(SessionIdResponse::PermissionError(PermissionError::default()));
        }
        match store.delete_session(input.id) {
            Ok(()) => Ok(SessionIdResponse::SessionIdOutput(SessionIdOutput { id: input.id })),
            Err(e) => Err(e),
        }
    }
}

impl User {
    /// The items this user owns.
    pub fn items(&self, store: &Store) -> (r: Vec<Item>)
        ensures
            r@.map_values(|i: Item| i@) == items_of(store@.items, self.id as int),
    {
        store.items_of_user(self.id)
    }

    /// The sessions this user owns.
    pub fn sessions(&self, store: &Store) -> (r: Vec<Session>)
        ensures
            r@.map_values(|s: Session| s@) == sessions_of(store@.sessions, self.id as int),
    {
        store.sessions_of_user(self.id)
    }
}

/// A session just pushed is contained in the new sequence.
proof fn lemma_session_push_contains(o: StoreV, n: StoreV, s: SessionV)
    requires
        n.sessions == o.sessions.push(s),
    ensures
        n.contains_session(s.id),
{
    assert(n.sessions[n.sessions.len() - 1] == s);
}

/// Law: a request without an Authorization header resolves to no
/// principal.
pub proof fn lemma_no_header_no_principal(s: StoreV)
    ensures
        header_principal(s, None) is None,
{
}

/// Law: a header that does not open with the bearer scheme resolves to
/// no principal.
pub proof fn lemma_malformed_header_no_principal(s: StoreV, h: Seq<char>)
    requires
        !has_bearer_prefix(h),
    ensures
        header_principal(s, Some(h)) is None,
{
}

/// Law: once the session a token names is gone, the token resolves to no
/// principal.
pub proof fn lemma_revoked_token_resolves_to_none(s: StoreV, sid: u128, token: Seq<char>)
    requires
        parsed_session_token(token) == Some(sid),
        !s.contains_session(sid as int),
    ensures
        token_principal(s, token) is None,
{
}

/// Law: a request that presents a bearer token naming a removed session —
/// as a header — resolves to no principal.
pub proof fn lemma_revoked_header_resolves_to_none(s: StoreV, sid: u128, h: Seq<char>)
    requires
        spec_parse_bearer_token(h) matches Some(token) && parsed_session_token(token) == Some(sid),
        !s.contains_session(sid as int),
    ensures
        header_principal(s, Some(h)) is None,
{
}

} // verus!
