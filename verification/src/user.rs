//! Users: registration, login and changes to a profile, as far as they are
//! decisions. Reading and writing the user table is the caller's part.

use vstd::prelude::*;
use crate::account::Types;
use crate::ledger::Ledger;
use crate::middleware::{expiry_fits, token_claims, Claims, TOKEN_LIFETIME};
use crate::text::{print_uuid, uuid_text};

verus! {

/// A user as the user table holds it.
#[derive(Debug)]
pub struct User {
    pub id: u128,
    pub full_name: String,
    pub email: String,
    pub password_hash: String,
}

/// A request to register.
#[derive(Clone, Debug)]
pub struct UserReq {
    pub full_name: String,
    pub email: String,
    pub password: String,
    pub account_type: Types,
}

/// A request to change a profile. The email says whose; every other field
/// that is present replaces the stored one.
#[derive(Clone, Debug)]
pub struct UpdateProfileReq {
    pub full_name: Option<String>,
    pub email: Option<String>,
    pub password: Option<String>,
    pub account_type: Option<Types>,
}

/// The answer to a registration or to a change of profile.
#[derive(Debug)]
pub struct CreateUserRes {
    pub account_id: u128,
    pub full_name: String,
    pub email: String,
    pub account_type: Types,
    pub token: String,
}

/// A request to log in.
#[derive(Debug)]
pub struct LoginReq {
    pub email: String,
    pub password: String,
}

/// The answer to a login.
#[derive(Debug)]
pub struct LoginRes {
    pub token: String,
    pub account_id: String,
    pub full_name: String,
}

/// Why a request about a user was declined.
#[derive(Clone, Copy, Debug, PartialEq, Eq, Structural)]
pub enum UserError {
    /// The email belongs to a registered user.
    EmailTaken,
    /// No user has this email, or the password is not theirs.
    InvalidCredentials,
    /// A change of profile names no field to change.
    NothingToUpdate,
    /// A change of profile lacks the email that says whose profile it is.
    EmailRequired,
    /// No user has the email of a change of profile.
    UserNotFound,
    /// Hashing, checking a hash or issuing a token failed.
    Internal,
}

impl UserError {
    /// The HTTP status that stands for this error.
    pub open spec fn spec_status(self) -> u16 {
        match self {
            UserError::EmailTaken => 409,
            UserError::InvalidCredentials => 401,
            UserError::NothingToUpdate => 400,
            UserError::EmailRequired => 400,
            UserError::UserNotFound => 404,
            UserError::Internal => 500,
        }
    }

    /// The HTTP status that stands for this error.
    pub fn status(&self) -> (r: u16)
        ensures
            r == self.spec_status(),
    {
        match self {
            UserError::EmailTaken => 409,
            UserError::InvalidCredentials => 401,
            UserError::NothingToUpdate => 400,
            UserError::EmailRequired => 400,
            UserError::UserNotFound => 404,
            UserError::Internal => 500,
        }
    }
}

/// `bcrypt::BcryptError`: what `bcrypt` reports when it cannot hash or
/// cannot read a hash. It is passed on and never looked into.
#[verifier::external_type_specification]
#[verifier::external_body]
pub struct ExBcryptError(bcrypt::BcryptError);

/// What `bcrypt::verify` makes of a password and a stored hash: whether the
/// password is the hashed one, or nothing where the hash cannot be read.
pub uninterp spec fn bcrypt_verify(password: Seq<char>, hash: Seq<char>) -> Option<bool>;

/// `bcrypt::verify`. Its answer depends on the password and the hash alone:
/// whether the one is the other's password, or an error where the hash
/// cannot be read.
#[verifier::external_body]
fn verify_hash(password: &str, hash: &str) -> (r: Result<bool, bcrypt::BcryptError>)
    ensures
        r is Ok ==> bcrypt_verify(password@, hash@) == Some(r.unwrap()),
        r is Err ==> bcrypt_verify(password@, hash@) is None,
{
    bcrypt::verify(password, hash)
}

/// `bcrypt::hash` at `bcrypt::DEFAULT_COST`. The salt is random, so the hash
/// differs from call to call; whichever comes back, `bcrypt::verify` accepts
/// the password for it.
#[verifier::external_body]
fn hash_at_default_cost(password: &str) -> (r: Result<String, bcrypt::BcryptError>)
    ensures
        r is Ok ==> bcrypt_verify(password@, r.unwrap()@) == Some(true),
{
    bcrypt::hash(password, bcrypt::DEFAULT_COST)
}

/// Hashes a password for storage. The hash differs from call to call; every
/// hash returned is one that the password verifies against.
pub fn hash_password(password: &str) -> (r: Result<String, UserError>)
    ensures
        r is Ok ==> bcrypt_verify(password@, r.unwrap()@) == Some(true),
        r is Err ==> r.unwrap_err() == UserError::Internal,
{
    match hash_at_default_cost(password) {
        Ok(hash) => Ok(hash),
        Err(_) => Err(UserError::Internal),
    }
}

/// What a login comes to once the password was checked against the stored
/// hash of the user `id`.
pub open spec fn spec_password_verdict(id: u128, checked: Option<bool>) -> Result<u128, UserError> {
    match checked {
        Some(true) => Ok(id),
        Some(false) => Err(UserError::InvalidCredentials),
        None => Err(UserError::Internal),
    }
}

/// What a login comes to once the password was checked against the stored
/// hash of the user `id`: the user, when it matched; invalid credentials,
/// when it did not; an internal error, when the hash could not be read.
pub fn password_verdict(id: u128, checked: Option<bool>) -> (r: Result<u128, UserError>)
    ensures
        r == spec_password_verdict(id, checked),
{
    match checked {
        Some(true) => Ok(id),
        Some(false) => Err(UserError::InvalidCredentials),
        None => Err(UserError::Internal),
    }
}

/// Decides a login from the request and the user that its email found, if
/// any. An unknown email and a wrong password get the same answer. On
/// success the result is the user's identifier.
pub fn login(req: &LoginReq, user: Option<&User>) -> (r: Result<u128, UserError>)
    ensures
        user is None ==> r == Err::<u128, UserError>(UserError::InvalidCredentials),
        user is Some ==> r == spec_password_verdict(
            user.unwrap().id,
            bcrypt_verify(req.password@, user.unwrap().password_hash@),
        ),
{
    match user {
        None => Err(UserError::InvalidCredentials),
        Some(u) => {
            let checked = match verify_hash(req.password.as_str(), u.password_hash.as_str()) {
                Ok(b) => Some(b),
                Err(_) => None,
            };
            password_verdict(u.id, checked)
        },
    }
}

/// The answer to a successful login: the token, the account's identifier as
/// text, and the user's name.
pub fn login_response(token: String, account_id: u128, full_name: String) -> (r: LoginRes)
    ensures
        r.token@ == token@,
        r.account_id@ == uuid_text(account_id),
        r.full_name@ == full_name@,
{
    LoginRes { token, account_id: print_uuid(account_id), full_name }
}

/// What a registration sets up: the user to store, the account opened for
/// them, and the claims of their first token.
#[derive(Debug)]
pub struct Registration {
    pub user: User,
    pub account_id: u128,
    pub account_type: Types,
    pub claims: Claims,
}

impl Registration {
    /// The answer to the registration, once the claims were signed.
    pub fn response(self, token: String) -> (r: CreateUserRes)
        ensures
            r.account_id == self.account_id,
            r.full_name@ == self.user.full_name@,
            r.email@ == self.user.email@,
            r.account_type == self.account_type,
            r.token@ == token@,
    {
        CreateUserRes {
            account_id: self.account_id,
            full_name: self.user.full_name,
            email: self.user.email,
            account_type: self.account_type,
            token,
        }
    }
}

/// A registration goes through: the email is free, the password was
/// hashed, the account's identifier is new, and the token's expiry fits.
pub open spec fn can_enroll(
    balances: Map<u128, int>,
    email_taken: bool,
    hashed: bool,
    account_id: u128,
    now: i64,
) -> bool {
    !email_taken && hashed && !balances.dom().contains(account_id) && expiry_fits(now)
}

/// The error of a registration that does not go through.
pub open spec fn enroll_error(email_taken: bool) -> UserError {
    if email_taken {
        UserError::EmailTaken
    } else {
        UserError::Internal
    }
}

/// The registration `reg` is the one that `req` asks for, with the given
/// identifiers and the time `now`.
pub open spec fn registered(
    reg: Registration,
    req: UserReq,
    user_id: u128,
    account_id: u128,
    now: i64,
) -> bool {
    &&& reg.user.id == user_id
    &&& reg.user.full_name@ == req.full_name@
    &&& reg.user.email@ == req.email@
    &&& reg.account_id == account_id
    &&& reg.account_type == req.account_type
    &&& reg.claims.sub@ == uuid_text(user_id)
    &&& reg.claims.exp == now + TOKEN_LIFETIME
}

/// Completes a registration whose password was hashed, or could not be:
/// opens the account `account_id` with a balance of zero and draws up the
/// user and the claims. Where it is declined the ledger is left as it was.
pub fn enroll(
    ledger: &mut Ledger,
    req: UserReq,
    email_taken: bool,
    hashed: Option<String>,
    user_id: u128,
    account_id: u128,
    now: i64,
) -> (r: Result<Registration, UserError>)
    requires
        old(ledger).wf(),
    ensures
        final(ledger).wf(),
        final(ledger)@.log == old(ledger)@.log,
        r is Ok <==> can_enroll(old(ledger)@.balances, email_taken, hashed is Some, account_id, now),
        r is Ok ==> final(ledger)@.balances == old(ledger)@.balances.insert(account_id, 0),
        r is Ok ==> registered(r.unwrap(), req, user_id, account_id, now),
        r is Ok ==> r.unwrap().user.password_hash@ == hashed.unwrap()@,
        r is Err ==> final(ledger)@ == old(ledger)@,
        r is Err ==> r.unwrap_err() == enroll_error(email_taken),
{
    if email_taken {
        return Err(UserError::EmailTaken);
    }
    let password_hash = match hashed {
        Some(hash) => hash,
        None => {
            return Err(UserError::Internal);
        },
    };
    let claims = match token_claims(user_id, now) {
        Some(claims) => claims,
        None => {
            return Err(UserError::Internal);
        },
    };
    match ledger.open_account(account_id) {
        Ok(_) => {},
        Err(_) => {
            return Err(UserError::Internal);
        },
    }
    Ok(
        Registration {
            user: User { id: user_id, full_name: req.full_name, email: req.email, password_hash },
            account_id,
            account_type: req.account_type,
            claims,
        },
    )
}

/// Registers a user: declines an email that is taken, hashes the password,
/// opens the account `account_id` with a balance of zero and draws up the
/// user to store and the claims of their first token. Hashing draws on
/// randomness and may fail; whenever the registration is declined the ledger
/// is left as it was, and the hash of an accepted one verifies the password.
pub fn register(
    ledger: &mut Ledger,
    req: UserReq,
    email_taken: bool,
    user_id: u128,
    account_id: u128,
    now: i64,
) -> (r: Result<Registration, UserError>)
    requires
        old(ledger).wf(),
    ensures
        final(ledger).wf(),
        final(ledger)@.log == old(ledger)@.log,
        r is Ok ==> can_enroll(old(ledger)@.balances, email_taken, true, account_id, now),
        r is Ok ==> final(ledger)@.balances == old(ledger)@.balances.insert(account_id, 0),
        r is Ok ==> registered(r.unwrap(), req, user_id, account_id, now),
        r is Ok ==> bcrypt_verify(req.password@, r.unwrap().user.password_hash@) == Some(true),
        r is Err ==> final(ledger)@ == old(ledger)@,
        r is Err ==> r.unwrap_err() == enroll_error(email_taken),
{
    if email_taken {
        return Err(UserError::EmailTaken);
    }
    let hashed = match hash_password(req.password.as_str()) {
        Ok(hash) => Some(hash),
        Err(_) => None,
    };
    enroll(ledger, req, email_taken, hashed, user_id, account_id, now)
}

/// What a change of profile sets up: the user to store in place of the old
/// one, the kind of account to store if the request names one, and the
/// claims of a fresh token.
#[derive(Debug)]
pub struct ProfileUpdate {
    pub user: User,
    pub account_type: Option<Types>,
    pub claims: Claims,
}

/// Why a change of profile is declined before anything is hashed, if it
/// is: it names no field at all; it lacks the email; the email finds no user.
pub open spec fn update_refused(req: UpdateProfileReq, found: bool) -> Option<UserError> {
    if req.full_name is None && req.email is None && req.password is None
        && req.account_type is None {
        Some(UserError::NothingToUpdate)
    } else if req.email is None {
        Some(UserError::EmailRequired)
    } else if !found {
        Some(UserError::UserNotFound)
    } else {
        None
    }
}

/// A change of profile goes through: nothing about the request is refused,
/// the new password, if there is one, was hashed, and the token's expiry
/// fits.
pub open spec fn can_merge(req: UpdateProfileReq, found: bool, hashed: bool, now: i64) -> bool {
    &&& update_refused(req, found) is None
    &&& req.password is Some ==> hashed
    &&& expiry_fits(now)
}

/// The error of a change of profile that does not go through.
pub open spec fn merge_error(req: UpdateProfileReq, found: bool) -> UserError {
    match update_refused(req, found) {
        Some(e) => e,
        None => UserError::Internal,
    }
}

/// The change `update` is the one that `req` asks for on the user
/// `current`, at the time `now`: every field that the request names is
/// taken from it, every other from `current`.
pub open spec fn merged(
    update: ProfileUpdate,
    req: UpdateProfileReq,
    current: User,
    hashed: Option<String>,
    now: i64,
) -> bool {
    &&& update.user.id == current.id
    &&& update.user.full_name@ == match req.full_name {
        Some(name) => name@,
        None => current.full_name@,
    }
    &&& update.user.email@ == match req.email {
        Some(email) => email@,
        None => current.email@,
    }
    &&& update.user.password_hash@ == if req.password is Some && hashed is Some {
        hashed.unwrap()@
    } else {
        current.password_hash@
    }
    &&& update.account_type == req.account_type
    &&& update.claims.sub@ == uuid_text(current.id)
    &&& update.claims.exp == now + TOKEN_LIFETIME
}

/// Why the request is declined before anything is hashed, if it is.
pub fn check_update(req: &UpdateProfileReq, found: bool) -> (r: Option<UserError>)
    ensures
        r == update_refused(*req, found),
{
    if req.full_name.is_none() && req.email.is_none() && req.password.is_none()
        && req.account_type.is_none() {
        Some(UserError::NothingToUpdate)
    } else if req.email.is_none() {
        Some(UserError::EmailRequired)
    } else if !found {
        Some(UserError::UserNotFound)
    } else {
        None
    }
}

/// Draws up a change of profile once the new password, if the request
/// names one, was hashed or could not be. `current` is the user that the
/// request's email found, if any; `hashed` is the new password's hash.
pub fn merge_profile(
    req: UpdateProfileReq,
    current: Option<User>,
    hashed: Option<String>,
    now: i64,
) -> (r: Result<ProfileUpdate, UserError>)
    ensures
        r is Ok <==> can_merge(req, current is Some, hashed is Some, now),
        r is Ok ==> merged(r.unwrap(), req, current.unwrap(), hashed, now),
        r is Err ==> r.unwrap_err() == merge_error(req, current is Some),
{
    match check_update(&req, current.is_some()) {
        Some(e) => {
            return Err(e);
        },
        None => {},
    }
    let current = current.unwrap();
    let password_hash = match req.password {
        None => current.password_hash,
        Some(_) => match hashed {
            Some(hash) => hash,
            None => {
                return Err(UserError::Internal);
            },
        },
    };
    let claims = match token_claims(current.id, now) {
        Some(claims) => claims,
        None => {
            return Err(UserError::Internal);
        },
    };
    let full_name = match req.full_name {
        Some(name) => name,
        None => current.full_name,
    };
    let email = match req.email {
        Some(email) => email,
        None => current.email,
    };
    Ok(
        ProfileUpdate {
            user: User { id: current.id, full_name, email, password_hash },
            account_type: req.account_type,
            claims,
        },
    )
}

/// Changes a profile: declines a request that names no field, that lacks
/// the email, or whose email found no user, in this order; hashes the new
/// password if the request names one; and draws up the user to store and
/// the claims of a fresh token. Hashing draws on randomness and may fail;
/// the hash of an accepted change verifies the new password.
pub fn update_profile(req: UpdateProfileReq, current: Option<User>, now: i64) -> (r: Result<
    ProfileUpdate,
    UserError,
>)
    ensures
        r is Ok ==> can_merge(req, current is Some, true, now),
        r is Ok ==> merged(
            r.unwrap(),
            req,
            current.unwrap(),
            Some(r.unwrap().user.password_hash),
            now,
        ),
        r is Ok && req.password is Some ==> bcrypt_verify(
            req.password.unwrap()@,
            r.unwrap().user.password_hash@,
        ) == Some(true),
        r is Err ==> r.unwrap_err() == merge_error(req, current is Some),
        req.password is None ==> (r is Ok <==> can_merge(req, current is Some, false, now)),
{
    match check_update(&req, current.is_some()) {
        Some(e) => {
            return Err(e);
        },
        None => {},
    }
    let hashed = match &req.password {
        None => None,
        Some(password) => match hash_password(password.as_str()) {
            Ok(hash) => Some(hash),
            Err(_) => None,
        },
    };
    merge_profile(req, current, hashed, now)
}

/// The answer to a change of profile, once the claims were signed. The kind
/// of account is the one that the request named or else the stored one,
/// read from its name.
pub fn profile_response(update: ProfileUpdate, stored_type: &str, token: String) -> (r:
    CreateUserRes)
    ensures
        r.account_id == update.user.id,
        r.full_name@ == update.user.full_name@,
        r.email@ == update.user.email@,
        update.account_type is Some ==> r.account_type == update.account_type.unwrap(),
        update.account_type is None ==> r.account_type == Types::spec_from_name(stored_type@),
        r.token@ == token@,
{
    let account_type = match update.account_type {
        Some(kind) => kind,
        None => Types::from_name(stored_type),
    };
    CreateUserRes {
        account_id: update.user.id,
        full_name: update.user.full_name,
        email: update.user.email,
        account_type,
        token,
    }
}

} // verus!
