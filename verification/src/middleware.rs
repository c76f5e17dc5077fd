//! Who may pass: the decision that stands before every request.

use vstd::prelude::*;
use vstd::string::*;
use crate::text::{print_uuid, same_text, uuid_text};

verus! {

/// What a signed token says: whom it was issued to, and until when it holds.
#[derive(Debug)]
pub struct Claims {
    /// The user's identifier.
    pub sub: String,
    /// The time the token expires, in seconds since the Unix epoch.
    pub exp: usize,
}

/// What to do with a request before it reaches a handler.
#[derive(Debug)]
pub enum Access {
    /// The path is open to everyone.
    Open,
    /// The request carries this bearer token, which is yet to be checked.
    Bearer { token: String },
    /// The request carries no bearer token: it is answered with 401.
    Denied,
}

/// The HTTP status that answers a request without a valid token.
pub const UNAUTHORIZED: u16 = 401;

/// The paths that need no token: registration, login and the root.
pub open spec fn is_public(path: Seq<char>) -> bool {
    path == "/api/v1/user/register"@ || path == "/api/v1/user/login"@ || path == "/"@
}

/// The token of an `Authorization` header: what follows the word `Bearer`
/// and one space, if the header begins so.
pub open spec fn bearer_token(header: Seq<char>) -> Option<Seq<char>> {
    if header.len() >= "Bearer "@.len() && header.subrange(0, "Bearer "@.len() as int)
        == "Bearer "@ {
        Some(header.subrange("Bearer "@.len() as int, header.len() as int))
    } else {
        None
    }
}

/// The token that a request presents, if it has a header and the header
/// holds one.
pub open spec fn presented(authorization: Option<&str>) -> Option<Seq<char>> {
    match authorization {
        Some(header) => bearer_token(header@),
        None => None,
    }
}

/// Decides on a request from its path and its `Authorization` header, if it
/// has one that is text. A public path is open whatever the header holds.
/// On any other path the request is denied unless the header begins with
/// the word `Bearer` and a space; what follows is the token to check.
pub fn auth(path: &str, authorization: Option<&str>) -> (r: Access)
    ensures
        r is Open <==> is_public(path@),
        r is Denied <==> !is_public(path@) && presented(authorization) is None,
        r is Bearer ==> Some(r->token@) == presented(authorization),
{
    if same_text(path, "/api/v1/user/register") || same_text(path, "/api/v1/user/login")
        || same_text(path, "/") {
        return Access::Open;
    }
    let header = match authorization {
        Some(header) => header,
        None => {
            return Access::Denied;
        },
    };
    proof {
        reveal_strlit("Bearer ");
    }
    let n = header.unicode_len();
    if n < 7 {
        return Access::Denied;
    }
    if !same_text(header.substring_char(0, 7), "Bearer ") {
        return Access::Denied;
    }
    Access::Bearer { token: String::from_str(header.substring_char(7, n)) }
}

/// How long a token holds, in seconds: seven days.
pub const TOKEN_LIFETIME: i64 = 604800;

/// The time at which a token issued at `now` expires can be written down:
/// it is not before the epoch and fits the machine's word.
pub open spec fn expiry_fits(now: i64) -> bool {
    0 <= now + TOKEN_LIFETIME <= i64::MAX && now + TOKEN_LIFETIME <= usize::MAX
}

/// The claims of a token issued to the user `user_id` at the time `now`, in
/// seconds since the Unix epoch: the user's identifier as text, and an
/// expiry seven days later. `None` when that expiry cannot be written down.
pub fn token_claims(user_id: u128, now: i64) -> (r: Option<Claims>)
    ensures
        r is Some <==> expiry_fits(now),
        r is Some ==> r.unwrap().sub@ == uuid_text(user_id) && r.unwrap().exp == now
            + TOKEN_LIFETIME,
{
    if now > i64::MAX - TOKEN_LIFETIME || now < -TOKEN_LIFETIME {
        return None;
    }
    let expires: i64 = now + TOKEN_LIFETIME;
    if expires as u64 > usize::MAX as u64 {
        return None;
    }
    Some(Claims { sub: print_uuid(user_id), exp: expires as usize })
}

} // verus!
