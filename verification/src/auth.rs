//! Who a request acts for, and whether a session still entitles it to.

use crate::model::HasUserId;
use crate::text::{parse_uuid, uuid_value};
use base64::Engine;
use vstd::prelude::*;
use vstd::string::StringExecFns;

verus! {

/// The identifier of an authenticated user.
#[derive(Debug)]
pub struct UserId {
    id: String,
}

impl Clone for UserId {
    fn clone(&self) -> (res: UserId)
        ensures
            res@ == self@,
    {
        UserId { id: self.id.clone() }
    }
}

impl View for UserId {
    type V = Seq<char>;

    closed spec fn view(&self) -> Seq<char> {
        self.id@
    }
}

impl UserId {
    /// The identifier made of the given text.
    pub fn new(id: String) -> (res: UserId)
        ensures
            res@ == id@,
    {
        UserId { id }
    }

    /// The text of the identifier.
    pub fn as_str(&self) -> (res: &str)
        ensures
            res@ == self@,
    {
        self.id.as_str()
    }
}

/// Equality of string slices, as std documents it: two slices are equal
/// exactly if they hold the same characters.
pub assume_specification[ <str as PartialEq>::eq ](a: &str, b: &str) -> (res: bool)
    ensures
        res == (a@ == b@),
;

/// An object that was about to be handed to a user who does not own it.
#[derive(Debug, Clone, Copy, PartialEq, Eq, Structural)]
pub struct ForeignObject {
    /// Position of the first such object in the list that was checked.
    pub position: usize,
}

/// Whether every object up to, but not including, position `n` belongs to
/// the user with the identifier `user`.
pub open spec fn all_belong_to<T: HasUserId>(entries: Seq<T>, n: int, user: Seq<char>) -> bool {
    forall|i: int| 0 <= i < n ==> (#[trigger] entries[i]).owner() == user
}

/// Checks that every object in a list belongs to the given user, and
/// reports the first one that does not.
pub fn check_object_belong_to_userid<T: HasUserId>(entries: &[T], user_id: &UserId) -> (res:
    Result<(), ForeignObject>)
    ensures
        res is Ok <==> all_belong_to(entries@, entries@.len() as int, user_id@),
        res matches Err(e) ==> {
            &&& e.position < entries@.len()
            &&& entries@[e.position as int].owner() != user_id@
            &&& all_belong_to(entries@, e.position as int, user_id@)
        },
{
    let mut k: usize = 0;
    while k < entries.len()
        invariant
            k <= entries.len(),
            all_belong_to(entries@, k as int, user_id@),
        decreases entries.len() - k,
    {
        if !str_equal(entries[k].user_id(), user_id.as_str()) {
            return Err(ForeignObject { position: k });
        }
        k = k + 1;
    }
    Ok(())
}

/// Whether two string slices hold the same characters.
pub fn str_equal(a: &str, b: &str) -> (res: bool)
    ensures
        res == (a@ == b@),
{
    *a == *b
}

/// How far the sign-in of a session has come.
#[derive(Debug, Clone, Copy, PartialEq, Eq, Structural)]
pub enum SessionStatus {
    Initiated,
    Authenticated,
}

/// A sign-in session as it is stored.
#[derive(Debug)]
pub struct Session {
    pub id: u128,
    pub authenticated: SessionStatus,
    pub nonce: String,
    pub user_id: Option<String>,
    /// The instant at which the session expires, in seconds since the Unix epoch.
    pub expires: i64,
}

/// Why a session does not identify a user.
#[derive(Debug, Clone, Copy, PartialEq, Eq, Structural)]
pub enum AuthenticatorError {
    InvalidSession,
    NotAuthorized,
}

impl AuthenticatorError {
    /// The text that describes this error.
    pub fn message(&self) -> (res: &'static str)
        ensures
            res@ == match self {
                AuthenticatorError::InvalidSession => "invalid session"@,
                AuthenticatorError::NotAuthorized => "Not authorized"@,
            },
    {
        match self {
            AuthenticatorError::InvalidSession => "invalid session",
            AuthenticatorError::NotAuthorized => "Not authorized",
        }
    }
}

/// Passes exactly if the sign-in of the session was completed.
pub fn verify_authenticated(session: &Session) -> (res: Result<(), ()>)
    ensures
        res is Ok <==> session.authenticated == SessionStatus::Authenticated,
{
    if session.authenticated != SessionStatus::Authenticated {
        return Err(());
    }
    Ok(())
}

/// Passes exactly if the session does not expire before the instant `now`,
/// given in seconds since the Unix epoch.
pub fn verify_session_expiry(session: &Session, now: i64) -> (res: Result<(), ()>)
    ensures
        res is Ok <==> session.expires >= now,
{
    if session.expires < now {
        return Err(());
    }
    Ok(())
}

/// Whether a session entitles to act at the instant `now`: its sign-in was
/// completed and it has not expired.
pub open spec fn session_is_valid(session: &Session, now: int) -> bool {
    session.authenticated == SessionStatus::Authenticated && session.expires >= now
}

/// Passes exactly if the session is signed in and has not expired.
pub fn verify_session(session: &Session, now: i64) -> (res: Result<(), ()>)
    ensures
        res is Ok <==> session_is_valid(session, now as int),
{
    match verify_authenticated(session) {
        Ok(()) => verify_session_expiry(session, now),
        Err(()) => Err(()),
    }
}

/// The user that a stored session identifies at the instant `now`.
///
/// A session that does not exist is invalid. One that is not signed in or has
/// expired is not authorized. One that is valid but names no user is invalid.
pub open spec fn verified_user(session: Option<Session>, now: int) -> Result<
    Seq<char>,
    AuthenticatorError,
> {
    match session {
        None => Err(AuthenticatorError::InvalidSession),
        Some(s) => if !session_is_valid(&s, now) {
            Err(AuthenticatorError::NotAuthorized)
        } else {
            match s.user_id {
                Some(u) => Ok(u@),
                None => Err(AuthenticatorError::InvalidSession),
            }
        },
    }
}

/// An optional user as plain text.
pub open spec fn user_text(res: Result<UserId, AuthenticatorError>) -> Result<
    Seq<char>,
    AuthenticatorError,
> {
    match res {
        Ok(u) => Ok(u@),
        Err(e) => Err(e),
    }
}

/// Decides which user a stored session identifies at the instant `now`,
/// given in seconds since the Unix epoch.
pub fn verify(session: Option<Session>, now: i64) -> (res: Result<UserId, AuthenticatorError>)
    ensures
        user_text(res) == verified_user(session, now as int),
{
    let session = match session {
        Some(s) => s,
        None => {
            return Err(AuthenticatorError::InvalidSession);
        },
    };
    if verify_session(&session, now).is_err() {
        return Err(AuthenticatorError::NotAuthorized);
    }
    match session.user_id {
        Some(u) => Ok(UserId::new(u)),
        None => Err(AuthenticatorError::InvalidSession),
    }
}

/// The identifier of the user that an identity token names: its issuer and
/// its subject, with a colon between them.
pub fn compose_user_id(issuer: &str, subject: &str) -> (res: String)
    ensures
        res@ == issuer@ + ":"@ + subject@,
{
    let mut text = issuer.to_owned();
    text.append(":");
    text.append(subject);
    text
}

/// Why a request carries no usable session.
#[derive(Debug, Clone, Copy, PartialEq, Eq, Structural)]
pub enum AuthError {
    SessionIncompleteOrExpired,
    SessionInvalid,
    SessionMissing,
    SessionIdInvalid,
}

impl AuthError {
    /// The HTTP status that reports this error: 400 for an identifier that
    /// cannot be read, 401 for the others.
    pub fn status_code(&self) -> (res: u16)
        ensures
            res == if self == AuthError::SessionIdInvalid {
                400u16
            } else {
                401u16
            },
    {
        match self {
            AuthError::SessionIdInvalid => 400,
            _ => 401,
        }
    }

    /// The text that reports this error.
    pub fn message(&self) -> (res: &'static str)
        ensures
            res@ == match self {
                AuthError::SessionIncompleteOrExpired => "incomplete or expired session"@,
                AuthError::SessionInvalid => "invalid session"@,
                AuthError::SessionMissing => "session id cookie missing"@,
                AuthError::SessionIdInvalid => "invalid sessionid"@,
            },
    {
        match self {
            AuthError::SessionIncompleteOrExpired => "incomplete or expired session",
            AuthError::SessionInvalid => "invalid session",
            AuthError::SessionMissing => "session id cookie missing",
            AuthError::SessionIdInvalid => "invalid sessionid",
        }
    }

    /// The error to report for a session that identifies no user.
    pub fn from_authenticator(error: AuthenticatorError) -> (res: AuthError)
        ensures
            res == match error {
                AuthenticatorError::NotAuthorized => AuthError::SessionIncompleteOrExpired,
                AuthenticatorError::InvalidSession => AuthError::SessionInvalid,
            },
    {
        match error {
            AuthenticatorError::NotAuthorized => AuthError::SessionIncompleteOrExpired,
            AuthenticatorError::InvalidSession => AuthError::SessionInvalid,
        }
    }
}

/// The session that a request names in its `session_id` cookie.
pub open spec fn session_id_of(cookie: Option<&str>) -> Result<u128, AuthError> {
    match cookie {
        None => Err(AuthError::SessionMissing),
        Some(text) => match uuid_value(text@) {
            Some(id) => Ok(id),
            None => Err(AuthError::SessionIdInvalid),
        },
    }
}

/// Reads the session identifier from the value of the `session_id` cookie.
/// A request without the cookie has no session; a value that is not the text
/// of an identifier is invalid.
pub fn extract_session_id(cookie: Option<&str>) -> (res: Result<u128, AuthError>)
    ensures
        res == session_id_of(cookie),
{
    let raw_session_id = match cookie {
        Some(s) => s,
        None => {
            return Err(AuthError::SessionMissing);
        },
    };
    session_id_from_parsed(parse_uuid(raw_session_id))
}

/// Decides on the value of a parsed session identifier.
pub fn session_id_from_parsed(parsed: Option<u128>) -> (res: Result<u128, AuthError>)
    ensures
        res == match parsed {
            Some(id) => Ok::<u128, AuthError>(id),
            None => Err::<u128, AuthError>(AuthError::SessionIdInvalid),
        },
{
    match parsed {
        Some(id) => Ok(id),
        None => Err(AuthError::SessionIdInvalid),
    }
}

/// Number of random bytes in a nonce.
pub const NONCE_BYTES: usize = 64;

/// Seconds for which a new session is valid: seven days.
pub const SESSION_LIFETIME: i64 = 604_800;

/// The instant at which a session that begins at `now` expires. Both are
/// given in seconds since the Unix epoch.
pub fn session_expiry(now: i64) -> (res: i64)
    requires
        now + SESSION_LIFETIME <= i64::MAX,
    ensures
        res == now + SESSION_LIFETIME,
{
    now + SESSION_LIFETIME
}

/// The text of a sequence of bytes in base64 with the URL-safe alphabet and
/// padding.
pub uninterp spec fn base64_url(bytes: Seq<u8>) -> Seq<char>;

/// Draws bytes with `rand::fill`.
///
/// Trusted: as many bytes come back as were asked for. Nothing is said of
/// their values, which differ from call to call.
#[verifier::external_body]
pub(crate) fn random_bytes(len: usize) -> (res: Vec<u8>)
    ensures
        res@.len() == len,
{
    let mut bytes = vec![0u8; len];
    rand::fill(&mut bytes[..]);
    bytes
}

/// Encodes bytes with `base64::Engine::encode` of a
/// `base64::engine::GeneralPurpose` engine over the URL-safe alphabet, in its
/// default configuration.
///
/// Trusted: the text depends on the bytes alone.
#[verifier::external_body]
pub(crate) fn encode_base64_url(bytes: &[u8]) -> (res: String)
    ensures
        res@ == base64_url(bytes@),
{
    base64::engine::GeneralPurpose::new(&base64::alphabet::URL_SAFE, Default::default()).encode(bytes)
}

/// Makes a fresh nonce for a sign-in: 64 random bytes in URL-safe base64.
pub fn gen_nonce() -> (res: String)
    ensures
        exists|bytes: Seq<u8>| bytes.len() == NONCE_BYTES && res@ == #[trigger] base64_url(bytes),
{
    let state_bytes = random_bytes(NONCE_BYTES);
    encode_base64_url(state_bytes.as_slice())
}

} // verus!
