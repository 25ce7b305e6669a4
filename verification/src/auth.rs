//! Passwords, session tokens and what a login attempt is answered.
use argon2::password_hash::phc::PasswordHash;
use argon2::password_hash::{PasswordHasher, PasswordVerifier};
use argon2::Argon2;
use vstd::prelude::*;

use crate::clock::MAX_INSTANT_MS;
use crate::random::{hex_of, is_lower_hex, random_hex};
use crate::text::{blank, is_blank, lowercase, to_lowercase, trim, trimmed};

verus! {

/// Random bytes behind a session token or a node credential.
pub const TOKEN_BYTES: usize = 32;

/// How long a session lasts, in hours.
pub const SESSION_HOURS: i64 = 12;

/// The password behind the decoy hash an unknown account is checked against.
pub const DECOY_PASSWORD: &'static str = "spektra-decoy";

/// The login form.
#[derive(Debug, Clone)]
pub struct Credentials {
    pub email: String,
    pub password: String,
}

/// Whether `password` matches the stored PHC string `hash` under Argon2.
pub uninterp spec fn password_matches(password: Seq<char>, hash: Seq<char>) -> bool;

/// The PHC prefix of a hash made by Argon2's default, Argon2id.
pub open spec fn argon2id_prefix() -> Seq<char> {
    "$argon2id$"@
}

/// `Argon2::default().hash_password(..)`, written out as a PHC string. The
/// salt is drawn at random, so which string comes out is left unsaid; what
/// holds of every outcome is that it is an Argon2id PHC string and that the
/// password verifies against it. A refusal comes back as argon2's message.
#[verifier::external_body]
fn argon2_hash(password: &str) -> (hashed: Result<String, String>)
    ensures
        hashed matches Ok(hash) ==> hash@.len() >= 10 && hash@.take(10) == argon2id_prefix()
            && password_matches(password@, hash@),
{
    let hashed: Result<PasswordHash, _> = Argon2::default().hash_password(password.as_bytes());
    match hashed {
        Ok(hash) => Ok(hash.to_string()),
        Err(err) => Err(err.to_string()),
    }
}

/// `PasswordHash::new` then `Argon2::default().verify_password(..)`: false
/// for a string that does not parse as a PHC hash.
#[verifier::external_body]
fn argon2_verify(password: &str, hash: &str) -> (matched: bool)
    ensures
        matched == password_matches(password@, hash@),
{
    match PasswordHash::new(hash) {
        Ok(parsed) => Argon2::default().verify_password(password.as_bytes(), &parsed).is_ok(),
        Err(_) => false,
    }
}

/// Hash a password for storage. It fails only where argon2 does: the salt is
/// drawn from the operating system's random source and the working memory is
/// allocated, and either may be refused.
pub fn hash_password(password: &str) -> (hashed: Result<String, String>)
    ensures
        hashed matches Ok(hash) ==> hash@.len() >= 10 && hash@.take(10) == argon2id_prefix()
            && password_matches(password@, hash@),
{
    argon2_hash(password)
}

/// Whether a password matches a stored PHC string.
pub fn verify(password: &str, hash: &str) -> (matched: bool)
    ensures
        matched == password_matches(password@, hash@),
{
    argon2_verify(password, hash)
}

/// A real hash of a password no user would pick, to spend the same time on an
/// unknown account as on a known one: an Argon2id PHC string that
/// [`DECOY_PASSWORD`] verifies against, or the empty string where hashing
/// failed (argon2 draws its salt from the operating system).
pub fn decoy_hash() -> (hash: String)
    ensures
        hash@.len() == 0 || (hash@.len() >= 10 && hash@.take(10) == argon2id_prefix()
            && password_matches(DECOY_PASSWORD@, hash@)),
{
    match hash_password(DECOY_PASSWORD) {
        Ok(hash) => hash,
        Err(_) => String::new(),
    }
}

/// A fresh session token: [`TOKEN_BYTES`] random bytes in lowercase
/// hexadecimal; `None` where the operating system's random source failed.
pub fn generate_token() -> (token: Option<String>)
    ensures
        token matches Some(t) ==> (exists|bytes: Seq<u8>| bytes.len() == TOKEN_BYTES && t@ == hex_of(bytes))
            && t@.len() == 2 * TOKEN_BYTES && is_lower_hex(t@),
{
    random_hex(TOKEN_BYTES)
}

/// An e-mail address as accounts are looked up by: trimmed and lowercased.
pub fn normalize_email(email: &str) -> (normal: String)
    ensures
        normal@ == lowercase(trimmed(email@)),
{
    to_lowercase(trim(email))
}

/// What the store holds for the account a login names.
#[derive(Debug, Clone)]
pub struct Account {
    pub user_id: i64,
    pub password_hash: String,
    pub deactivated: bool,
}

/// Why a login was refused.
#[derive(Debug, Clone, Copy, PartialEq, Eq, Structural)]
pub enum LoginRefusal {
    /// No such account, or the wrong password: the two are not told apart.
    WrongCredentials,
    /// The password is right but the account is switched off.
    Deactivated,
}

/// What a login attempt is answered: the account's user when the password
/// matches its hash and the account is active; the same refusal for an
/// unknown account as for a wrong password; and a refusal of its own for a
/// deactivated account whose password matched. An unknown account is checked
/// against a decoy hash first, so that it takes as long as a known one.
pub fn check_login(password: &str, account: Option<&Account>) -> (outcome: Result<i64, LoginRefusal>)
    ensures
        match account {
            None => outcome == Err::<i64, LoginRefusal>(LoginRefusal::WrongCredentials),
            Some(a) => if !password_matches(password@, a.password_hash@) {
                outcome == Err::<i64, LoginRefusal>(LoginRefusal::WrongCredentials)
            } else if a.deactivated {
                outcome == Err::<i64, LoginRefusal>(LoginRefusal::Deactivated)
            } else {
                outcome == Ok::<i64, LoginRefusal>(a.user_id)
            },
        },
{
    match account {
        None => {
            let decoy = decoy_hash();
            let _spent = verify(password, decoy.as_str());
            Err(LoginRefusal::WrongCredentials)
        },
        Some(a) => {
            if !verify(password, a.password_hash.as_str()) {
                return Err(LoginRefusal::WrongCredentials);
            }
            if a.deactivated {
                return Err(LoginRefusal::Deactivated);
            }
            Ok(a.user_id)
        },
    }
}

/// When a session opened at `now_ms` (Unix milliseconds) expires:
/// [`SESSION_HOURS`] later, or at once where that passes the last
/// representable instant.
pub fn session_expires_at(now_ms: i64) -> (expires: i64)
    requires
        now_ms <= MAX_INSTANT_MS,
    ensures
        now_ms + SESSION_HOURS * 3_600_000 <= MAX_INSTANT_MS ==> expires == now_ms + SESSION_HOURS
            * 3_600_000,
        now_ms + SESSION_HOURS * 3_600_000 > MAX_INSTANT_MS ==> expires == now_ms,
{
    let later = now_ms + SESSION_HOURS * 3_600_000;
    if later <= MAX_INSTANT_MS {
        later
    } else {
        now_ms
    }
}

/// The address the first administrator is created under, when both the
/// address and the password were configured and neither is empty.
pub fn bootstrap_email(email: Option<&str>, password: Option<&str>) -> (address: Option<String>)
    ensures
        match (email, password) {
            (Some(e), Some(p)) => if blank(e@) || p@.len() == 0 {
                address is None
            } else {
                address matches Some(a) && a@ == lowercase(trimmed(e@))
            },
            _ => address is None,
        },
{
    match (email, password) {
        (Some(e), Some(p)) => if is_blank(e) || p.is_empty() {
            None
        } else {
            Some(normalize_email(e))
        },
        _ => None,
    }
}

/// What looking a session token up found.
#[derive(Debug, Clone, Copy, PartialEq, Eq, Structural)]
pub enum SessionLookup {
    /// A session, with when it expires (Unix seconds) and whether its user
    /// is deactivated.
    Found { expires_at: i64, deactivated: bool },
    /// No session has this token.
    Missing,
    /// The store could not be asked.
    Unavailable,
}

/// Whether an open socket's session still holds at `now`: an active user's
/// unexpired session; a missing session does not; and when the store cannot
/// be asked the socket is given the benefit of the doubt.
pub fn session_holds(lookup: SessionLookup, now: i64) -> (holds: bool)
    ensures
        holds == match lookup {
            SessionLookup::Found { expires_at, deactivated } => !deactivated && expires_at >= now,
            SessionLookup::Missing => false,
            SessionLookup::Unavailable => true,
        },
{
    match lookup {
        SessionLookup::Found { expires_at, deactivated } => !deactivated && expires_at >= now,
        SessionLookup::Missing => false,
        SessionLookup::Unavailable => true,
    }
}

/// Why a request carried no usable session token.
#[derive(Debug, Clone, Copy, PartialEq, Eq, Structural)]
pub enum TokenRefusal {
    /// The authorization header is not text.
    InvalidHeader,
    /// Neither a session cookie nor a bearer header holds a token.
    Missing,
}

/// The token a cookie or an authorization header carries, trimmed.
pub open spec fn bearer_part(header: Seq<char>) -> Option<Seq<char>> {
    if header.len() >= 7 && header.take(7) == "Bearer "@ && trimmed(header.skip(7)).len() > 0 {
        Some(trimmed(header.skip(7)))
    } else {
        None
    }
}

/// The session token of a request: the session cookie's value, trimmed, when
/// it is not empty; else the bearer credential of the authorization header
/// (`None` for a header that is absent, `Some(None)` for one that is not
/// text).
pub fn session_token(cookie: Option<&str>, authorization: Option<Option<&str>>) -> (token: Result<
    String,
    TokenRefusal,
>)
    ensures
        ({
            let from_cookie = match cookie {
                Some(c) => if trimmed(c@).len() > 0 {
                    Some(trimmed(c@))
                } else {
                    None
                },
                None => None,
            };
            match from_cookie {
                Some(t) => token matches Ok(found) && found@ == t,
                None => match authorization {
                    None => token == Err::<String, TokenRefusal>(TokenRefusal::Missing),
                    Some(None) => token == Err::<String, TokenRefusal>(TokenRefusal::InvalidHeader),
                    Some(Some(header)) => match bearer_part(header@) {
                        Some(t) => token matches Ok(found) && found@ == t,
                        None => token == Err::<String, TokenRefusal>(TokenRefusal::Missing),
                    },
                },
            }
        }),
{
    match cookie {
        Some(c) => {
            let value = trim(c);
            if value.unicode_len() > 0 {
                return Ok(value.to_string());
            }
        },
        None => {},
    }
    match authorization {
        None => Err(TokenRefusal::Missing),
        Some(None) => Err(TokenRefusal::InvalidHeader),
        Some(Some(header)) => {
            proof {
                reveal_strlit("Bearer ");
            }
            let length = header.unicode_len();
            if length < 7 || !crate::text::same_text(header.substring_char(0, 7), "Bearer ") {
                return Err(TokenRefusal::Missing);
            }
            let rest = header.substring_char(7, length);
            assert(rest@ =~= header@.skip(7));
            let value = trim(rest);
            if value.unicode_len() == 0 {
                return Err(TokenRefusal::Missing);
            }
            Ok(value.to_string())
        },
    }
}

} // verus!
