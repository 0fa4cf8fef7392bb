//! Login: where the login flow sends the browser back to, and how a token
//! from the login flow becomes the token used for the Web API.
use vstd::prelude::*;

use crate::num::{nat_digits, nat_to_string};
use crate::text::string_of;

verus! {

/// The client id used to log in to Spotify for playback.
pub const SPOTIFY_CLIENT_ID: &'static str = "65b708073fc0480ea92a077233ca87bd";

/// The client id used for the Web API.
pub const NCSPOT_CLIENT_ID: &'static str = "d420a117a32841c2b3474932e49fb54b";

/// The address the login flow returns to, on this machine at `auth_port`.
pub fn get_client_redirect_uri(auth_port: u16) -> (r: String)
    ensures
        r@ == "http://127.0.0.1:"@ + nat_digits(auth_port as nat) + "/login"@,
{
    let mut s = string_of("http://127.0.0.1:");
    let port = nat_to_string(auth_port as u64);
    s.append(port.as_str());
    s.append("/login");
    s
}

/// A token as the login flow hands it over. `expires_at_ms` is read on the
/// same monotonic clock as the `now_ms` that it is compared with. A refresh
/// token that the service left out is empty.
#[derive(Clone, Debug)]
pub struct OAuthToken {
    pub access_token: String,
    pub refresh_token: String,
    pub expires_at_ms: u64,
    pub token_type: String,
    pub scopes: Vec<String>,
}

/// A token for the Web API: how long it was valid for when it was issued,
/// when it expires (milliseconds since the Unix epoch), and the refresh
/// token, if there is a usable one.
#[derive(Clone, Debug)]
pub struct Token {
    pub access_token: String,
    pub expires_in_ms: i64,
    pub scopes: Vec<String>,
    pub expires_at_ms: Option<i64>,
    pub refresh_token: Option<String>,
}

/// The time left before `expires_at_ms` at `now_ms` (none once it has
/// passed), as a signed duration: a time left beyond what such a duration
/// holds counts as none.
pub open spec fn time_left(expires_at_ms: u64, now_ms: u64) -> int {
    let left = if expires_at_ms > now_ms {
        expires_at_ms - now_ms
    } else {
        0
    };
    if left <= i64::MAX {
        left
    } else {
        0
    }
}

/// The token for the Web API made from a token of the login flow, at
/// monotonic time `now_ms` and wall-clock time `utc_now_ms`. The service may
/// leave out the refresh token when it refreshes one; the previous refresh
/// token, `fallback_refresh_token`, is then kept.
pub fn map_token(
    token: OAuthToken,
    fallback_refresh_token: Option<&str>,
    now_ms: u64,
    utc_now_ms: i64,
) -> (r: Token)
    requires
        utc_now_ms + time_left(token.expires_at_ms, now_ms) <= i64::MAX,
    ensures
        r.access_token == token.access_token,
        r.expires_in_ms == time_left(token.expires_at_ms, now_ms),
        r.scopes@.len() == 0,
        r.expires_at_ms == Some((utc_now_ms + time_left(token.expires_at_ms, now_ms)) as i64),
        token.refresh_token@.len() > 0 ==> r.refresh_token == Some(token.refresh_token),
        token.refresh_token@.len() == 0 ==> match fallback_refresh_token {
            Some(f) => r.refresh_token matches Some(t) && t@ == f@,
            None => r.refresh_token is None,
        },
        (fallback_refresh_token matches Some(f) ==> f@.len() > 0) ==> (r.refresh_token matches Some(
            t,
        ) ==> t@.len() > 0),
{
    let left: u64 = if token.expires_at_ms > now_ms {
        token.expires_at_ms - now_ms
    } else {
        0
    };
    let expires_in: i64 = if left <= 0x7fff_ffff_ffff_ffff {
        left as i64
    } else {
        0
    };
    let OAuthToken { access_token, refresh_token, expires_at_ms: _, token_type: _, scopes: _ } =
        token;
    let refresh = if refresh_token.as_str().unicode_len() == 0 {
        match fallback_refresh_token {
            Some(f) => Some(string_of(f)),
            None => None,
        }
    } else {
        Some(refresh_token)
    };
    Token {
        access_token,
        expires_in_ms: expires_in,
        scopes: Vec::new(),
        expires_at_ms: Some(utc_now_ms + expires_in),
        refresh_token: refresh,
    }
}

/// The refresh token of `t`, if it has one that is not empty: an empty one
/// cannot be used.
pub fn usable_refresh_token(t: &Token) -> (r: Option<String>)
    ensures
        match t.refresh_token {
            Some(s) => if s@.len() > 0 {
                r == Some(s)
            } else {
                r is None
            },
            None => r is None,
        },
{
    match &t.refresh_token {
        Some(s) => {
            if s.as_str().unicode_len() > 0 {
                Some(s.clone())
            } else {
                None
            }
        },
        None => None,
    }
}

/// How to get a token for the Web API.
#[derive(Clone, Debug)]
pub enum TokenPlan {
    /// The saved token is still valid.
    UseCached,
    /// The saved token expired: refresh it with this refresh token (and log
    /// in again if that fails).
    Refresh(String),
    /// Log in again.
    CreateNew,
}

/// What to do with the saved token, if there is one, given whether it has
/// expired: use it while it is valid, else refresh it when it has a usable
/// refresh token, else log in again.
pub fn token_plan(cached: Option<&Token>, expired: bool) -> (r: TokenPlan)
    ensures
        match cached {
            None => r is CreateNew,
            Some(t) => if !expired {
                r is UseCached
            } else {
                match t.refresh_token {
                    Some(s) if s@.len() > 0 => r matches TokenPlan::Refresh(x) && x == s,
                    _ => r is CreateNew,
                }
            },
        },
{
    match cached {
        None => TokenPlan::CreateNew,
        Some(t) => {
            if !expired {
                return TokenPlan::UseCached;
            }
            match usable_refresh_token(t) {
                Some(s) => TokenPlan::Refresh(s),
                None => TokenPlan::CreateNew,
            }
        },
    }
}

} // verus!
