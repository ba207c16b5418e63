//! Who is asking: the one account, the login that opens a session, and the
//! identity that a request's cookie proves.

use crate::models::user::{Claims, ClaimsView, CredentialsView, UserCredentials};
use crate::services::cookie::{
    auth_cookie, auth_cookie_value, clearing_cookie, clearing_cookie_text, cookie_prefix,
    lemma_auth_cookie_leads,
};
use crate::services::token::{
    framed, is_token_text, issue, session_claims, session_start, session_start_at, session_token,
    token_claims, unix_seconds, verified_claims, verify, SESSION_LIFETIME,
};
use crate::text::same_text;
use vstd::prelude::*;

verus! {

/// Why a login was refused.
#[derive(Debug, Clone, Copy, PartialEq, Eq)]
pub enum AuthError {
    /// The credentials are not those of the account.
    InvalidCredentials,
}

/// The authority on sessions. It holds the secret that tokens are signed
/// with, which is never empty.
pub struct AuthService {
    secret: Vec<u8>,
}

/// The name of the one account.
pub open spec fn account_username() -> Seq<char> {
    "richard"@
}

/// The password of the one account.
pub open spec fn account_password() -> Seq<char> {
    "secret"@
}

/// Whether the credentials are exactly those of the one account.
pub open spec fn is_account(credentials: CredentialsView) -> bool {
    credentials.username == account_username() && credentials.password == account_password()
}

/// The token for a session of `username` that begins when the clock shows
/// `seconds`, if this machine can add a session's lifetime to that time.
pub open spec fn jwt_at(secret: Seq<u8>, username: Seq<char>, seconds: u64) -> Option<Seq<char>> {
    match session_start(seconds) {
        Some(now) => Some(session_token(secret, username, now as nat)),
        None => None,
    }
}

/// The identity that a request proves at the time `now` by its cookie
/// header: the claims of the token in the session cookie. A request
/// without the header, without the cookie, or with a token that does not
/// pass has none.
pub open spec fn identity_of(secret: Seq<u8>, header: Option<Seq<char>>, now: nat) -> Option<
    ClaimsView,
> {
    match header {
        Some(text) => match auth_cookie(text) {
            Some(token) => verified_claims(secret, token, now),
            None => None,
        },
        None => None,
    }
}

/// A request that sends back a token, alone or before other cookies,
/// proves at any time what the token proves then.
pub proof fn lemma_identity_of_sent_token(token: Seq<char>, tail: Seq<char>)
    requires
        is_token_text(token),
        tail.len() > 0 ==> tail[0] == ';',
    ensures
        forall|secret: Seq<u8>, now: nat| #[trigger]
            identity_of(secret, Some(cookie_prefix() + token + tail), now) == verified_claims(
                secret,
                token,
                now,
            ),
{
    lemma_auth_cookie_leads(token, tail);
}

impl AuthService {
    #[verifier::type_invariant]
    spec fn has_secret(self) -> bool {
        self.secret@.len() > 0
    }

    /// The secret that this service signs and checks tokens with.
    pub closed spec fn secret(&self) -> Seq<u8> {
        self.secret@
    }

    /// A service that signs with `secret`.
    pub fn new(secret: Vec<u8>) -> (service: Self)
        requires
            secret@.len() > 0,
        ensures
            service.secret() == secret@,
    {
        Self { secret }
    }

    /// Whether the credentials are those of the one account. Both fields
    /// are compared in full, whatever the first comparison gave.
    pub fn validate_credentials(&self, credentials: &UserCredentials) -> (valid: bool)
        ensures
            valid == is_account(credentials@),
    {
        let username = same_text(credentials.username.as_str(), "richard");
        let password = same_text(credentials.password.as_str(), "secret");
        username && password
    }

    /// Opens a session at the time `now` if the credentials are those of
    /// the account: the token is the one that [`issue`] gives the username.
    /// Any other credentials are refused, and no token is made.
    pub fn login(&self, credentials: &UserCredentials, now: usize) -> (outcome: Result<
        String,
        AuthError,
    >)
        requires
            is_account(credentials@) ==> now + SESSION_LIFETIME <= usize::MAX,
        ensures
            outcome is Ok <==> is_account(credentials@),
            outcome matches Ok(token) ==> {
                &&& token@ == session_token(self.secret(), account_username(), now as nat)
                &&& is_token_text(token@)
                &&& forall|later: nat|
                    #[trigger] verified_claims(self.secret(), token@, later) == if later < now
                        + SESSION_LIFETIME {
                        Some(session_claims(account_username(), now as nat))
                    } else {
                        None
                    }
            },
            outcome matches Err(error) ==> error == AuthError::InvalidCredentials,
    {
        proof {
            use_type_invariant(self);
        }
        if self.validate_credentials(credentials) {
            Ok(issue(self.secret.as_slice(), credentials.username.as_str(), now))
        } else {
            Err(AuthError::InvalidCredentials)
        }
    }

    /// The identity that a request proves at the time `now` by its cookie
    /// header, if any. Nothing here fails: a request that proves none is
    /// anonymous.
    pub fn identity_from_cookie_header(&self, header: Option<&str>, now: usize) -> (identity:
        Option<Claims>)
        ensures
            identity.deep_view() == identity_of(self.secret(), header.deep_view(), now as nat),
    {
        match header {
            Some(text) => match auth_cookie_value(text) {
                Some(token) => match verify(self.secret.as_slice(), token, now) {
                    Ok(claims) => Some(claims),
                    Err(_) => None,
                },
                None => None,
            },
            None => None,
        }
    }

    /// Ends a session: the cookie that tells the browser to forget the
    /// token. Nothing is kept here that would have to be taken back; the
    /// token itself runs out on its own.
    pub fn logout(&self) -> (cookie: String)
        ensures
            cookie@ == clearing_cookie_text(),
    {
        clearing_cookie()
    }

    /// A token for a session of `username` that begins now, by the system
    /// clock: what [`AuthService::create_jwt_at`] gives for the time that
    /// the clock shows, whatever it shows. Nothing is returned when the
    /// clock stands before the epoch, or shows a time to which this machine
    /// cannot add a session's lifetime.
    pub fn create_jwt(&self, username: &str) -> (token: Option<String>)
        ensures
            exists|seconds: u64| token.deep_view() == #[trigger] jwt_at(
                self.secret(),
                username@,
                seconds,
            ),
            token matches Some(text) ==> is_token_text(text@),
    {
        match unix_seconds() {
            Some(seconds) => self.create_jwt_at(username, seconds),
            None => {
                assert(jwt_at(self.secret(), username@, u64::MAX) is None);
                None
            },
        }
    }

    /// The claims of `token`, if it passes now, by the system clock: what
    /// [`AuthService::validate_jwt_at`] gives for the time that the clock
    /// shows, whatever it shows. Nothing is returned when the clock stands
    /// before the epoch. A token that passes is [`framed`].
    pub fn validate_jwt(&self, token: &str) -> (claims: Option<Claims>)
        ensures
            exists|seconds: u64|
                claims.deep_view() == #[trigger] verified_claims(
                    self.secret(),
                    token@,
                    seconds as nat,
                ),
            token_claims(self.secret(), token@) is None ==> claims is None,
            claims is Some ==> framed(self.secret(), token@),
    {
        match unix_seconds() {
            Some(seconds) => self.validate_jwt_at(token, seconds),
            None => {
                assert(verified_claims(self.secret(), token@, u64::MAX as nat) is None);
                None
            },
        }
    }

    /// A token for a session of `username` that begins when the clock shows
    /// `seconds`: the one that [`issue`] makes for that time, and nothing if
    /// this machine cannot add a session's lifetime to it.
    pub fn create_jwt_at(&self, username: &str, seconds: u64) -> (token: Option<String>)
        ensures
            token.deep_view() == jwt_at(self.secret(), username@, seconds),
            token matches Some(text) ==> {
                &&& is_token_text(text@)
                &&& forall|later: nat|
                    #[trigger] verified_claims(self.secret(), text@, later) == if later < seconds
                        + SESSION_LIFETIME {
                        Some(session_claims(username@, seconds as nat))
                    } else {
                        None
                    }
            },
    {
        proof {
            use_type_invariant(self);
        }
        match session_start_at(seconds) {
            Some(now) => Some(issue(self.secret.as_slice(), username, now)),
            None => None,
        }
    }

    /// The claims that `token` proves when the clock shows `seconds`: those
    /// that it was signed with under this service's secret, if it has not
    /// expired by then.
    pub fn validate_jwt_at(&self, token: &str, seconds: u64) -> (claims: Option<Claims>)
        ensures
            claims.deep_view() == verified_claims(self.secret(), token@, seconds as nat),
            claims is Some ==> framed(self.secret(), token@),
    {
        if seconds > usize::MAX as u64 {
            return None;
        }
        match verify(self.secret.as_slice(), token, seconds as usize) {
            Ok(found) => Some(found),
            Err(_) => None,
        }
    }
}

} // verus!
