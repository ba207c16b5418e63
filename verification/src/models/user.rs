//! Who a visitor is: the credentials handed in at login, and the claims
//! that a session token carries afterwards.

use vstd::prelude::*;

verus! {

/// What a session token asserts: its subject, when it expires and when it
/// was issued, both in seconds since the Unix epoch.
#[derive(Debug, Clone, PartialEq, Eq)]
pub struct Claims {
    pub sub: String,
    pub exp: usize,
    pub iat: usize,
}

/// A username and a password, as a login request carries them.
#[derive(Debug, Clone)]
pub struct UserCredentials {
    pub username: String,
    pub password: String,
}

/// The mathematical value of [`Claims`].
pub struct ClaimsView {
    pub sub: Seq<char>,
    pub exp: nat,
    pub iat: nat,
}

/// The mathematical value of [`UserCredentials`].
pub struct CredentialsView {
    pub username: Seq<char>,
    pub password: Seq<char>,
}

impl ClaimsView {
    /// The invariant of claims that this site issued: they expire after
    /// they were issued.
    pub open spec fn well_formed(self) -> bool {
        self.exp > self.iat
    }

    /// Claims are good for as long as the clock is before their expiry.
    pub open spec fn valid_at(self, now: nat) -> bool {
        now < self.exp
    }
}

impl View for Claims {
    type V = ClaimsView;

    open spec fn view(&self) -> ClaimsView {
        ClaimsView { sub: self.sub@, exp: self.exp as nat, iat: self.iat as nat }
    }
}

impl DeepView for Claims {
    type V = ClaimsView;

    open spec fn deep_view(&self) -> ClaimsView {
        self@
    }
}

impl View for UserCredentials {
    type V = CredentialsView;

    open spec fn view(&self) -> CredentialsView {
        CredentialsView { username: self.username@, password: self.password@ }
    }
}

} // verus!
