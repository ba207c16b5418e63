//! The session token: a signed, self-contained statement of who a visitor
//! is and until when. Signing and checking are done by `jsonwebtoken`; the
//! session's lifetime and the clock rule are decided here.

use crate::models::user::{Claims, ClaimsView};
use vstd::prelude::*;

verus! {

/// How long a session lasts, in seconds.
pub const SESSION_LIFETIME: usize = 3600;

/// The token that `jsonwebtoken::encode` makes, with its default header
/// and the key `secret`, of the claims `sub`, `exp` and `iat`.
pub uninterp spec fn signed_token(secret: Seq<u8>, sub: Seq<char>, exp: nat, iat: nat) -> Seq<char>;

/// The claims `sub`, `exp` and `iat`, in this order, that `jsonwebtoken::decode`
/// reads from `token` under the key `secret` when it is told to accept
/// HS256 only and to leave the clock alone; nothing where it rejects the
/// token or the token carries no such claims.
pub uninterp spec fn token_claims(secret: Seq<u8>, token: Seq<char>) -> Option<
    (Seq<char>, nat, nat),
>;

/// The signature that `jsonwebtoken::crypto::sign` makes of `message`
/// with HS256 under the key `secret`: the text that `jsonwebtoken::decode`
/// compares the last part of a token with.
pub uninterp spec fn hs256_signature(secret: Seq<u8>, message: Seq<char>) -> Seq<char>;

/// The characters that a token is made of: those of unpadded URL-safe
/// base64, and the dot between its parts.
pub open spec fn is_token_char(c: char) -> bool {
    ||| 'A' <= c <= 'Z'
    ||| 'a' <= c <= 'z'
    ||| '0' <= c <= '9'
    ||| c == '-'
    ||| c == '_'
    ||| c == '.'
}

/// Whether `text` consists of token characters only.
pub open spec fn is_token_text(text: Seq<char>) -> bool {
    forall|i: int| 0 <= i < text.len() ==> is_token_char(#[trigger] text[i])
}

/// How many dots `text` holds.
pub open spec fn dot_count(text: Seq<char>) -> nat
    decreases text.len(),
{
    if text.len() == 0 {
        0
    } else if text.last() == '.' {
        dot_count(text.drop_last()) + 1
    } else {
        dot_count(text.drop_last())
    }
}

/// Where the last dot of `text` stands; -1 if it has none.
pub open spec fn last_dot(text: Seq<char>) -> int
    decreases text.len(),
{
    if text.len() == 0 {
        -1
    } else if text.last() == '.' {
        text.len() - 1
    } else {
        last_dot(text.drop_last())
    }
}

/// What a token's signature covers: all that stands before its last dot.
pub open spec fn signed_part(token: Seq<char>) -> Seq<char> {
    token.take(last_dot(token))
}

/// A token's signature: all that stands behind its last dot.
pub open spec fn signature_part(token: Seq<char>) -> Seq<char> {
    token.skip(last_dot(token) + 1)
}

/// What every token that passes under `secret` looks like: three parts
/// between two dots, the last of them the signature of the first two.
pub open spec fn framed(secret: Seq<u8>, token: Seq<char>) -> bool {
    &&& dot_count(token) == 2
    &&& signature_part(token) == hs256_signature(secret, signed_part(token))
}

/// The token that a session of `subject` begun at `now` is given.
pub open spec fn session_token(secret: Seq<u8>, subject: Seq<char>, now: nat) -> Seq<char> {
    signed_token(secret, subject, now + SESSION_LIFETIME as nat, now)
}

/// The claims that a session of `subject` begun at `now` carries.
pub open spec fn session_claims(subject: Seq<char>, now: nat) -> ClaimsView {
    ClaimsView { sub: subject, exp: now + SESSION_LIFETIME as nat, iat: now }
}

/// What a session of `subject` begun at `now` proves at the time `later`:
/// its claims until its lifetime has passed, and nothing from then on.
pub open spec fn session_at(subject: Seq<char>, now: nat, later: nat) -> Option<ClaimsView> {
    if later < now + SESSION_LIFETIME {
        Some(session_claims(subject, now))
    } else {
        None
    }
}

/// The claims that `token` proves at the time `now`: those that it was
/// signed with under `secret`, if they fit this machine's integers and
/// have not expired.
pub open spec fn verified_claims(secret: Seq<u8>, token: Seq<char>, now: nat) -> Option<
    ClaimsView,
> {
    match token_claims(secret, token) {
        Some((sub, exp, iat)) => {
            let claims = ClaimsView { sub, exp, iat };
            if exp <= usize::MAX && iat <= usize::MAX && claims.valid_at(now) {
                Some(claims)
            } else {
                None
            }
        },
        None => None,
    }
}

/// The one failure of [`verify`]: the token is forged, malformed or
/// expired, and the caller is not told which.
#[derive(Debug, Clone, Copy, PartialEq, Eq)]
pub struct InvalidToken;

/// Signs the claims with `jsonwebtoken::encode`, under the default header
/// (HS256) and a key made of `secret`.
///
/// Trusted: the call succeeds for every secret and all claims of this
/// shape; it returns the token named [`signed_token`]; that token is made of
/// base64 characters and dots; and `jsonwebtoken::decode` reads the same
/// claims back from it under the same secret.
#[verifier::external_body]
fn encode_hs256(secret: &[u8], sub: &str, exp: u64, iat: u64) -> (token: Option<String>)
    ensures
        token is Some,
        token.unwrap()@ == signed_token(secret@, sub@, exp as nat, iat as nat),
        is_token_text(token.unwrap()@),
        token_claims(secret@, token.unwrap()@) == Some((sub@, exp as nat, iat as nat)),
{
    let mut claims = serde_json::Map::new();
    claims.insert("sub".to_string(), serde_json::Value::from(sub));
    claims.insert("exp".to_string(), serde_json::Value::from(exp));
    claims.insert("iat".to_string(), serde_json::Value::from(iat));
    let key = jsonwebtoken::EncodingKey::from_secret(secret);
    jsonwebtoken::encode(&jsonwebtoken::Header::default(), &claims, &key).ok()
}

/// Checks `token` with `jsonwebtoken::decode` under a key made of
/// `secret`, accepting HS256 only and with the expiry check switched off,
/// and hands out the claims `sub`, `exp` and `iat`.
///
/// Trusted: the result is the one named [`token_claims`]; it depends on the
/// secret and the token alone, since the clock is not consulted. A token
/// that is accepted has exactly two dots, and its last part is the
/// signature that `jsonwebtoken` computes of the rest: `decode` signs the
/// first two parts again and compares.
#[verifier::external_body]
fn decode_hs256(secret: &[u8], token: &str) -> (claims: Option<(String, u64, u64)>)
    ensures
        match claims {
            Some((sub, exp, iat)) => token_claims(secret@, token@) == Some(
                (sub@, exp as nat, iat as nat),
            ),
            None => token_claims(secret@, token@) is None,
        },
        claims is Some ==> dot_count(token@) == 2,
        claims is Some ==> signature_part(token@) == hs256_signature(secret@, signed_part(token@)),
{
    let mut validation = jsonwebtoken::Validation::new(jsonwebtoken::Algorithm::HS256);
    validation.validate_exp = false;
    let key = jsonwebtoken::DecodingKey::from_secret(secret);
    let data = jsonwebtoken::decode::<serde_json::Value>(token, &key, &validation).ok()?;
    let sub = data.claims.get("sub")?.as_str()?.to_string();
    let exp = data.claims.get("exp")?.as_u64()?;
    let iat = data.claims.get("iat")?.as_u64()?;
    Some((sub, exp, iat))
}

#[verifier::external_type_specification]
#[verifier::external_body]
pub struct ExSystemTime(std::time::SystemTime);

#[verifier::external_type_specification]
#[verifier::external_body]
pub struct ExSystemTimeError(std::time::SystemTimeError);

/// `SystemTime::now`: the time by the system clock. Nothing is promised of
/// the value.
pub assume_specification[ std::time::SystemTime::now ]() -> std::time::SystemTime;

/// `Duration::as_secs`: the whole seconds of a duration. Nothing is
/// promised of the value.
pub assume_specification[ core::time::Duration::as_secs ](duration: &core::time::Duration) -> u64;

/// How long after the Unix epoch `time` lies, by `SystemTime::duration_since`;
/// an error if it lies before. Nothing is promised of either.
#[verifier::external_body]
fn since_epoch(time: &std::time::SystemTime) -> Result<
    core::time::Duration,
    std::time::SystemTimeError,
> {
    time.duration_since(std::time::UNIX_EPOCH)
}

/// What the system clock shows, in seconds since the Unix epoch; nothing
/// if it stands before the epoch.
pub(crate) fn unix_seconds() -> Option<u64> {
    let time = std::time::SystemTime::now();
    match since_epoch(&time) {
        Ok(duration) => Some(duration.as_secs()),
        Err(_) => None,
    }
}

/// The time by the system clock, if a session that begins now can be given
/// an expiry on this machine: [`session_start`] of what the clock shows,
/// whatever it shows. A clock that stands before the epoch gives nothing,
/// as one does that shows a time too late for a session.
pub fn clock() -> (now: Option<usize>)
    ensures
        exists|seconds: u64| now == #[trigger] session_start(seconds),
        now matches Some(t) ==> t + SESSION_LIFETIME <= usize::MAX,
{
    match unix_seconds() {
        Some(seconds) => session_start_at(seconds),
        None => {
            assert(session_start(u64::MAX) is None);
            None
        },
    }
}

/// The time at which a session begins when the clock shows `seconds`: that
/// time, if this machine can add a session's lifetime to it, and nothing if
/// it cannot.
pub open spec fn session_start(seconds: u64) -> Option<usize> {
    if seconds + SESSION_LIFETIME <= usize::MAX {
        Some(seconds as usize)
    } else {
        None
    }
}

/// The time at which a session begins when the clock shows `seconds`.
pub fn session_start_at(seconds: u64) -> (now: Option<usize>)
    ensures
        now == session_start(seconds),
{
    if seconds <= (usize::MAX - SESSION_LIFETIME) as u64 {
        Some(seconds as usize)
    } else {
        None
    }
}

/// A token for a session of `subject` that begins at `now` and lasts
/// [`SESSION_LIFETIME`] seconds. Whenever it is checked later under the same
/// secret, it proves [`session_claims`] until the session's last second has
/// passed, and nothing from then on.
pub fn issue(secret: &[u8], subject: &str, now: usize) -> (token: String)
    requires
        secret@.len() > 0,
        now + SESSION_LIFETIME <= usize::MAX,
    ensures
        token@ == session_token(secret@, subject@, now as nat),
        is_token_text(token@),
        session_claims(subject@, now as nat).well_formed(),
        forall|later: nat|
            #[trigger] verified_claims(secret@, token@, later) == if later < now
                + SESSION_LIFETIME {
                Some(session_claims(subject@, now as nat))
            } else {
                None
            },
{
    let expires: usize = now + SESSION_LIFETIME;
    encode_hs256(secret, subject, expires as u64, now as u64).unwrap()
}

/// The claims of `token`, if it was signed with `secret` and `now` is
/// before its expiry. A token that fails for any reason gives
/// [`InvalidToken`]. A token that passes is [`framed`]: it ends in the one
/// signature that belongs to what stands before it.
pub fn verify(secret: &[u8], token: &str, now: usize) -> (outcome: Result<Claims, InvalidToken>)
    ensures
        match outcome {
            Ok(claims) => verified_claims(secret@, token@, now as nat) == Some(claims@),
            Err(_) => verified_claims(secret@, token@, now as nat) is None,
        },
        outcome is Ok ==> framed(secret@, token@),
{
    match decode_hs256(secret, token) {
        Some((sub, exp, iat)) => {
            if exp <= usize::MAX as u64 && iat <= usize::MAX as u64 && (now as u64) < exp {
                Ok(Claims { sub, exp: exp as usize, iat: iat as usize })
            } else {
                Err(InvalidToken)
            }
        },
        None => Err(InvalidToken),
    }
}

/// The last dot stands inside the text, and no dot stands behind it.
proof fn lemma_last_dot(text: Seq<char>)
    ensures
        -1 <= last_dot(text) < text.len(),
        last_dot(text) >= 0 ==> text[last_dot(text)] == '.',
        forall|k: int| last_dot(text) < k < text.len() ==> #[trigger] text[k] != '.',
        dot_count(text) > 0 ==> last_dot(text) >= 0,
    decreases text.len(),
{
    if text.len() > 0 && text.last() != '.' {
        let front = text.drop_last();
        lemma_last_dot(front);
        assert forall|k: int| last_dot(text) < k < text.len() implies #[trigger] text[k]
            != '.' by {
            if k < front.len() {
                assert(front[k] == text[k]);
            }
        }
    }
}

/// Changing a character changes the number of dots by what it takes away
/// and what it puts in, and moves no dot if neither character is one.
proof fn lemma_update_dots(text: Seq<char>, i: int, c: char)
    requires
        0 <= i < text.len(),
    ensures
        dot_count(text.update(i, c)) == dot_count(text) + (if c == '.' {
            1int
        } else {
            0int
        }) - (if text[i] == '.' {
            1int
        } else {
            0int
        }),
        text[i] != '.' && c != '.' ==> last_dot(text.update(i, c)) == last_dot(text),
    decreases text.len(),
{
    let changed = text.update(i, c);
    if i == text.len() - 1 {
        assert(changed.drop_last() =~= text.drop_last());
    } else {
        assert(changed.drop_last() =~= text.drop_last().update(i, c));
        lemma_update_dots(text.drop_last(), i, c);
    }
}

/// Tamper detection: of a token that passes under `secret`, no copy with
/// one character of the signature changed passes under it. With what
/// [`verify`] ensures of a token that it accepts, this says that `verify`
/// answers [`InvalidToken`] to every such copy, whatever the clock shows.
pub proof fn lemma_tampered_signature_rejected(
    secret: Seq<u8>,
    token: Seq<char>,
    i: int,
    c: char,
)
    requires
        framed(secret, token),
        last_dot(token) < i < token.len(),
        c != token[i],
    ensures
        !framed(secret, token.update(i, c)),
{
    let forged = token.update(i, c);
    lemma_last_dot(token);
    lemma_update_dots(token, i, c);
    if c != '.' {
        let dot = last_dot(token);
        assert(signed_part(forged) =~= signed_part(token));
        assert(signature_part(forged)[i - dot - 1] == c);
        assert(signature_part(token)[i - dot - 1] == token[i]);
    }
}

} // verus!
