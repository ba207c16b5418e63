//! The cookie that carries a session: how it is found in what a browser
//! sends, and what a browser is told to store and to forget.

use crate::services::token::is_token_text;
use crate::text::{chars_of, lemma_trim_tight, trim, trim_bounds};
use vstd::prelude::*;

verus! {

/// What the session cookie's entry begins with: its name and the equals sign.
pub open spec fn cookie_prefix() -> Seq<char> {
    "auth="@
}

/// What follows the token in the cookie that a login sets.
pub open spec fn session_attributes() -> Seq<char> {
    "; Path=/; HttpOnly; SameSite=Strict"@
}

/// The cookie that a login sets for `token`.
pub open spec fn session_cookie_text(token: Seq<char>) -> Seq<char> {
    cookie_prefix() + token + session_attributes()
}

/// The cookie that a logout sets: no value, and no time to live.
pub open spec fn clearing_cookie_text() -> Seq<char> {
    "auth=; Path=/; HttpOnly; Max-Age=0"@
}

/// Where the first semicolon of `text` stands; the length of `text` if it
/// has none.
pub open spec fn first_semicolon(text: Seq<char>) -> int
    decreases text.len(),
{
    if text.len() == 0 || text[0] == ';' {
        0
    } else {
        1 + first_semicolon(text.drop_first())
    }
}

/// The value of one entry of a cookie header, if the entry, with the white
/// space around it taken off, begins with the session cookie's name and an
/// equals sign: all that follows them.
pub open spec fn entry_value(entry: Seq<char>) -> Option<Seq<char>> {
    let trimmed = trim(entry);
    if cookie_prefix().is_prefix_of(trimmed) {
        Some(trimmed.skip(cookie_prefix().len() as int))
    } else {
        None
    }
}

/// The value of the session cookie in a cookie header: that of the first
/// of the entries between its semicolons that has one.
pub open spec fn auth_cookie(header: Seq<char>) -> Option<Seq<char>>
    decreases header.len(),
{
    let end = first_semicolon(header);
    match entry_value(header.take(end)) {
        Some(value) => Some(value),
        None => if 0 <= end < header.len() {
            auth_cookie(header.skip(end + 1))
        } else {
            None
        },
    }
}

/// The first semicolon stands where no semicolon stands before.
pub proof fn lemma_first_semicolon(text: Seq<char>, n: int)
    requires
        0 <= n <= text.len(),
        forall|i: int| 0 <= i < n ==> #[trigger] text[i] != ';',
        n < text.len() ==> text[n] == ';',
    ensures
        first_semicolon(text) == n,
    decreases n,
{
    if n > 0 {
        let rest = text.drop_first();
        assert forall|i: int| 0 <= i < n - 1 implies #[trigger] rest[i] != ';' by {
            assert(rest[i] == text[i + 1]);
        }
        lemma_first_semicolon(rest, n - 1);
    }
}

/// A header that begins with the session cookie's entry yields its token:
/// a browser that sends back the token it was given, alone or before other
/// cookies, is recognised.
pub proof fn lemma_auth_cookie_leads(token: Seq<char>, tail: Seq<char>)
    requires
        is_token_text(token),
        tail.len() > 0 ==> tail[0] == ';',
    ensures
        auth_cookie(cookie_prefix() + token + tail) == Some(token),
{
    reveal_strlit("auth=");
    let entry = cookie_prefix() + token;
    let header = entry + tail;
    assert forall|i: int| 0 <= i < entry.len() implies #[trigger] header[i] != ';' by {
        if i >= 5 {
            assert(header[i] == token[i - 5]);
        }
    }
    lemma_first_semicolon(header, entry.len() as int);
    assert(header.take(entry.len() as int) =~= entry);
    assert(entry.last() == if token.len() > 0 {
        token.last()
    } else {
        '='
    });
    lemma_trim_tight(entry);
    assert(entry.skip(5) =~= token);
}

/// The value of the session cookie in `header`.
pub fn auth_cookie_value(header: &str) -> (value: Option<&str>)
    ensures
        match value {
            Some(token) => auth_cookie(header@) == Some(token@),
            None => auth_cookie(header@) is None,
        },
{
    let chars = chars_of(header);
    let mut start: usize = 0;
    assert(chars@.skip(0) =~= chars@);
    loop
        invariant
            start <= chars.len(),
            chars@ == header@,
            auth_cookie(header@) == auth_cookie(chars@.skip(start as int)),
        decreases chars.len() - start,
    {
        let ghost rest = chars@.skip(start as int);
        let mut end: usize = start;
        while end < chars.len() && chars[end] != ';'
            invariant
                start <= end <= chars.len(),
                rest == chars@.skip(start as int),
                forall|i: int| 0 <= i < end - start ==> #[trigger] rest[i] != ';',
            decreases chars.len() - end,
        {
            end += 1;
        }
        let (begin, finish) = trim_bounds(&chars, start, end);
        proof {
            reveal_strlit("auth=");
            lemma_first_semicolon(rest, end - start);
            assert(rest.take(end - start) =~= chars@.subrange(start as int, end as int));
        }
        let ghost trimmed = chars@.subrange(begin as int, finish as int);
        if finish - begin >= 5 && chars[begin] == 'a' && chars[begin + 1] == 'u' && chars[begin
            + 2] == 't' && chars[begin + 3] == 'h' && chars[begin + 4] == '=' {
            let token = header.substring_char(begin + 5, finish);
            proof {
                assert(trimmed.subrange(0, 5) =~= cookie_prefix());
                assert(trimmed.skip(5) =~= token@);
            }
            return Some(token);
        }
        proof {
            if cookie_prefix().is_prefix_of(trimmed) {
                let head = trimmed.subrange(0, 5);
                assert(head == cookie_prefix());
                assert(head[0] == 'a' && head[1] == 'u' && head[2] == 't' && head[3] == 'h'
                    && head[4] == '=');
            }
        }
        if end >= chars.len() {
            return None;
        }
        proof {
            assert(rest.skip(end - start + 1) =~= chars@.skip(end + 1));
        }
        start = end + 1;
    }
}

/// The cookie that a login sets for `token`: kept from scripts, and sent
/// with requests from this site only.
pub fn session_cookie(token: &str) -> (cookie: String)
    ensures
        cookie@ == session_cookie_text(token@),
{
    let mut cookie = "auth=".to_string();
    cookie.append(token);
    cookie.append("; Path=/; HttpOnly; SameSite=Strict");
    cookie
}

/// The cookie that a logout sets: it empties the session cookie and lets
/// it expire at once.
pub fn clearing_cookie() -> (cookie: String)
    ensures
        cookie@ == clearing_cookie_text(),
{
    "auth=; Path=/; HttpOnly; Max-Age=0".to_string()
}

} // verus!
