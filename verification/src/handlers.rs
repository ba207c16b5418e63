//! The site's five requests, each as a function from what the request
//! carries to what is answered. Transport and rendering stand outside:
//! they hand in the cookie header, the form, the ids and the time, and
//! turn the [`Reply`] into a response.

use crate::models::book::{
    find_book, lemma_find_page_none, lemma_starting_page_exists, library_consistent, page_of,
    BookView,
};
use crate::models::user::{CredentialsView, UserCredentials};
use crate::navigation::{
    anonymous_view, book_entry, book_page, index_view, resolve_anonymous, resolve_book_entry,
    resolve_book_page, resolve_index, ContentView, NavError, ViewModel, ViewModelView,
};
use crate::services::auth_service::{
    identity_of, is_account, lemma_identity_of_sent_token, AuthService,
};
use crate::services::book_service::BookService;
use crate::services::cookie::{
    clearing_cookie_text, cookie_prefix, lemma_auth_cookie_leads, session_cookie,
    session_cookie_text,
};
use crate::services::token::{
    is_token_text, session_at, session_token, verified_claims, SESSION_LIFETIME,
};
use vstd::prelude::*;

verus! {

/// What every request is answered from.
pub struct AppState {
    pub auth_service: AuthService,
    pub book_service: BookService,
}

/// The fields of the login form.
#[derive(Debug, Clone)]
pub struct LoginForm {
    pub username: String,
    pub password: String,
}

impl View for LoginForm {
    type V = CredentialsView;

    open spec fn view(&self) -> CredentialsView {
        CredentialsView { username: self.username@, password: self.password@ }
    }
}

/// The answer to a request, before it is rendered.
#[derive(Debug)]
pub enum Reply<'a> {
    /// The visitor is sent to another place.
    SeeOther { location: String },
    /// The login went through: the session cookie is set, and the visitor
    /// is greeted by name.
    LoggedIn { username: String, set_cookie: String },
    /// The login was refused: the form is shown again with the reason, and
    /// no cookie is set.
    LoginRefused { message: String },
    /// The session is over: the session cookie is cleared, and the
    /// anonymous home is shown.
    LoggedOut { view: ViewModel<'a>, set_cookie: String },
    /// A page of the site.
    Page { view: ViewModel<'a> },
    /// What was asked for is not there.
    NotFound { error: NavError },
}

/// The mathematical value of a [`Reply`].
pub enum ReplyView {
    SeeOther { location: Seq<char> },
    LoggedIn { username: Seq<char>, set_cookie: Seq<char> },
    LoginRefused { message: Seq<char> },
    LoggedOut { view: ViewModelView, set_cookie: Seq<char> },
    Page { view: ViewModelView },
    NotFound { error: NavError },
}

impl<'a> View for Reply<'a> {
    type V = ReplyView;

    open spec fn view(&self) -> ReplyView {
        match self {
            Reply::SeeOther { location } => ReplyView::SeeOther { location: location@ },
            Reply::LoggedIn { username, set_cookie } => ReplyView::LoggedIn {
                username: username@,
                set_cookie: set_cookie@,
            },
            Reply::LoginRefused { message } => ReplyView::LoginRefused { message: message@ },
            Reply::LoggedOut { view, set_cookie } => ReplyView::LoggedOut {
                view: view@,
                set_cookie: set_cookie@,
            },
            Reply::Page { view } => ReplyView::Page { view: view@ },
            Reply::NotFound { error } => ReplyView::NotFound { error: *error },
        }
    }
}

impl ReplyView {
    /// The status that the reply is sent with.
    pub open spec fn status(self) -> u16 {
        match self {
            ReplyView::SeeOther { .. } => 303,
            ReplyView::NotFound { .. } => 404,
            _ => 200,
        }
    }
}

/// Where a visitor without a session is sent.
pub open spec fn home() -> Seq<char> {
    "/"@
}

/// What a refused login is told.
pub open spec fn login_error() -> Seq<char> {
    "Invalid username or password"@
}

/// The answer to a request for the index.
pub open spec fn index_reply(
    secret: Seq<u8>,
    library: Seq<BookView>,
    header: Option<Seq<char>>,
    now: nat,
) -> ReplyView {
    ReplyView::Page { view: index_view(library, identity_of(secret, header, now)) }
}

/// The answer to a login.
pub open spec fn login_reply(secret: Seq<u8>, form: CredentialsView, now: nat) -> ReplyView {
    if is_account(form) {
        ReplyView::LoggedIn {
            username: form.username,
            set_cookie: session_cookie_text(session_token(secret, form.username, now)),
        }
    } else {
        ReplyView::LoginRefused { message: login_error() }
    }
}

/// The answer to a logout.
pub open spec fn logout_reply() -> ReplyView {
    ReplyView::LoggedOut { view: anonymous_view(), set_cookie: clearing_cookie_text() }
}

/// The answer that a resolved view, or the failure to resolve one, becomes.
pub open spec fn shown(outcome: Result<ViewModelView, NavError>) -> ReplyView {
    match outcome {
        Ok(view) => ReplyView::Page { view },
        Err(error) => ReplyView::NotFound { error },
    }
}

/// The answer to a request for the first page of the book `book_id`.
pub open spec fn book_start_reply(
    secret: Seq<u8>,
    library: Seq<BookView>,
    header: Option<Seq<char>>,
    fragment: bool,
    book_id: u32,
    now: nat,
) -> ReplyView {
    match identity_of(secret, header, now) {
        Some(identity) => shown(book_entry(library, book_id, identity, fragment)),
        None => ReplyView::SeeOther { location: home() },
    }
}

/// The answer to a request for the page `page_id` of the book `book_id`.
pub open spec fn book_page_reply(
    secret: Seq<u8>,
    library: Seq<BookView>,
    header: Option<Seq<char>>,
    fragment: bool,
    book_id: u32,
    page_id: u32,
    now: nat,
) -> ReplyView {
    match identity_of(secret, header, now) {
        Some(identity) => shown(book_page(library, book_id, page_id, identity, fragment)),
        None => ReplyView::SeeOther { location: home() },
    }
}

impl<'a> Reply<'a> {
    /// The status that the reply is sent with: 303 where the visitor is
    /// sent elsewhere, 404 where nothing was found, and 200 otherwise.
    pub fn status(&self) -> (code: u16)
        ensures
            code == self@.status(),
    {
        match self {
            Reply::SeeOther { .. } => 303,
            Reply::NotFound { .. } => 404,
            _ => 200,
        }
    }
}

/// The answer that a resolved view, or the failure to resolve one, becomes.
fn show<'a>(outcome: Result<ViewModel<'a>, NavError>) -> (reply: Reply<'a>)
    ensures
        reply@ == shown(crate::navigation::resolved(outcome)),
{
    match outcome {
        Ok(view) => Reply::Page { view },
        Err(error) => Reply::NotFound { error },
    }
}

/// Answers a request for the index: the library, with a greeting for the
/// visitor if the cookie header proves a session at the time `now`.
pub fn index_handler<'a>(state: &'a AppState, cookie_header: Option<&str>, now: usize) -> (reply:
    Reply<'a>)
    ensures
        reply@ == index_reply(
            state.auth_service.secret(),
            state.book_service@,
            cookie_header.deep_view(),
            now as nat,
        ),
{
    let identity = state.auth_service.identity_from_cookie_header(cookie_header, now);
    Reply::Page { view: resolve_index(&state.book_service, identity.as_ref()) }
}

/// Answers a login at the time `now`: with the session cookie if the form
/// holds the account's credentials, with the form's error and no cookie if
/// not. The token in the cookie consists of token characters. Checked at
/// any later time, alone or sent back in a cookie header, it proves a
/// session of the form's username until an hour after `now`, and nothing
/// from then on.
pub fn login_handler<'a>(state: &AppState, form: &LoginForm, now: usize) -> (reply: Reply<'a>)
    requires
        is_account(form@) ==> now + SESSION_LIFETIME <= usize::MAX,
    ensures
        reply@ == login_reply(state.auth_service.secret(), form@, now as nat),
        is_account(form@) ==> ({
            let secret = state.auth_service.secret();
            let token = session_token(secret, form@.username, now as nat);
            &&& is_token_text(token)
            &&& forall|later: nat| #[trigger]
                verified_claims(secret, token, later) == session_at(
                    form@.username,
                    now as nat,
                    later,
                )
            &&& forall|later: nat| #[trigger]
                identity_of(secret, Some(cookie_prefix() + token), later) == session_at(
                    form@.username,
                    now as nat,
                    later,
                )
        }),
{
    let credentials = UserCredentials {
        username: form.username.clone(),
        password: form.password.clone(),
    };
    match state.auth_service.login(&credentials, now) {
        Ok(token) => {
            proof {
                lemma_identity_of_sent_token(token@, Seq::empty());
                assert(cookie_prefix() + token@ + Seq::<char>::empty() =~= cookie_prefix()
                    + token@);
            }
            Reply::LoggedIn {
                username: form.username.clone(),
                set_cookie: session_cookie(token.as_str()),
            }
        },
        Err(_) => Reply::LoginRefused { message: "Invalid username or password".to_string() },
    }
}

/// Answers a logout. Whoever asks and however often, the answer is the
/// same: the session cookie is cleared and the anonymous home is shown.
pub fn logout_handler<'a>(state: &AppState) -> (reply: Reply<'a>)
    ensures
        reply@ == logout_reply(),
{
    Reply::LoggedOut { view: resolve_anonymous(), set_cookie: state.auth_service.logout() }
}

/// Answers a request for the first page of the book `book_id`. A visitor
/// whose cookie header proves no session at the time `now` is sent home.
pub fn book_start_handler<'a>(
    state: &'a AppState,
    cookie_header: Option<&str>,
    is_fragment_request: bool,
    book_id: u32,
    now: usize,
) -> (reply: Reply<'a>)
    ensures
        reply@ == book_start_reply(
            state.auth_service.secret(),
            state.book_service@,
            cookie_header.deep_view(),
            is_fragment_request,
            book_id,
            now as nat,
        ),
{
    let identity = state.auth_service.identity_from_cookie_header(cookie_header, now);
    if identity.is_none() {
        return Reply::SeeOther { location: "/".to_string() };
    }
    show(resolve_book_entry(&state.book_service, book_id, identity.as_ref(), is_fragment_request))
}

/// Answers a request for the page `page_id` of the book `book_id`. A
/// visitor whose cookie header proves no session at the time `now` is sent
/// home.
pub fn book_page_handler<'a>(
    state: &'a AppState,
    cookie_header: Option<&str>,
    is_fragment_request: bool,
    book_id: u32,
    page_id: u32,
    now: usize,
) -> (reply: Reply<'a>)
    ensures
        reply@ == book_page_reply(
            state.auth_service.secret(),
            state.book_service@,
            cookie_header.deep_view(),
            is_fragment_request,
            book_id,
            page_id,
            now as nat,
        ),
{
    let identity = state.auth_service.identity_from_cookie_header(cookie_header, now);
    if identity.is_none() {
        return Reply::SeeOther { location: "/".to_string() };
    }
    show(
        resolve_book_page(
            &state.book_service,
            book_id,
            page_id,
            identity.as_ref(),
            is_fragment_request,
        ),
    )
}

/// A request that proves no session is shown no book: whatever book and
/// page it asks for, it is sent home with the status 303.
pub proof fn lemma_book_needs_session(
    secret: Seq<u8>,
    library: Seq<BookView>,
    header: Option<Seq<char>>,
    fragment: bool,
    book_id: u32,
    page_id: u32,
    now: nat,
)
    requires
        identity_of(secret, header, now) is None,
    ensures
        identity_of(secret, None, now) is None,
        book_start_reply(secret, library, header, fragment, book_id, now) == (ReplyView::SeeOther {
            location: home(),
        }),
        book_page_reply(secret, library, header, fragment, book_id, page_id, now) == (
        ReplyView::SeeOther { location: home() }),
        book_start_reply(secret, library, header, fragment, book_id, now).status() == 303,
        book_page_reply(secret, library, header, fragment, book_id, page_id, now).status() == 303,
{
}

/// A request that sends back a token which passes, alone or before other
/// cookies, is shown the first page of any book of a consistent library:
/// the status is 200, and the page shown is a page of that book with the id
/// that the book starts at.
pub proof fn lemma_session_opens_book(
    secret: Seq<u8>,
    library: Seq<BookView>,
    i: int,
    token: Seq<char>,
    tail: Seq<char>,
    fragment: bool,
    now: nat,
)
    requires
        library_consistent(library),
        0 <= i < library.len(),
        is_token_text(token),
        tail.len() > 0 ==> tail[0] == ';',
        verified_claims(secret, token, now) is Some,
    ensures
        ({
            let header = Some(cookie_prefix() + token + tail);
            let reply = book_start_reply(secret, library, header, fragment, library[i].id, now);
            &&& identity_of(secret, header, now) == verified_claims(secret, token, now)
            &&& reply.status() == 200
            &&& reply matches ReplyView::Page { view }
            &&& view.fragment_only == fragment
            &&& view.content matches ContentView::BookPage { book_id, page }
            &&& book_id == library[i].id
            &&& page.id == library[i].starting_page
            &&& library[i].pages.contains(page)
        }),
{
    lemma_auth_cookie_leads(token, tail);
    lemma_starting_page_exists(library, i);
    lemma_find_page_none(library[i].pages, library[i].starting_page);
}

/// A request with a session for a page that its book does not have, or
/// for a book that the library does not have, is answered with the status
/// 404 and the reason.
pub proof fn lemma_missing_page_not_found(
    secret: Seq<u8>,
    library: Seq<BookView>,
    header: Option<Seq<char>>,
    fragment: bool,
    book_id: u32,
    page_id: u32,
    now: nat,
)
    requires
        identity_of(secret, header, now) is Some,
        page_of(library, book_id, page_id) is None,
    ensures
        ({
            let reply = book_page_reply(secret, library, header, fragment, book_id, page_id, now);
            &&& reply.status() == 404
            &&& reply matches ReplyView::NotFound { error }
            &&& error == if find_book(library, book_id) is Some {
                NavError::PageNotFound
            } else {
                NavError::BookNotFound
            }
        }),
{
}

/// A logout is answered in one way, whoever asks and however often: with
/// the status 200, the cookie that clears the session, and the view of a
/// visitor without a session.
pub proof fn lemma_logout_is_constant()
    ensures
        logout_reply().status() == 200,
        logout_reply() matches ReplyView::LoggedOut { view, set_cookie } && set_cookie
            == clearing_cookie_text() && view == anonymous_view() && !view.is_authenticated
            && view.identity_subject is None,
{
}

/// A login is answered with a cookie exactly when the form holds the
/// account's credentials; any other form is answered with the error and
/// without a cookie. Either way the status is 200.
pub proof fn lemma_login_reply(secret: Seq<u8>, form: CredentialsView, now: nat)
    ensures
        login_reply(secret, form, now).status() == 200,
        login_reply(secret, form, now) is LoggedIn <==> is_account(form),
        !is_account(form) ==> login_reply(secret, form, now) == (ReplyView::LoginRefused {
            message: login_error(),
        }),
{
}

} // verus!
