//! What a request is answered with: the view of the site's index, of a
//! book's first page, or of any page of a book, for the renderer to turn
//! into a full document or into a fragment of one.

use crate::models::book::{find_book, find_page, Book, BookView, Page, PageView};
use crate::models::user::{Claims, ClaimsView};
use crate::services::book_service::BookService;
use vstd::prelude::*;

verus! {

/// Why a book's page cannot be shown.
#[derive(Debug, Clone, Copy, PartialEq, Eq)]
pub enum NavError {
    /// The library has no book with the id.
    BookNotFound,
    /// The book has no page with the id.
    PageNotFound,
    /// The book has no page with the id that it starts at.
    NoStartingPage,
}

/// What fills the main part of a view.
#[derive(Debug)]
pub enum Content<'a> {
    /// The site's heading, on the index.
    Heading(String),
    /// A page of a book, with its choices.
    BookPage { book_id: u32, page: &'a Page },
}

/// What the renderer is handed for one response.
#[derive(Debug)]
pub struct ViewModel<'a> {
    pub title: String,
    pub content: Content<'a>,
    pub is_authenticated: bool,
    pub identity_subject: Option<String>,
    pub library_index: Option<&'a Vec<Book>>,
    pub fragment_only: bool,
}

/// The mathematical value of [`Content`].
pub enum ContentView {
    Heading(Seq<char>),
    BookPage { book_id: u32, page: PageView },
}

/// The mathematical value of a [`ViewModel`].
pub struct ViewModelView {
    pub title: Seq<char>,
    pub content: ContentView,
    pub is_authenticated: bool,
    pub identity_subject: Option<Seq<char>>,
    pub library_index: Option<Seq<BookView>>,
    pub fragment_only: bool,
}

impl<'a> View for Content<'a> {
    type V = ContentView;

    open spec fn view(&self) -> ContentView {
        match self {
            Content::Heading(text) => ContentView::Heading(text@),
            Content::BookPage { book_id, page } => ContentView::BookPage {
                book_id: *book_id,
                page: page@,
            },
        }
    }
}

impl<'a> View for ViewModel<'a> {
    type V = ViewModelView;

    open spec fn view(&self) -> ViewModelView {
        ViewModelView {
            title: self.title@,
            content: self.content@,
            is_authenticated: self.is_authenticated,
            identity_subject: self.identity_subject.deep_view(),
            library_index: self.library_index.deep_view(),
            fragment_only: self.fragment_only,
        }
    }
}

/// The name of the site: the title and the heading of its index.
pub open spec fn site_name() -> Seq<char> {
    "Storybuilder"@
}

/// The subject of an identity, if there is one.
pub open spec fn subject_of(identity: Option<ClaimsView>) -> Option<Seq<char>> {
    match identity {
        Some(claims) => Some(claims.sub),
        None => None,
    }
}

/// The view of the site's index: the library, and who is looking at it.
/// It is always a full page.
pub open spec fn index_view(library: Seq<BookView>, identity: Option<ClaimsView>) -> ViewModelView {
    ViewModelView {
        title: site_name(),
        content: ContentView::Heading(site_name()),
        is_authenticated: identity is Some,
        identity_subject: subject_of(identity),
        library_index: Some(library),
        fragment_only: false,
    }
}

/// The view of a visitor who has no session: the index without a library
/// and without a name.
pub open spec fn anonymous_view() -> ViewModelView {
    ViewModelView {
        title: site_name(),
        content: ContentView::Heading(site_name()),
        is_authenticated: false,
        identity_subject: None,
        library_index: None,
        fragment_only: false,
    }
}

/// The view of `page` of `book` for the visitor `identity`. As a fragment
/// it holds the page and its choices and nothing else; as a full page it
/// also holds the library and the visitor's name.
pub open spec fn page_view(
    library: Seq<BookView>,
    book: BookView,
    page: PageView,
    identity: ClaimsView,
    fragment: bool,
) -> ViewModelView {
    ViewModelView {
        title: book.title,
        content: ContentView::BookPage { book_id: book.id, page },
        is_authenticated: true,
        identity_subject: if fragment {
            None
        } else {
            Some(identity.sub)
        },
        library_index: if fragment {
            None
        } else {
            Some(library)
        },
        fragment_only: fragment,
    }
}

/// What a request for the first page of the book `book_id` resolves to.
pub open spec fn book_entry(
    library: Seq<BookView>,
    book_id: u32,
    identity: ClaimsView,
    fragment: bool,
) -> Result<ViewModelView, NavError> {
    match find_book(library, book_id) {
        Some(book) => match find_page(book.pages, book.starting_page) {
            Some(page) => Ok(page_view(library, book, page, identity, fragment)),
            None => Err(NavError::NoStartingPage),
        },
        None => Err(NavError::BookNotFound),
    }
}

/// What a request for the page `page_id` of the book `book_id` resolves to.
pub open spec fn book_page(
    library: Seq<BookView>,
    book_id: u32,
    page_id: u32,
    identity: ClaimsView,
    fragment: bool,
) -> Result<ViewModelView, NavError> {
    match find_book(library, book_id) {
        Some(book) => match find_page(book.pages, page_id) {
            Some(page) => Ok(page_view(library, book, page, identity, fragment)),
            None => Err(NavError::PageNotFound),
        },
        None => Err(NavError::BookNotFound),
    }
}

/// The value of a resolver's result.
pub open spec fn resolved(outcome: Result<ViewModel<'_>, NavError>) -> Result<
    ViewModelView,
    NavError,
> {
    match outcome {
        Ok(view) => Ok(view@),
        Err(error) => Err(error),
    }
}

/// The view of the site's index for a visitor who may or may not have a
/// session.
pub fn resolve_index<'a>(books: &'a BookService, identity: Option<&Claims>) -> (view: ViewModel<
    'a,
>)
    ensures
        view@ == index_view(books@, identity.deep_view()),
{
    let identity_subject = match identity {
        Some(claims) => Some(claims.sub.clone()),
        None => None,
    };
    ViewModel {
        title: "Storybuilder".to_string(),
        content: Content::Heading("Storybuilder".to_string()),
        is_authenticated: identity.is_some(),
        identity_subject,
        library_index: Some(books.get_library()),
        fragment_only: false,
    }
}

/// The view of a visitor who has no session.
pub fn resolve_anonymous<'a>() -> (view: ViewModel<'a>)
    ensures
        view@ == anonymous_view(),
{
    ViewModel {
        title: "Storybuilder".to_string(),
        content: Content::Heading("Storybuilder".to_string()),
        is_authenticated: false,
        identity_subject: None,
        library_index: None,
        fragment_only: false,
    }
}

/// The view of `page` of `book`.
fn show_page<'a>(
    books: &'a BookService,
    book: &'a Book,
    page: &'a Page,
    identity: &Claims,
    fragment: bool,
) -> (view: ViewModel<'a>)
    ensures
        view@ == page_view(books@, book@, page@, identity@, fragment),
{
    if fragment {
        ViewModel {
            title: book.title.clone(),
            content: Content::BookPage { book_id: book.id, page },
            is_authenticated: true,
            identity_subject: None,
            library_index: None,
            fragment_only: true,
        }
    } else {
        ViewModel {
            title: book.title.clone(),
            content: Content::BookPage { book_id: book.id, page },
            is_authenticated: true,
            identity_subject: Some(identity.sub.clone()),
            library_index: Some(books.get_library()),
            fragment_only: false,
        }
    }
}

/// The view of the first page of the book `book_id`, for a visitor with a
/// session. Whoever has none is to be sent away before this is asked.
pub fn resolve_book_entry<'a>(
    books: &'a BookService,
    book_id: u32,
    identity: Option<&Claims>,
    is_fragment_request: bool,
) -> (outcome: Result<ViewModel<'a>, NavError>)
    requires
        identity is Some,
    ensures
        resolved(outcome) == book_entry(
            books@,
            book_id,
            identity.deep_view()->0,
            is_fragment_request,
        ),
{
    let claims = identity.unwrap();
    match books.get_book(book_id) {
        Some(book) => match book.find_page(book.starting_page) {
            Some(page) => Ok(show_page(books, book, page, claims, is_fragment_request)),
            None => Err(NavError::NoStartingPage),
        },
        None => Err(NavError::BookNotFound),
    }
}

/// The view of the page `page_id` of the book `book_id`, for a visitor
/// with a session. Whoever has none is to be sent away before this is
/// asked. That a choice leads to the page is not asked: the page need only
/// exist.
pub fn resolve_book_page<'a>(
    books: &'a BookService,
    book_id: u32,
    page_id: u32,
    identity: Option<&Claims>,
    is_fragment_request: bool,
) -> (outcome: Result<ViewModel<'a>, NavError>)
    requires
        identity is Some,
    ensures
        resolved(outcome) == book_page(
            books@,
            book_id,
            page_id,
            identity.deep_view()->0,
            is_fragment_request,
        ),
{
    let claims = identity.unwrap();
    match books.get_book(book_id) {
        Some(book) => match book.find_page(page_id) {
            Some(page) => Ok(show_page(books, book, page, claims, is_fragment_request)),
            None => Err(NavError::PageNotFound),
        },
        None => Err(NavError::BookNotFound),
    }
}

} // verus!
