use storybuilder::models::book::{Book, Page};
use storybuilder::models::user::Claims;
use storybuilder::navigation::{
    resolve_anonymous, resolve_book_entry, resolve_book_page, resolve_index, Content, NavError,
    ViewModel,
};
use storybuilder::services::book_service::BookService;

fn richard() -> Claims {
    Claims { sub: "richard".to_string(), exp: 4600, iat: 1000 }
}

fn page_id(view: &ViewModel) -> Option<(u32, u32)> {
    match &view.content {
        Content::BookPage { book_id, page } => Some((*book_id, page.id)),
        Content::Heading(_) => None,
    }
}

#[test]
fn resolve_index_for_an_anonymous_visitor() {
    let books = BookService::new();
    let view = resolve_index(&books, None);
    assert_eq!(view.title, "Storybuilder");
    assert!(matches!(&view.content, Content::Heading(text) if text == "Storybuilder"));
    assert!(!view.is_authenticated);
    assert_eq!(view.identity_subject, None);
    assert_eq!(view.library_index.map(|library| library.len()), Some(2));
    assert!(!view.fragment_only);
}

#[test]
fn resolve_index_for_a_visitor_with_a_session() {
    let books = BookService::new();
    let claims = richard();
    let view = resolve_index(&books, Some(&claims));
    assert_eq!(view.title, "Storybuilder");
    assert!(view.is_authenticated);
    assert_eq!(view.identity_subject.as_deref(), Some("richard"));
    let library = view.library_index.expect("the library");
    assert_eq!(library[0].title, "The Haunted Mansion");
    assert_eq!(library[1].title, "Space Station Omega");
    assert!(!view.fragment_only);
}

#[test]
fn resolve_anonymous_shows_neither_name_nor_library() {
    let view = resolve_anonymous();
    assert_eq!(view.title, "Storybuilder");
    assert!(matches!(&view.content, Content::Heading(text) if text == "Storybuilder"));
    assert!(!view.is_authenticated);
    assert_eq!(view.identity_subject, None);
    assert!(view.library_index.is_none());
    assert!(!view.fragment_only);
}

#[test]
fn resolve_book_entry_as_a_full_page() {
    let books = BookService::new();
    let claims = richard();
    let view = resolve_book_entry(&books, 1, Some(&claims), false).expect("book 1");
    assert_eq!(view.title, "The Haunted Mansion");
    assert_eq!(page_id(&view), Some((1, 101)));
    assert!(view.is_authenticated);
    assert_eq!(view.identity_subject.as_deref(), Some("richard"));
    assert_eq!(view.library_index.map(|library| library.len()), Some(2));
    assert!(!view.fragment_only);
    match &view.content {
        Content::BookPage { page, .. } => {
            assert_eq!(page.content, "You stand before a creaky old mansion. Do you:");
            assert_eq!(page.choices.len(), 2);
            assert_eq!(page.choices[0].target_page_id, 102);
        }
        Content::Heading(_) => unreachable!("a book's page"),
    }
}

#[test]
fn resolve_book_entry_as_a_fragment() {
    let books = BookService::new();
    let claims = richard();
    let view = resolve_book_entry(&books, 2, Some(&claims), true).expect("book 2");
    assert_eq!(view.title, "Space Station Omega");
    assert_eq!(page_id(&view), Some((2, 201)));
    assert!(view.is_authenticated);
    assert_eq!(view.identity_subject, None);
    assert!(view.library_index.is_none());
    assert!(view.fragment_only);
}

#[test]
fn resolve_book_entry_of_an_unknown_book() {
    let books = BookService::new();
    let claims = richard();
    for fragment in [false, true] {
        let outcome = resolve_book_entry(&books, 3, Some(&claims), fragment);
        assert!(matches!(outcome, Err(NavError::BookNotFound)));
    }
}

#[test]
fn resolve_book_page_of_any_page_that_exists() {
    let books = BookService::new();
    let claims = richard();
    let view = resolve_book_page(&books, 1, 106, Some(&claims), true).expect("page 106");
    assert_eq!(view.title, "The Haunted Mansion");
    assert_eq!(page_id(&view), Some((1, 106)));
    assert!(view.fragment_only);
    let view = resolve_book_page(&books, 2, 203, Some(&claims), false).expect("page 203");
    assert_eq!(view.title, "Space Station Omega");
    assert_eq!(page_id(&view), Some((2, 203)));
    assert_eq!(view.identity_subject.as_deref(), Some("richard"));
    assert!(view.library_index.is_some());
    assert!(!view.fragment_only);
}

#[test]
fn resolve_book_page_of_a_missing_page_or_book() {
    let books = BookService::new();
    let claims = richard();
    assert!(matches!(
        resolve_book_page(&books, 1, 999, Some(&claims), false),
        Err(NavError::PageNotFound)
    ));
    assert!(matches!(
        resolve_book_page(&books, 1, 117, Some(&claims), true),
        Err(NavError::PageNotFound)
    ));
    assert!(matches!(
        resolve_book_page(&books, 1, 201, Some(&claims), true),
        Err(NavError::PageNotFound)
    ));
    assert!(matches!(
        resolve_book_page(&books, 9, 101, Some(&claims), false),
        Err(NavError::BookNotFound)
    ));
}

#[test]
fn resolve_book_entry_of_a_book_without_its_starting_page() {
    let broken = Book {
        id: 4,
        title: "Unfinished".to_string(),
        summary: "No way in".to_string(),
        pages: vec![Page { id: 401, content: "Nowhere".to_string(), choices: Vec::new() }],
        starting_page: 400,
    };
    let books = BookService::from_library(vec![broken]);
    let claims = richard();
    for fragment in [false, true] {
        let outcome = resolve_book_entry(&books, 4, Some(&claims), fragment);
        assert!(matches!(outcome, Err(NavError::NoStartingPage)));
    }
    let view = resolve_book_page(&books, 4, 401, Some(&claims), true).expect("page 401");
    assert_eq!(page_id(&view), Some((4, 401)));
}

#[test]
fn resolve_book_page_of_an_ending() {
    let books = BookService::new();
    let claims = richard();
    let view = resolve_book_page(&books, 1, 109, Some(&claims), true).expect("page 109");
    assert_eq!(page_id(&view), Some((1, 109)));
    match &view.content {
        Content::BookPage { page, .. } => {
            assert_eq!(page.content, "The story ends here.");
            assert!(page.choices.is_empty());
        }
        Content::Heading(_) => unreachable!("a book's page"),
    }
}
