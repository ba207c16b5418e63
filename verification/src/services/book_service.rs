//! Read access to the library of books.

use crate::models::book::{
    find_book, find_page, lemma_find_book_first, lemma_find_book_none, lemma_found_book_starts,
    lemma_page_is_found, library_consistent, page_of, starting_page_of, Book, BookView, Choice,
    ChoiceView, Page, PageView,
};
use vstd::prelude::*;

verus! {

/// The library, loaded once and only read afterwards.
#[derive(Clone)]
pub struct BookService {
    library: Vec<Book>,
}

/// The value of a page that ends in two choices.
pub open spec fn fork(
    id: u32,
    content: &str,
    first: &str,
    first_target: u32,
    second: &str,
    second_target: u32,
) -> PageView {
    PageView {
        id,
        content: content@,
        choices: seq![
            ChoiceView { text: first@, target_page_id: first_target },
            ChoiceView { text: second@, target_page_id: second_target },
        ],
    }
}

/// The value of a page at which a story ends: it offers no choice.
pub open spec fn ending(id: u32, content: &str) -> PageView {
    PageView { id, content: content@, choices: Seq::empty() }
}

/// The first book of the library that the site ships with.
pub open spec fn haunted_mansion() -> BookView {
    BookView {
        id: 1,
        title: "The Haunted Mansion"@,
        summary: "Explore a spooky mansion full of secrets"@,
        starting_page: 101,
        pages: seq![
            fork(
                101,
                "You stand before a creaky old mansion. Do you:",
                "Enter through the front door",
                102,
                "Sneak around to the back",
                103,
            ),
            fork(
                102,
                "The front door creaks open. Inside is a dark hallway. Do you:",
                "Light a match and explore",
                104,
                "Feel your way in the dark",
                105,
            ),
            fork(
                103,
                "You find a broken window at the back. Do you:",
                "Climb through carefully",
                106,
                "Look for another way in",
                101,
            ),
            fork(
                104,
                "The match flickers, revealing a grand staircase. Do you:",
                "Go upstairs",
                107,
                "Check the parlor",
                108,
            ),
            fork(
                105,
                "You stumble in the dark and hear a creak behind you. Do you:",
                "Turn around slowly",
                109,
                "Run forward blindly",
                110,
            ),
            fork(
                106,
                "You're in a dusty kitchen. A rat scurries by. Do you:",
                "Search the cabinets",
                111,
                "Exit through the pantry",
                112,
            ),
            fork(
                107,
                "At the top of the stairs, you see two doors. Do you:",
                "Enter the left door",
                113,
                "Enter the right door",
                114,
            ),
            fork(
                108,
                "The parlor has a strange painting. It seems to be watching you. Do you:",
                "Examine the painting",
                115,
                "Ignore it and look around",
                116,
            ),
            ending(109, "The story ends here."),
            ending(110, "The story ends here."),
            ending(111, "The story ends here."),
            ending(112, "The story ends here."),
            ending(113, "The story ends here."),
            ending(114, "The story ends here."),
            ending(115, "The story ends here."),
            ending(116, "The story ends here."),
        ],
    }
}

/// The second book of the library that the site ships with.
pub open spec fn space_station_omega() -> BookView {
    BookView {
        id: 2,
        title: "Space Station Omega"@,
        summary: "A sci-fi adventure in deep space"@,
        starting_page: 201,
        pages: seq![
            fork(
                201,
                "The space station alarms are blaring! Do you:",
                "Head to the control room",
                202,
                "Check the engineering bay",
                203,
            ),
            fork(
                202,
                "You reach the control room. The main console is sparking! Do you:",
                "Attempt to repair it",
                204,
                "Call for help on the comms",
                205,
            ),
            fork(
                203,
                "In engineering, you see a coolant leak. Do you:",
                "Try to seal the leak",
                206,
                "Evacuate the area",
                207,
            ),
            ending(204, "The story ends here."),
            ending(205, "The story ends here."),
            ending(206, "The story ends here."),
            ending(207, "The story ends here."),
        ],
    }
}

/// The library that the site ships with.
pub open spec fn seed_library() -> Seq<BookView> {
    seq![haunted_mansion(), space_station_omega()]
}

/// The first book keeps its invariant: it starts at one page, and each of
/// its choices leads to one of its pages.
proof fn lemma_haunted_mansion_well_formed()
    ensures
        haunted_mansion().well_formed(),
{
    let book = haunted_mansion();
    let pages = book.pages;
    assert(pages.len() == 16);
    assert(pages[0].id == book.starting_page);
    assert(book.has_unique_start());
    lemma_page_is_found(pages, 0);
    lemma_page_is_found(pages, 1);
    lemma_page_is_found(pages, 2);
    lemma_page_is_found(pages, 3);
    lemma_page_is_found(pages, 4);
    lemma_page_is_found(pages, 5);
    lemma_page_is_found(pages, 6);
    lemma_page_is_found(pages, 7);
    lemma_page_is_found(pages, 8);
    lemma_page_is_found(pages, 9);
    lemma_page_is_found(pages, 10);
    lemma_page_is_found(pages, 11);
    lemma_page_is_found(pages, 12);
    lemma_page_is_found(pages, 13);
    lemma_page_is_found(pages, 14);
    lemma_page_is_found(pages, 15);
    assert forall|i: int, k: int|
        0 <= i < pages.len() && 0 <= k < pages[i].choices.len() implies find_page(
        pages,
        (#[trigger] pages[i].choices[k]).target_page_id,
    ) is Some by {
        assert(i < 8);
        assert(k == 0 || k == 1);
    }
}

/// The second book keeps its invariant: it starts at one page, and each of
/// its choices leads to one of its pages.
proof fn lemma_space_station_omega_well_formed()
    ensures
        space_station_omega().well_formed(),
{
    let book = space_station_omega();
    let pages = book.pages;
    assert(pages.len() == 7);
    assert(pages[0].id == book.starting_page);
    assert(book.has_unique_start());
    lemma_page_is_found(pages, 0);
    lemma_page_is_found(pages, 1);
    lemma_page_is_found(pages, 2);
    lemma_page_is_found(pages, 3);
    lemma_page_is_found(pages, 4);
    lemma_page_is_found(pages, 5);
    lemma_page_is_found(pages, 6);
    assert forall|i: int, k: int|
        0 <= i < pages.len() && 0 <= k < pages[i].choices.len() implies find_page(
        pages,
        (#[trigger] pages[i].choices[k]).target_page_id,
    ) is Some by {
        assert(i < 3);
        assert(k == 0 || k == 1);
    }
}

/// The library that the site ships with is consistent: its two books have
/// different ids, and each keeps the invariant of a book.
pub proof fn lemma_seed_library_consistent()
    ensures
        library_consistent(seed_library()),
{
    let library = seed_library();
    assert(library[0] == haunted_mansion() && library[1] == space_station_omega());
    lemma_haunted_mansion_well_formed();
    lemma_space_station_omega_well_formed();
}

/// Builds a page that ends in two choices.
fn fork_page(
    id: u32,
    content: &str,
    first: &str,
    first_target: u32,
    second: &str,
    second_target: u32,
) -> (page: Page)
    ensures
        page@ == fork(id, content, first, first_target, second, second_target),
{
    let choices = vec![
        Choice { text: first.to_string(), target_page_id: first_target },
        Choice { text: second.to_string(), target_page_id: second_target },
    ];
    assert(choices.deep_view() =~= fork(
        id,
        content,
        first,
        first_target,
        second,
        second_target,
    ).choices);
    Page { id, content: content.to_string(), choices }
}

/// Builds a page at which a story ends.
fn ending_page(id: u32, content: &str) -> (page: Page)
    ensures
        page@ == ending(id, content),
{
    let choices: Vec<Choice> = Vec::new();
    assert(choices.deep_view() =~= ending(id, content).choices);
    Page { id, content: content.to_string(), choices }
}

impl View for BookService {
    type V = Seq<BookView>;

    closed spec fn view(&self) -> Seq<BookView> {
        self.library.deep_view()
    }
}

impl BookService {
    /// The service over `library`, be it consistent or not.
    pub fn from_library(library: Vec<Book>) -> (service: Self)
        ensures
            service@ == library.deep_view(),
    {
        Self { library }
    }

    /// The service over the library that the site ships with.
    pub fn new() -> (service: Self)
        ensures
            service@ == seed_library(),
            library_consistent(service@),
            forall|i: int| 0 <= i < service@.len() ==> (#[trigger] service@[i]).well_formed(),
    {
        proof {
            lemma_seed_library_consistent();
        }
        Self::from_library(Self::generate_fake_library())
    }

    /// The first book with the id `book_id`.
    pub fn get_book(&self, book_id: u32) -> (found: Option<&Book>)
        ensures
            found.deep_view() == find_book(self@, book_id),
            found matches Some(book) ==> book.id == book_id,
            found is None <==> forall|i: int|
                0 <= i < self@.len() ==> (#[trigger] self@[i]).id != book_id,
    {
        proof {
            lemma_find_book_none(self@, book_id);
        }
        let mut i: usize = 0;
        while i < self.library.len()
            invariant
                i <= self.library.len(),
                forall|j: int| 0 <= j < i ==> (#[trigger] self@[j]).id != book_id,
            decreases self.library.len() - i,
        {
            if self.library[i].id == book_id {
                proof {
                    lemma_find_book_first(self@, book_id, i as int);
                }
                return Some(&self.library[i]);
            }
            i += 1;
        }
        None
    }

    /// The first page with the id `page_id` in the book `book_id`: nothing if
    /// there is no such book, or no such page in it.
    pub fn get_page(&self, book_id: u32, page_id: u32) -> (found: Option<&Page>)
        ensures
            found.deep_view() == page_of(self@, book_id, page_id),
            found matches Some(page) ==> page.id == page_id,
    {
        match self.get_book(book_id) {
            Some(book) => book.find_page(page_id),
            None => None,
        }
    }

    /// The page that the book `book_id` starts at: nothing if there is no such
    /// book, or if no page of it carries the id that it starts at.
    pub fn get_starting_page(&self, book_id: u32) -> (found: Option<&Page>)
        ensures
            found.deep_view() == starting_page_of(self@, book_id),
            found matches Some(page) ==> find_book(self@, book_id) matches Some(book) && page.id
                == book.starting_page,
            library_consistent(self@) && find_book(self@, book_id) is Some ==> found is Some,
    {
        proof {
            if library_consistent(self@) {
                lemma_found_book_starts(self@, book_id);
            }
        }
        match self.get_book(book_id) {
            Some(book) => book.find_page(book.starting_page),
            None => None,
        }
    }

    /// All books, in the order of the library.
    pub fn get_library(&self) -> (library: &Vec<Book>)
        ensures
            library.deep_view() == self@,
    {
        &self.library
    }

    /// The books that the site ships with.
    pub fn generate_fake_library() -> (library: Vec<Book>)
        ensures
            library.deep_view() == seed_library(),
            library_consistent(library.deep_view()),
            forall|i: int| 0 <= i < library.len() ==> (#[trigger] library[i])@.well_formed(),
    {
        proof {
            lemma_seed_library_consistent();
        }
        let mansion_pages = vec![
            fork_page(
                101,
                "You stand before a creaky old mansion. Do you:",
                "Enter through the front door",
                102,
                "Sneak around to the back",
                103,
            ),
            fork_page(
                102,
                "The front door creaks open. Inside is a dark hallway. Do you:",
                "Light a match and explore",
                104,
                "Feel your way in the dark",
                105,
            ),
            fork_page(
                103,
                "You find a broken window at the back. Do you:",
                "Climb through carefully",
                106,
                "Look for another way in",
                101,
            ),
            fork_page(
                104,
                "The match flickers, revealing a grand staircase. Do you:",
                "Go upstairs",
                107,
                "Check the parlor",
                108,
            ),
            fork_page(
                105,
                "You stumble in the dark and hear a creak behind you. Do you:",
                "Turn around slowly",
                109,
                "Run forward blindly",
                110,
            ),
            fork_page(
                106,
                "You're in a dusty kitchen. A rat scurries by. Do you:",
                "Search the cabinets",
                111,
                "Exit through the pantry",
                112,
            ),
            fork_page(
                107,
                "At the top of the stairs, you see two doors. Do you:",
                "Enter the left door",
                113,
                "Enter the right door",
                114,
            ),
            fork_page(
                108,
                "The parlor has a strange painting. It seems to be watching you. Do you:",
                "Examine the painting",
                115,
                "Ignore it and look around",
                116,
            ),
            ending_page(109, "The story ends here."),
            ending_page(110, "The story ends here."),
            ending_page(111, "The story ends here."),
            ending_page(112, "The story ends here."),
            ending_page(113, "The story ends here."),
            ending_page(114, "The story ends here."),
            ending_page(115, "The story ends here."),
            ending_page(116, "The story ends here."),
        ];
        assert(mansion_pages.deep_view() =~= haunted_mansion().pages);
        let mansion = Book {
            id: 1,
            title: "The Haunted Mansion".to_string(),
            summary: "Explore a spooky mansion full of secrets".to_string(),
            starting_page: 101,
            pages: mansion_pages,
        };
        let station_pages = vec![
            fork_page(
                201,
                "The space station alarms are blaring! Do you:",
                "Head to the control room",
                202,
                "Check the engineering bay",
                203,
            ),
            fork_page(
                202,
                "You reach the control room. The main console is sparking! Do you:",
                "Attempt to repair it",
                204,
                "Call for help on the comms",
                205,
            ),
            fork_page(
                203,
                "In engineering, you see a coolant leak. Do you:",
                "Try to seal the leak",
                206,
                "Evacuate the area",
                207,
            ),
            ending_page(204, "The story ends here."),
            ending_page(205, "The story ends here."),
            ending_page(206, "The story ends here."),
            ending_page(207, "The story ends here."),
        ];
        assert(station_pages.deep_view() =~= space_station_omega().pages);
        let station = Book {
            id: 2,
            title: "Space Station Omega".to_string(),
            summary: "A sci-fi adventure in deep space".to_string(),
            starting_page: 201,
            pages: station_pages,
        };
        let library = vec![mansion, station];
        assert(library.deep_view() =~= seed_library());
        library
    }
}

} // verus!
