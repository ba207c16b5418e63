use storybuilder::models::book::{Book, Choice, Page};
use storybuilder::services::book_service::BookService;

fn page_ids(book: &Book) -> Vec<u32> {
    book.pages.iter().map(|page| page.id).collect()
}

fn targets(page: &Page) -> Vec<u32> {
    page.choices.iter().map(|choice| choice.target_page_id).collect()
}

#[test]
fn library_holds_two_books_in_order() {
    let service = BookService::new();
    let library = service.get_library();
    assert_eq!(library.len(), 2);
    assert_eq!(library[0].id, 1);
    assert_eq!(library[0].title, "The Haunted Mansion");
    assert_eq!(library[0].summary, "Explore a spooky mansion full of secrets");
    assert_eq!(library[0].starting_page, 101);
    assert_eq!(library[1].id, 2);
    assert_eq!(library[1].title, "Space Station Omega");
    assert_eq!(library[1].summary, "A sci-fi adventure in deep space");
    assert_eq!(library[1].starting_page, 201);
}

#[test]
fn library_pages_are_those_of_the_seed() {
    let library = BookService::generate_fake_library();
    assert_eq!(page_ids(&library[0]), (101..=116).collect::<Vec<u32>>());
    assert_eq!(page_ids(&library[1]), (201..=207).collect::<Vec<u32>>());
    let all: Vec<Vec<u32>> = library[0].pages.iter().map(targets).collect();
    let mut expected = vec![
        vec![102, 103],
        vec![104, 105],
        vec![106, 101],
        vec![107, 108],
        vec![109, 110],
        vec![111, 112],
        vec![113, 114],
        vec![115, 116],
    ];
    expected.resize(16, Vec::new());
    assert_eq!(all, expected);
    let all: Vec<Vec<u32>> = library[1].pages.iter().map(targets).collect();
    let mut expected = vec![vec![202, 203], vec![204, 205], vec![206, 207]];
    expected.resize(7, Vec::new());
    assert_eq!(all, expected);
}

#[test]
fn library_stories_end_on_pages_without_choices() {
    let service = BookService::new();
    for (book_id, ids) in [(1, 109..=116), (2, 204..=207)] {
        for id in ids {
            let page = service.get_page(book_id, id).expect("an ending");
            assert_eq!(page.id, id);
            assert_eq!(page.content, "The story ends here.");
            assert!(page.choices.is_empty());
        }
    }
}

#[test]
fn library_texts_are_those_of_the_seed() {
    let library = BookService::generate_fake_library();
    let first = &library[0].pages[0];
    assert_eq!(first.content, "You stand before a creaky old mansion. Do you:");
    assert_eq!(first.choices[0].text, "Enter through the front door");
    assert_eq!(first.choices[1].text, "Sneak around to the back");
    let last = &library[0].pages[7];
    assert_eq!(
        last.content,
        "The parlor has a strange painting. It seems to be watching you. Do you:"
    );
    assert_eq!(last.choices[0].text, "Examine the painting");
    assert_eq!(last.choices[1].text, "Ignore it and look around");
    let kitchen = &library[0].pages[5];
    assert_eq!(kitchen.content, "You're in a dusty kitchen. A rat scurries by. Do you:");
    let console = &library[1].pages[1];
    assert_eq!(
        console.content,
        "You reach the control room. The main console is sparking! Do you:"
    );
    assert_eq!(console.choices[1].text, "Call for help on the comms");
    let leak = &library[1].pages[2];
    assert_eq!(leak.content, "In engineering, you see a coolant leak. Do you:");
    assert_eq!(leak.choices[0].text, "Try to seal the leak");
    assert_eq!(leak.choices[1].text, "Evacuate the area");
}

#[test]
fn get_book_finds_each_book_by_id() {
    let service = BookService::new();
    assert_eq!(service.get_book(1).map(|book| book.title.as_str()), Some("The Haunted Mansion"));
    assert_eq!(service.get_book(2).map(|book| book.title.as_str()), Some("Space Station Omega"));
}

#[test]
fn get_book_of_unknown_id_is_none() {
    let service = BookService::new();
    assert!(service.get_book(0).is_none());
    assert!(service.get_book(3).is_none());
    assert!(service.get_book(101).is_none());
    assert!(service.get_book(u32::MAX).is_none());
}

#[test]
fn get_page_finds_a_page_of_its_book() {
    let service = BookService::new();
    let page = service.get_page(1, 104).expect("page 104 of book 1");
    assert_eq!(page.id, 104);
    assert_eq!(page.content, "The match flickers, revealing a grand staircase. Do you:");
    assert_eq!(targets(page), vec![107, 108]);
    let page = service.get_page(2, 203).expect("page 203 of book 2");
    assert_eq!(page.id, 203);
}

#[test]
fn get_page_is_none_without_book_or_page() {
    let service = BookService::new();
    assert!(service.get_page(3, 101).is_none());
    assert!(service.get_page(1, 999).is_none());
    assert!(service.get_page(1, 201).is_none());
    assert!(service.get_page(2, 101).is_none());
    assert!(service.get_page(1, 117).is_none());
    assert!(service.get_page(1, 100).is_none());
    assert!(service.get_page(2, 208).is_none());
}

#[test]
fn get_starting_page_has_the_id_that_each_book_starts_at() {
    let service = BookService::new();
    for book in service.get_library() {
        let page = service.get_starting_page(book.id).expect("a starting page");
        assert_eq!(page.id, book.starting_page);
    }
    assert_eq!(service.get_starting_page(1).map(|page| page.id), Some(101));
    assert_eq!(service.get_starting_page(2).map(|page| page.id), Some(201));
}

#[test]
fn get_starting_page_of_unknown_book_is_none() {
    let service = BookService::new();
    assert!(service.get_starting_page(7).is_none());
}

#[test]
fn each_book_has_exactly_one_starting_page_and_ids_differ() {
    let library = BookService::generate_fake_library();
    for book in &library {
        let starts = book.pages.iter().filter(|page| page.id == book.starting_page).count();
        assert_eq!(starts, 1);
    }
    assert_ne!(library[0].id, library[1].id);
}

#[test]
fn every_choice_of_the_seed_leads_to_a_page_of_its_book() {
    let service = BookService::new();
    for book in service.get_library() {
        for page in &book.pages {
            for choice in &page.choices {
                let target = service.get_page(book.id, choice.target_page_id);
                assert_eq!(target.map(|page| page.id), Some(choice.target_page_id));
            }
        }
    }
    let page = service.get_page(1, 105).expect("page 105 of book 1");
    assert_eq!(targets(page), vec![109, 110]);
    assert_eq!(service.get_page(1, 109).map(|page| page.id), Some(109));
    assert_eq!(service.get_page(1, 110).map(|page| page.id), Some(110));
    assert!(service.get_page(2, 109).is_none());
}

#[test]
fn a_cloned_service_reads_the_same_library() {
    let service = BookService::new();
    let copy = service.clone();
    assert_eq!(copy.get_library().len(), service.get_library().len());
    assert_eq!(copy.get_page(2, 202).map(|page| page.id), Some(202));
}

fn page(id: u32, targets: &[u32]) -> Page {
    Page {
        id,
        content: format!("page {}", id),
        choices: targets
            .iter()
            .map(|target| Choice { text: format!("to {}", target), target_page_id: *target })
            .collect(),
    }
}

fn book(starting_page: u32, pages: Vec<Page>) -> Book {
    Book { id: 9, title: "t".to_string(), summary: "s".to_string(), pages, starting_page }
}

#[test]
fn find_page_is_the_first_page_with_the_id() {
    let mut first = page(1, &[2]);
    first.content = "first".to_string();
    let mut second = page(1, &[]);
    second.content = "second".to_string();
    let book = book(1, vec![page(2, &[1]), first, second]);
    assert_eq!(book.find_page(1).map(|page| page.content.as_str()), Some("first"));
    assert_eq!(book.find_page(2).map(|page| page.id), Some(2));
    assert!(book.find_page(3).is_none());
}

#[test]
fn a_closed_book_with_one_start_is_well_formed() {
    let book = book(1, vec![page(1, &[2, 3]), page(2, &[1]), page(3, &[])]);
    assert!(book.has_unique_start());
    assert!(book.links_resolve());
    assert!(book.is_well_formed());
}

#[test]
fn a_book_without_its_starting_page_is_not_well_formed() {
    let none = book(1, vec![]);
    assert!(!none.has_unique_start());
    assert!(none.links_resolve());
    assert!(!none.is_well_formed());
    let elsewhere = book(7, vec![page(1, &[2]), page(2, &[1])]);
    assert!(!elsewhere.has_unique_start());
    assert!(elsewhere.links_resolve());
    assert!(!elsewhere.is_well_formed());
}

#[test]
fn a_book_with_two_starting_pages_is_not_well_formed() {
    let book = book(1, vec![page(1, &[2]), page(2, &[1]), page(1, &[])]);
    assert!(!book.has_unique_start());
    assert!(book.links_resolve());
    assert!(!book.is_well_formed());
    let adjacent = self::book(1, vec![page(1, &[]), page(1, &[])]);
    assert!(!adjacent.has_unique_start());
}

#[test]
fn a_book_with_a_choice_that_leads_nowhere_is_not_well_formed() {
    let book = book(1, vec![page(1, &[2]), page(2, &[1, 3])]);
    assert!(book.has_unique_start());
    assert!(!book.links_resolve());
    assert!(!book.is_well_formed());
}

#[test]
fn the_seed_books_are_well_formed() {
    for book in BookService::generate_fake_library() {
        assert!(book.has_unique_start());
        assert!(book.links_resolve());
        assert!(book.is_well_formed());
    }
    for book in BookService::new().get_library() {
        assert!(book.is_well_formed());
    }
}

#[test]
fn from_library_serves_the_books_it_was_given() {
    let mut second = book(2, vec![page(2, &[])]);
    second.title = "second".to_string();
    let service = BookService::from_library(vec![book(1, vec![page(1, &[])]), second]);
    assert_eq!(service.get_library().len(), 2);
    assert_eq!(service.get_book(9).map(|book| book.title.as_str()), Some("t"));
    assert_eq!(service.get_starting_page(9).map(|page| page.id), Some(1));
    assert!(service.get_page(9, 2).is_none());
    let empty = BookService::from_library(Vec::new());
    assert!(empty.get_library().is_empty());
    assert!(empty.get_book(1).is_none());
    assert!(empty.get_starting_page(1).is_none());
}

#[test]
fn get_starting_page_of_a_book_without_one_is_none() {
    let service = BookService::from_library(vec![book(5, vec![page(1, &[2]), page(2, &[])])]);
    assert!(service.get_book(9).is_some());
    assert!(service.get_starting_page(9).is_none());
}
