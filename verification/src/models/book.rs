//! Books, their pages, and the choices that lead from page to page.

use vstd::prelude::*;

verus! {

/// A labelled edge from one page to another page of the same book.
#[derive(Debug, Clone)]
pub struct Choice {
    pub text: String,
    pub target_page_id: u32,
}

/// One page of a book: its text and the choices offered at its end.
#[derive(Debug, Clone)]
pub struct Page {
    pub id: u32,
    pub content: String,
    pub choices: Vec<Choice>,
}

/// A book: a directed graph of pages, entered at `starting_page`.
#[derive(Debug, Clone)]
pub struct Book {
    pub id: u32,
    pub title: String,
    pub summary: String,
    pub pages: Vec<Page>,
    pub starting_page: u32,
}

/// The mathematical value of a [`Choice`].
pub struct ChoiceView {
    pub text: Seq<char>,
    pub target_page_id: u32,
}

/// The mathematical value of a [`Page`].
pub struct PageView {
    pub id: u32,
    pub content: Seq<char>,
    pub choices: Seq<ChoiceView>,
}

/// The mathematical value of a [`Book`].
pub struct BookView {
    pub id: u32,
    pub title: Seq<char>,
    pub summary: Seq<char>,
    pub pages: Seq<PageView>,
    pub starting_page: u32,
}

impl View for Choice {
    type V = ChoiceView;

    open spec fn view(&self) -> ChoiceView {
        ChoiceView { text: self.text@, target_page_id: self.target_page_id }
    }
}

impl DeepView for Choice {
    type V = ChoiceView;

    open spec fn deep_view(&self) -> ChoiceView {
        self@
    }
}

impl View for Page {
    type V = PageView;

    open spec fn view(&self) -> PageView {
        PageView { id: self.id, content: self.content@, choices: self.choices.deep_view() }
    }
}

impl DeepView for Page {
    type V = PageView;

    open spec fn deep_view(&self) -> PageView {
        self@
    }
}

impl View for Book {
    type V = BookView;

    open spec fn view(&self) -> BookView {
        BookView {
            id: self.id,
            title: self.title@,
            summary: self.summary@,
            pages: self.pages.deep_view(),
            starting_page: self.starting_page,
        }
    }
}

impl DeepView for Book {
    type V = BookView;

    open spec fn deep_view(&self) -> BookView {
        self@
    }
}

/// The first page of `pages` whose id is `page_id`, if there is one.
pub open spec fn find_page(pages: Seq<PageView>, page_id: u32) -> Option<PageView>
    decreases pages.len(),
{
    if pages.len() == 0 {
        None
    } else if pages[0].id == page_id {
        Some(pages[0])
    } else {
        find_page(pages.drop_first(), page_id)
    }
}

impl BookView {
    /// Exactly one page carries the id that the book starts at.
    pub open spec fn has_unique_start(self) -> bool {
        exists|i: int|
            0 <= i < self.pages.len() && #[trigger] self.pages[i].id == self.starting_page
                && forall|j: int|
                0 <= j < self.pages.len() && #[trigger] self.pages[j].id == self.starting_page
                    ==> j == i
    }

    /// Every choice of every page leads to a page of this book.
    pub open spec fn links_resolve(self) -> bool {
        forall|i: int, k: int|
            0 <= i < self.pages.len() && 0 <= k < self.pages[i].choices.len() ==> find_page(
                self.pages,
                (#[trigger] self.pages[i].choices[k]).target_page_id,
            ) is Some
    }

    /// The invariant of a book: one starting page, and no choice that leads nowhere.
    pub open spec fn well_formed(self) -> bool {
        self.has_unique_start() && self.links_resolve()
    }
}

/// `find_page` returns the page at `i` when that is the first page with the id.
pub proof fn lemma_find_page_first(pages: Seq<PageView>, page_id: u32, i: int)
    requires
        0 <= i < pages.len(),
        pages[i].id == page_id,
        forall|j: int| 0 <= j < i ==> (#[trigger] pages[j]).id != page_id,
    ensures
        find_page(pages, page_id) == Some(pages[i]),
    decreases i,
{
    if i > 0 {
        let rest = pages.drop_first();
        assert forall|j: int| 0 <= j < i - 1 implies (#[trigger] rest[j]).id != page_id by {
            assert(rest[j] == pages[j + 1]);
        }
        lemma_find_page_first(rest, page_id, i - 1);
    }
}

/// `find_page` returns nothing exactly when no page carries the id.
pub proof fn lemma_find_page_none(pages: Seq<PageView>, page_id: u32)
    ensures
        find_page(pages, page_id) is None <==> forall|j: int|
            0 <= j < pages.len() ==> (#[trigger] pages[j]).id != page_id,
        find_page(pages, page_id) matches Some(p) ==> p.id == page_id && pages.contains(p),
    decreases pages.len(),
{
    if pages.len() > 0 {
        let rest = pages.drop_first();
        lemma_find_page_none(rest, page_id);
        if pages[0].id != page_id {
            assert forall|j: int| 0 <= j < rest.len() implies (#[trigger] rest[j]).id
                != page_id <==> pages[j + 1].id != page_id by {
                assert(rest[j] == pages[j + 1]);
            }
            if find_page(rest, page_id) is None {
                assert forall|j: int| 0 <= j < pages.len() implies (#[trigger] pages[j]).id
                    != page_id by {
                    if j > 0 {
                        assert(rest[j - 1] == pages[j]);
                    }
                }
            } else {
                let p = find_page(rest, page_id)->0;
                let k = choose|k: int| 0 <= k < rest.len() && rest[k] == p;
                assert(pages[k + 1] == p);
            }
        } else {
            assert(pages[0] == pages[0]);
        }
    }
}

impl Book {
    /// The first page of the book with the id `page_id`.
    pub fn find_page(&self, page_id: u32) -> (found: Option<&Page>)
        ensures
            found.deep_view() == find_page(self@.pages, page_id),
            found matches Some(page) ==> page.id == page_id,
            found is None <==> forall|j: int|
                0 <= j < self@.pages.len() ==> (#[trigger] self@.pages[j]).id != page_id,
    {
        proof {
            lemma_find_page_none(self@.pages, page_id);
        }
        let mut i: usize = 0;
        while i < self.pages.len()
            invariant
                i <= self.pages.len(),
                forall|j: int| 0 <= j < i ==> (#[trigger] self@.pages[j]).id != page_id,
            decreases self.pages.len() - i,
        {
            if self.pages[i].id == page_id {
                proof {
                    lemma_find_page_first(self@.pages, page_id, i as int);
                }
                return Some(&self.pages[i]);
            }
            i += 1;
        }
        None
    }

    /// Whether exactly one page carries the id that the book starts at.
    pub fn has_unique_start(&self) -> (unique: bool)
        ensures
            unique == self@.has_unique_start(),
    {
        let count = self.pages.len();
        let mut first: usize = 0;
        while first < count && self.pages[first].id != self.starting_page
            invariant
                first <= count == self.pages.len(),
                forall|j: int|
                    0 <= j < first ==> (#[trigger] self@.pages[j]).id != self.starting_page,
            decreases count - first,
        {
            first += 1;
        }
        if first == count {
            return false;
        }
        assert(self@.pages[first as int].id == self.starting_page);
        let mut i: usize = first + 1;
        while i < count
            invariant
                first < i <= count == self.pages.len(),
                self@.pages[first as int].id == self.starting_page,
                forall|j: int|
                    0 <= j < i && (#[trigger] self@.pages[j]).id == self.starting_page ==> j
                        == first,
            decreases count - i,
        {
            if self.pages[i].id == self.starting_page {
                assert(self@.pages[i as int].id == self.starting_page);
                return false;
            }
            i += 1;
        }
        true
    }

    /// Whether every choice of every page leads to a page of this book.
    pub fn links_resolve(&self) -> (closed: bool)
        ensures
            closed == self@.links_resolve(),
    {
        let mut i: usize = 0;
        while i < self.pages.len()
            invariant
                i <= self.pages.len(),
                forall|a: int, k: int|
                    0 <= a < i && 0 <= k < self@.pages[a].choices.len() ==> find_page(
                        self@.pages,
                        (#[trigger] self@.pages[a].choices[k]).target_page_id,
                    ) is Some,
            decreases self.pages.len() - i,
        {
            let page = &self.pages[i];
            assert(page@ == self@.pages[i as int]);
            let mut k: usize = 0;
            while k < page.choices.len()
                invariant
                    i < self.pages.len(),
                    k <= page.choices.len(),
                    page@ == self@.pages[i as int],
                    forall|a: int, b: int|
                        0 <= a < i && 0 <= b < self@.pages[a].choices.len() ==> find_page(
                            self@.pages,
                            (#[trigger] self@.pages[a].choices[b]).target_page_id,
                        ) is Some,
                    forall|b: int|
                        0 <= b < k ==> find_page(
                            self@.pages,
                            (#[trigger] self@.pages[i as int].choices[b]).target_page_id,
                        ) is Some,
                decreases page.choices.len() - k,
            {
                assert(page.choices[k as int]@ == self@.pages[i as int].choices[k as int]);
                if self.find_page(page.choices[k].target_page_id).is_none() {
                    return false;
                }
                k += 1;
            }
            i += 1;
        }
        true
    }

    /// Whether the book keeps its invariant: one starting page, and no
    /// choice that leads nowhere.
    pub fn is_well_formed(&self) -> (sound: bool)
        ensures
            sound == self@.well_formed(),
    {
        let unique = self.has_unique_start();
        let closed = self.links_resolve();
        unique && closed
    }
}

/// The first book of `library` whose id is `book_id`, if there is one.
pub open spec fn find_book(library: Seq<BookView>, book_id: u32) -> Option<BookView>
    decreases library.len(),
{
    if library.len() == 0 {
        None
    } else if library[0].id == book_id {
        Some(library[0])
    } else {
        find_book(library.drop_first(), book_id)
    }
}

/// The page `page_id` of the book `book_id`: nothing if the library has no
/// such book, or the book no such page.
pub open spec fn page_of(library: Seq<BookView>, book_id: u32, page_id: u32) -> Option<PageView> {
    match find_book(library, book_id) {
        Some(book) => find_page(book.pages, page_id),
        None => None,
    }
}

/// The page that the book `book_id` starts at.
pub open spec fn starting_page_of(library: Seq<BookView>, book_id: u32) -> Option<PageView> {
    match find_book(library, book_id) {
        Some(book) => find_page(book.pages, book.starting_page),
        None => None,
    }
}

/// What a library is loaded as: no two books share an id, and each book
/// keeps its invariant, with exactly one page to start at and no choice that
/// leads nowhere.
pub open spec fn library_consistent(library: Seq<BookView>) -> bool {
    &&& forall|i: int, j: int|
        0 <= i < library.len() && 0 <= j < library.len() && (#[trigger] library[i]).id == (
        #[trigger] library[j]).id ==> i == j
    &&& forall|i: int| 0 <= i < library.len() ==> (#[trigger] library[i]).well_formed()
}

/// Every page of `pages` is found under its own id.
pub proof fn lemma_page_is_found(pages: Seq<PageView>, i: int)
    requires
        0 <= i < pages.len(),
    ensures
        find_page(pages, pages[i].id) is Some,
{
    lemma_find_page_none(pages, pages[i].id);
}

/// In a consistent library every choice of every page leads to a page of
/// the same book: whichever choice a reader takes, the page is there.
pub proof fn lemma_choice_leads_to_page(library: Seq<BookView>, b: int, p: int, c: int)
    requires
        library_consistent(library),
        0 <= b < library.len(),
        0 <= p < library[b].pages.len(),
        0 <= c < library[b].pages[p].choices.len(),
    ensures
        page_of(library, library[b].id, library[b].pages[p].choices[c].target_page_id) is Some,
{
    lemma_find_book_first(library, library[b].id, b);
    assert(library[b].well_formed());
}

/// `find_book` returns the book at `i` when that is the first book with the id.
pub proof fn lemma_find_book_first(library: Seq<BookView>, book_id: u32, i: int)
    requires
        0 <= i < library.len(),
        library[i].id == book_id,
        forall|j: int| 0 <= j < i ==> (#[trigger] library[j]).id != book_id,
    ensures
        find_book(library, book_id) == Some(library[i]),
    decreases i,
{
    if i > 0 {
        let rest = library.drop_first();
        assert forall|j: int| 0 <= j < i - 1 implies (#[trigger] rest[j]).id != book_id by {
            assert(rest[j] == library[j + 1]);
        }
        lemma_find_book_first(rest, book_id, i - 1);
    }
}

/// `find_book` returns nothing exactly when no book carries the id, and
/// otherwise a book of the library that carries it.
pub proof fn lemma_find_book_none(library: Seq<BookView>, book_id: u32)
    ensures
        find_book(library, book_id) is None <==> forall|j: int|
            0 <= j < library.len() ==> (#[trigger] library[j]).id != book_id,
        find_book(library, book_id) matches Some(b) ==> b.id == book_id && library.contains(b),
    decreases library.len(),
{
    if library.len() > 0 {
        let rest = library.drop_first();
        lemma_find_book_none(rest, book_id);
        if library[0].id != book_id {
            if find_book(rest, book_id) is None {
                assert forall|j: int| 0 <= j < library.len() implies (#[trigger] library[j]).id
                    != book_id by {
                    if j > 0 {
                        assert(rest[j - 1] == library[j]);
                    }
                }
            } else {
                let b = find_book(rest, book_id)->0;
                let k = choose|k: int| 0 <= k < rest.len() && rest[k] == b;
                assert(library[k + 1] == b);
                assert(rest[k] == library[k + 1]);
            }
        } else {
            assert(library[0] == library[0]);
        }
    }
}

/// In a consistent library every book is found under its own id, and its
/// starting page is found and carries the id that the book starts at.
pub proof fn lemma_starting_page_exists(library: Seq<BookView>, i: int)
    requires
        library_consistent(library),
        0 <= i < library.len(),
    ensures
        find_book(library, library[i].id) == Some(library[i]),
        starting_page_of(library, library[i].id) matches Some(page) && page.id
            == library[i].starting_page,
{
    let book = library[i];
    lemma_find_book_first(library, book.id, i);
    lemma_find_page_none(book.pages, book.starting_page);
    assert(book.well_formed());
}

/// In a consistent library every book that is found has its starting
/// page.
pub proof fn lemma_found_book_starts(library: Seq<BookView>, book_id: u32)
    requires
        library_consistent(library),
    ensures
        find_book(library, book_id) is Some ==> starting_page_of(library, book_id) is Some,
{
    lemma_find_book_none(library, book_id);
    if find_book(library, book_id) is Some {
        let book = find_book(library, book_id)->0;
        let i = choose|i: int| 0 <= i < library.len() && library[i] == book;
        lemma_starting_page_exists(library, i);
    }
}

} // verus!
