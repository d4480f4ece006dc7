//! Paginated fetching: gathering the complete list of a feed from the pages
//! that the upstream source hands out.
//!
//! The requests themselves are made elsewhere. This module decides, from each
//! answer, whether the list is complete, what to ask for next, or that the
//! whole fetch has failed. It goes on until the upstream says that no page is
//! left, never by how full a page is, and it never yields a partial list.

use vstd::prelude::*;

verus! {

/// Why a fetch was given up.
#[derive(Debug, Clone, Copy, PartialEq, Eq, Structural)]
pub enum FetchError {
    /// The upstream did not answer a page request, or answered with an error.
    Upstream,
    /// A page announced a further page without a cursor to ask for it.
    MissingCursor,
}

/// One page of a feed, as the upstream answered.
pub struct Page<T> {
    /// The items of the page, or nothing where the upstream has no list to
    /// page through.
    pub items: Option<Vec<T>>,
    /// Where the next page starts, if the upstream said so.
    pub next_cursor: Option<String>,
    /// The upstream's word on whether a further page exists.
    pub has_more: bool,
}

/// A fetch under way: the items of the pages read so far, in order.
pub struct Fetch<T> {
    gathered: Vec<T>,
}

/// Where a fetch stands after an answer.
pub enum Progress<T> {
    /// Ask for the page at `cursor` and hand its answer to `fetch`.
    Next { fetch: Fetch<T>, cursor: String },
    /// No page is left: the complete list.
    Complete(Vec<T>),
    /// The fetch is given up; nothing of what was gathered is kept.
    Failed(FetchError),
}

/// `Progress` over mathematical sequences.
pub enum ProgressView<T> {
    Next { gathered: Seq<T>, cursor: Seq<char> },
    Complete(Seq<T>),
    Failed(FetchError),
}

impl<T> View for Fetch<T> {
    type V = Seq<T>;

    closed spec fn view(&self) -> Seq<T> {
        self.gathered@
    }
}

impl<T> View for Progress<T> {
    type V = ProgressView<T>;

    open spec fn view(&self) -> ProgressView<T> {
        match self {
            Progress::Next { fetch, cursor } => ProgressView::Next {
                gathered: fetch@,
                cursor: cursor@,
            },
            Progress::Complete(items) => ProgressView::Complete(items@),
            Progress::Failed(error) => ProgressView::Failed(*error),
        }
    }
}

/// What an answer does to a fetch that has gathered `gathered`.
///
/// A failed request fails the fetch. Where the upstream has no list, the
/// fetch is complete with an empty one, whatever was gathered. Otherwise the
/// page's items are added in order; the fetch is complete when the page says
/// that no more follow, goes on at the page's cursor when it says that more
/// follow, and fails when more are said to follow but no cursor is given.
pub open spec fn after_answer<T>(gathered: Seq<T>, answer: Result<Page<T>, FetchError>)
    -> ProgressView<T> {
    match answer {
        Err(error) => ProgressView::Failed(error),
        Ok(page) => match page.items {
            None => ProgressView::Complete(Seq::empty()),
            Some(items) => if !page.has_more {
                ProgressView::Complete(gathered + items@)
            } else {
                match page.next_cursor {
                    Some(cursor) => ProgressView::Next {
                        gathered: gathered + items@,
                        cursor: cursor@,
                    },
                    None => ProgressView::Failed(FetchError::MissingCursor),
                }
            },
        },
    }
}

/// Where a fetch that has gathered `gathered` stands after the answers
/// `answers`, each asked for as the one before it said. Answers after the
/// fetch is complete or has failed are never asked for, and change nothing.
pub open spec fn after_answers<T>(gathered: Seq<T>, answers: Seq<Result<Page<T>, FetchError>>)
    -> ProgressView<T>
    decreases answers.len(),
{
    if answers.len() == 0 {
        ProgressView::Next { gathered, cursor: Seq::empty() }
    } else {
        match after_answer(gathered, answers.first()) {
            ProgressView::Next { gathered: more, cursor } => if answers.len() == 1 {
                ProgressView::Next { gathered: more, cursor }
            } else {
                after_answers(more, answers.drop_first())
            },
            ended => ended,
        }
    }
}

/// The items of a page; none where it holds no list.
pub open spec fn items_of<T>(page: Page<T>) -> Seq<T> {
    match page.items {
        Some(items) => items@,
        None => Seq::empty(),
    }
}

/// The items of all `pages`, in order.
pub open spec fn all_items<T>(pages: Seq<Page<T>>) -> Seq<T>
    decreases pages.len(),
{
    if pages.len() == 0 {
        Seq::empty()
    } else {
        items_of(pages.first()) + all_items(pages.drop_first())
    }
}

impl<T> Fetch<T> {
    /// A fetch that has read no page yet. The first page is asked for
    /// without a cursor.
    pub fn begin() -> (fetch: Fetch<T>)
        ensures
            fetch@ == Seq::<T>::empty(),
    {
        Fetch { gathered: Vec::new() }
    }

    /// Takes the answer to the page request last asked for.
    pub fn answer(self, answer: Result<Page<T>, FetchError>) -> (progress: Progress<T>)
        ensures
            progress@ == after_answer(self@, answer),
    {
        match answer {
            Err(error) => Progress::Failed(error),
            Ok(page) => {
                let Page { items, next_cursor, has_more } = page;
                match items {
                    None => Progress::Complete(Vec::new()),
                    Some(items) => {
                        let mut gathered = self.gathered;
                        let mut items = items;
                        gathered.append(&mut items);
                        if !has_more {
                            Progress::Complete(gathered)
                        } else {
                            match next_cursor {
                                Some(cursor) => Progress::Next { fetch: Fetch { gathered }, cursor },
                                None => Progress::Failed(FetchError::MissingCursor),
                            }
                        }
                    },
                }
            },
        }
    }
}

/// The answers of an upstream that hands out `pages` without failing.
pub open spec fn answered<T>(pages: Seq<Page<T>>) -> Seq<Result<Page<T>, FetchError>> {
    Seq::new(pages.len(), |i: int| Ok(pages[i]))
}

/// Pagination terminates with the whole list. Where the upstream answers with
/// pages that each hold a list, of which all but the last announce a further
/// page and give its cursor, and the last announces none, the fetch goes on
/// after every page but the last, is complete at the last, and yields the
/// items of all pages, in order, whatever the sizes of the pages are.
pub proof fn lemma_fetch_gathers_all_pages<T>(gathered: Seq<T>, pages: Seq<Page<T>>)
    requires
        pages.len() >= 1,
        forall|i: int| 0 <= i < pages.len() ==> (#[trigger] pages[i]).items is Some,
        forall|i: int|
            0 <= i < pages.len() - 1 ==> (#[trigger] pages[i]).has_more
                && pages[i].next_cursor is Some,
        !pages.last().has_more,
    ensures
        after_answers(gathered, answered(pages)) == ProgressView::Complete(
            gathered + all_items(pages),
        ),
        forall|n: int|
            1 <= n < pages.len() ==> after_answers(gathered, answered(#[trigger] pages.take(n)))
                is Next,
    decreases pages.len(),
{
    let answers = answered(pages);
    if pages.len() == 1 {
        assert(all_items(pages.drop_first()) =~= Seq::empty());
        assert(pages.first() == pages.last());
        assert(pages[0].items is Some);
        assert(gathered + all_items(pages) =~= gathered + items_of(pages.first()));
    } else {
        let more = gathered + items_of(pages.first());
        let rest = pages.drop_first();
        assert(pages[0].has_more && pages[0].next_cursor is Some && pages[0].items is Some);
        assert(rest.last() == pages.last());
        assert forall|i: int| 0 <= i < rest.len() implies (#[trigger] rest[i]).items is Some by {
            assert(rest[i] == pages[i + 1]);
        }
        assert forall|i: int| 0 <= i < rest.len() - 1 implies (#[trigger] rest[i]).has_more
            && rest[i].next_cursor is Some by {
            assert(rest[i] == pages[i + 1]);
        }
        lemma_fetch_gathers_all_pages(more, rest);
        assert(answers.drop_first() =~= answered(rest));
        assert(more + all_items(rest) =~= gathered + all_items(pages));
        assert forall|n: int| 1 <= n < pages.len() implies after_answers(
            gathered,
            answered(#[trigger] pages.take(n)),
        ) is Next by {
            let head = answered(pages.take(n));
            assert(head.first() == Ok::<Page<T>, FetchError>(pages.first()));
            if n > 1 {
                assert(pages.take(n).drop_first() =~= rest.take(n - 1));
                assert(head.drop_first() =~= answered(rest.take(n - 1)));
            }
        }
    }
}

} // verus!
