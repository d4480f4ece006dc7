//! The poll of the list of programmes.
//!
//! The list is read in pages, each asked for by the number of entries before
//! it. Like every fetch, the listing goes on until the upstream says that no
//! page is left, never by how full a page is.

use vstd::prelude::*;

verus! {

/// A listing under way: the handles read so far, and how many entries the
/// pages read so far held.
pub struct Listing {
    gathered: Vec<String>,
    after: usize,
}

/// Where a listing stands after a page.
pub enum ListingProgress {
    /// Ask for the page behind the first `from` entries.
    Next { listing: Listing, from: usize },
    /// The complete list of handles.
    Complete(Vec<String>),
}

/// `ListingProgress` over mathematical values.
pub enum ListingView {
    Next { gathered: Seq<String>, after: int },
    Complete(Seq<String>),
}

/// The handles among the entries of a page, in order. An entry that is no
/// programme has none.
pub open spec fn handles_of(page: Seq<Option<String>>) -> Seq<String>
    decreases page.len(),
{
    if page.len() == 0 {
        Seq::empty()
    } else {
        match page.last() {
            Some(handle) => handles_of(page.drop_last()).push(handle),
            None => handles_of(page.drop_last()),
        }
    }
}

/// What a page does to a listing that has gathered `gathered` from pages of
/// `after` entries: its handles are added; the listing goes on behind the
/// page where the upstream says that more follow, and is complete where it
/// says that none do. It is also complete where the number of entries read no
/// longer fits the machine's integers.
pub open spec fn after_page(
    gathered: Seq<String>,
    after: int,
    page: Seq<Option<String>>,
    has_more: bool,
) -> ListingView {
    if has_more && after + page.len() <= usize::MAX {
        ListingView::Next { gathered: gathered + handles_of(page), after: after + page.len() }
    } else {
        ListingView::Complete(gathered + handles_of(page))
    }
}

/// Where a listing stands after the pages `pages`, each given with the
/// upstream's word on a further page, and each asked for as the one before it
/// said. Pages after the listing is complete are never asked for.
pub open spec fn after_pages(
    gathered: Seq<String>,
    after: int,
    pages: Seq<(Seq<Option<String>>, bool)>,
) -> ListingView
    decreases pages.len(),
{
    if pages.len() == 0 {
        ListingView::Next { gathered, after }
    } else {
        match after_page(gathered, after, pages.first().0, pages.first().1) {
            ListingView::Next { gathered: more, after: behind } => after_pages(
                more,
                behind,
                pages.drop_first(),
            ),
            complete => complete,
        }
    }
}

/// The handles of all `pages`, in order.
pub open spec fn all_handles(pages: Seq<(Seq<Option<String>>, bool)>) -> Seq<String>
    decreases pages.len(),
{
    if pages.len() == 0 {
        Seq::empty()
    } else {
        handles_of(pages.first().0) + all_handles(pages.drop_first())
    }
}

/// The number of entries of all `pages`.
pub open spec fn all_entries(pages: Seq<(Seq<Option<String>>, bool)>) -> int
    decreases pages.len(),
{
    if pages.len() == 0 {
        0
    } else {
        pages.first().0.len() + all_entries(pages.drop_first())
    }
}

impl View for ListingProgress {
    type V = ListingView;

    open spec fn view(&self) -> ListingView {
        match self {
            ListingProgress::Next { listing, from } => ListingView::Next {
                gathered: listing.gathered(),
                after: listing.after(),
            },
            ListingProgress::Complete(handles) => ListingView::Complete(handles@),
        }
    }
}

impl Listing {
    /// The handles gathered so far.
    pub closed spec fn gathered(self) -> Seq<String> {
        self.gathered@
    }

    /// The number of entries of the pages read so far.
    pub closed spec fn after(self) -> int {
        self.after as int
    }

    /// A listing that has read no page yet. The first page is the one behind
    /// no entries.
    pub fn begin() -> (listing: Listing)
        ensures
            listing.gathered() == Seq::<String>::empty(),
            listing.after() == 0,
    {
        Listing { gathered: Vec::new(), after: 0 }
    }

    /// Takes the entries of the page last asked for (for each entry its
    /// handle, or nothing where the entry is no programme) and the
    /// upstream's word on whether a further page exists.
    pub fn answer(self, page: Vec<Option<String>>, has_more: bool) -> (progress: ListingProgress)
        ensures
            progress@ == after_page(self.gathered(), self.after(), page@, has_more),
            progress matches ListingProgress::Next { listing, from } ==> from == listing.after(),
    {
        let Listing { gathered, after } = self;
        let mut gathered = gathered;
        let mut page = page;
        let size = page.len();
        let ghost entries = page@;
        let ghost start = gathered@;
        let mut i: usize = 0;
        assert(entries.take(0) =~= Seq::empty());
        assert(gathered@ =~= start + handles_of(entries.take(0)));
        while i < size
            invariant
                i <= size,
                size == entries.len(),
                page@.len() == size - i,
                forall|k: int| 0 <= k < page@.len() ==> page@[k] == entries[i + k],
                gathered@ == start + handles_of(entries.take(i as int)),
            decreases size - i,
        {
            let entry = page.remove(0);
            proof {
                assert(entry == entries[i as int]);
                assert(entries.take(i + 1).drop_last() =~= entries.take(i as int));
                assert(entries.take(i + 1).last() == entry);
            }
            match entry {
                Some(handle) => {
                    gathered.push(handle);
                    assert(gathered@ =~= start + handles_of(entries.take(i + 1)));
                },
                None => {},
            }
            i += 1;
        }
        assert(entries.take(size as int) =~= entries);
        if has_more && after <= usize::MAX - size {
            ListingProgress::Next { listing: Listing { gathered, after: after + size }, from: after + size }
        } else {
            ListingProgress::Complete(gathered)
        }
    }
}

/// The listing ends on the upstream's word, with the whole list. Where all
/// pages but the last come with the word that more follow, the last with the
/// word that none do, and the entries can be counted, the listing goes on
/// after every page but the last, is complete at the last, and yields the
/// handles of all pages, in order, whatever the sizes of the pages are.
pub proof fn lemma_listing_gathers_all_pages(
    gathered: Seq<String>,
    after: int,
    pages: Seq<(Seq<Option<String>>, bool)>,
)
    requires
        pages.len() >= 1,
        forall|i: int| 0 <= i < pages.len() - 1 ==> (#[trigger] pages[i]).1,
        !pages.last().1,
        0 <= after,
        after + all_entries(pages) <= usize::MAX,
    ensures
        after_pages(gathered, after, pages) == ListingView::Complete(gathered + all_handles(pages)),
        forall|n: int| 1 <= n < pages.len() ==> after_pages(gathered, after, #[trigger] pages.take(n)) is Next,
    decreases pages.len(),
{
    lemma_all_entries_nonnegative(pages.drop_first());
    if pages.len() == 1 {
        assert(all_handles(pages.drop_first()) =~= Seq::empty());
        assert(pages.first() == pages.last());
        assert(gathered + all_handles(pages) =~= gathered + handles_of(pages.first().0));
    } else {
        let more = gathered + handles_of(pages.first().0);
        let behind = after + pages.first().0.len();
        let rest = pages.drop_first();
        assert(pages[0].1);
        assert(rest.last() == pages.last());
        assert forall|i: int| 0 <= i < rest.len() - 1 implies (#[trigger] rest[i]).1 by {
            assert(rest[i] == pages[i + 1]);
        }
        lemma_listing_gathers_all_pages(more, behind, rest);
        assert(more + all_handles(rest) =~= gathered + all_handles(pages));
        assert forall|n: int| 1 <= n < pages.len() implies after_pages(
            gathered,
            after,
            #[trigger] pages.take(n),
        ) is Next by {
            let head = pages.take(n);
            assert(head.first() == pages.first());
            if n > 1 {
                assert(head.drop_first() =~= rest.take(n - 1));
            } else {
                assert(head.drop_first() =~= Seq::empty());
            }
        }
    }
}

/// Pages hold no fewer than no entries.
pub proof fn lemma_all_entries_nonnegative(pages: Seq<(Seq<Option<String>>, bool)>)
    ensures
        all_entries(pages) >= 0,
    decreases pages.len(),
{
    if pages.len() > 0 {
        lemma_all_entries_nonnegative(pages.drop_first());
    }
}

} // verus!
