//! Pages of a search.

use vstd::prelude::*;

use crate::line::LogItem;
use crate::page::{
    filled, law_page_holds_what_is_found, law_page_is_the_first_items_left, wanted, LogPage,
    LogPageView,
};
use crate::search::{run, LineRead, LogIterator, LogIteratorView};

verus! {

/// A new page is empty and has the limit that was asked for.
pub proof fn law_new_pages_are_empty(limit: usize, page: LogPage)
    requires
        call_ensures(LogPage::new, (limit,), page),
    ensures
        page@.limit == limit,
        page@.items.len() == 0,
{
}

/// A page is full once it holds as many items as its limit says, but not while it is empty.
pub proof fn law_pages_are_full_at_their_limit(page: LogPage, full: bool)
    requires
        call_ensures(LogPage::is_full, (&page,), full),
    ensures
        page@.items.len() == 0 ==> !full,
        page@.items.len() > 0 && page@.items.len() < page@.limit ==> !full,
        page@.items.len() > 0 && page@.items.len() >= page@.limit ==> full,
{
}

/// A page takes over what the search finds, behind what it holds, and nothing
/// else; the search goes on as it does without the page.
pub proof fn law_pages_take_over_what_is_found<F>(
    page: &mut LogPage,
    search: &mut LogIterator<F>,
    alone: &mut LogIterator<F>,
    read: LineRead,
    found: Option<LogItem>,
)
    requires
        call_ensures(LogPage::advance::<F>, (page, search, read), ()),
        call_ensures(LogIterator::<F>::advance, (alone, read), found),
        old(alone)@ == old(search)@,
    ensures
        final(search)@ == final(alone)@,
        final(page)@.limit == old(page)@.limit,
        found matches Some(item) ==> final(page)@.items == old(page)@.items + seq![item@],
        found is None ==> final(page)@.items == old(page)@.items,
{
}

/// The items of a page are handed out as they were found.
pub proof fn law_items_are_handed_out(page: LogPage, items: Vec<LogItem>)
    requires
        call_ensures(LogPage::into_items, (page,), items),
    ensures
        items@.len() == page@.items.len(),
        forall|i: int| 0 <= i < items@.len() ==> (#[trigger] items@[i])@ == page@.items[i],
{
    let views = items@.map_values(|item: LogItem| item@);
    assert forall|i: int| 0 <= i < items@.len() implies (#[trigger] items@[i])@ == page@.items[i] by {
        assert(views[i] == items@[i]@);
    }
}

/// A page that is read until it holds as many items as its limit says, or until
/// the search is over, holds exactly the first of the items that are left: as
/// many as the limit, at least one, and no more than there are. The others stay.
pub proof fn law_pages_hold_as_many_items_as_asked<F>(
    limit: nat,
    search: LogIteratorView<F>,
    reads: Seq<LineRead>,
    rest: Seq<LineRead>,
)
    requires
        wanted(LogPageView { limit, items: Seq::empty() }, search, reads),
        ({
            let (page, after) = filled(LogPageView { limit, items: Seq::empty() }, search, reads);
            page.items.len() > 0 && page.items.len() >= limit || after.current is None
        }),
    ensures
        ({
            let (page, after) = filled(LogPageView { limit, items: Seq::empty() }, search, reads);
            let left = run(search, reads + rest).1;
            let n = page.items.len() as int;
            &&& n <= left.len()
            &&& limit > 0 && limit <= left.len() ==> n == limit
            &&& limit == 0 && left.len() > 0 ==> n == 1
            &&& limit > left.len() ==> n == left.len()
            &&& page.items == left.take(n)
            &&& run(after, rest).1 == left.skip(n)
        }),
{
    law_page_holds_what_is_found(LogPageView { limit, items: Seq::empty() }, search, reads);
    law_page_is_the_first_items_left(limit, search, reads, rest);
    let (page, after) = filled(LogPageView { limit, items: Seq::empty() }, search, reads);
    let left = run(search, reads + rest).1;
    assert(left.len() == page.items.len() + run(after, rest).1.len());
    assert(page.items =~= left.take(page.items.len() as int));
    assert(run(after, rest).1 =~= left.skip(page.items.len() as int));
}

} // verus!
