//! Pages: the items of a log search, so many at a time.

use vstd::prelude::*;

use crate::line::{LogItem, LogItemView};
use crate::search::{
    lemma_run_in_two, read_time_is_read, run, LineRead, LogIterator, LogIteratorView,
};

verus! {

/// A page of a log search while it is filled.
pub struct LogPage {
    limit: usize,
    results: Vec<LogItem>,
}

/// The values of a `LogPage`.
#[verifier::ext_equal]
pub struct LogPageView {
    pub limit: nat,
    pub items: Seq<LogItemView>,
}

impl View for LogPage {
    type V = LogPageView;

    closed spec fn view(&self) -> LogPageView {
        LogPageView {
            limit: self.limit as nat,
            items: self.results@.map_values(|item: LogItem| item@),
        }
    }
}

impl LogPageView {
    /// No more items are wanted. The first one always is.
    pub open spec fn full(self) -> bool {
        self.items.len() > 0 && self.items.len() >= self.limit
    }

    /// The page with what was found, if anything.
    pub open spec fn with(self, item: Option<LogItemView>) -> LogPageView {
        match item {
            Some(item) => LogPageView { items: self.items + seq![item], ..self },
            None => self,
        }
    }
}

impl LogPage {
    /// An empty page that is to hold so many items.
    pub fn new(limit: usize) -> (page: LogPage)
        ensures
            page@ == (LogPageView { limit: limit as nat, items: Seq::empty() }),
    {
        let page: LogPage = LogPage { limit, results: Vec::new() };
        assert(page@ =~= (LogPageView { limit: limit as nat, items: Seq::empty() }));
        page
    }

    /// Whether no more items are wanted.
    pub fn is_full(&self) -> (full: bool)
        ensures
            full == self@.full(),
    {
        self.results.len() > 0 && self.results.len() >= self.limit
    }

    /// Takes in what the current file of the search gave.
    pub fn advance<F>(&mut self, search: &mut LogIterator<F>, read: LineRead)
        requires
            !old(self)@.full(),
        ensures
            final(search)@ == old(search)@.advanced(read).0,
            final(self)@ == old(self)@.with(old(search)@.advanced(read).1),
            old(search)@.current is Some ==> read_time_is_read(read),
    {
        match search.advance(read) {
            Some(item) => {
                self.results.push(item);
                assert(self@.items =~= old(self)@.items + seq![item@]);
            },
            None => {},
        }
    }

    /// The items of the page, in the order in which they were found.
    pub fn into_items(self) -> (items: Vec<LogItem>)
        ensures
            items@.map_values(|item: LogItem| item@) == self@.items,
    {
        self.results
    }
}

/// What a page and the search that it is filled from become over a run of reads.
pub open spec fn filled<F>(
    page: LogPageView,
    search: LogIteratorView<F>,
    reads: Seq<LineRead>,
) -> (LogPageView, LogIteratorView<F>)
    decreases reads.len(),
{
    if reads.len() == 0 {
        (page, search)
    } else {
        let (page, search) = filled(page, search, reads.drop_last());
        let (after, item) = search.advanced(reads.last());
        (page.with(item), after)
    }
}

/// Every read is made while the page still wants items.
pub open spec fn wanted<F>(
    page: LogPageView,
    search: LogIteratorView<F>,
    reads: Seq<LineRead>,
) -> bool {
    forall|k: int| 0 <= k < reads.len() ==> !(#[trigger] filled(page, search, reads.take(k))).0.full()
}

/// A page takes over every item that the search finds while the page is
/// filled, in the order in which they are found, and the search goes on as it
/// does without the page.
pub proof fn law_page_holds_what_is_found<F>(
    page: LogPageView,
    search: LogIteratorView<F>,
    reads: Seq<LineRead>,
)
    ensures
        filled(page, search, reads).0 == (LogPageView {
            items: page.items + run(search, reads).1,
            ..page
        }),
        filled(page, search, reads).1 == run(search, reads).0,
    decreases reads.len(),
{
    if reads.len() == 0 {
        assert(page.items + Seq::<LogItemView>::empty() =~= page.items);
    } else {
        law_page_holds_what_is_found(page, search, reads.drop_last());
        let (between, items) = run(search, reads.drop_last());
        match between.advanced(reads.last()).1 {
            Some(item) => {
                assert((page.items + items) + seq![item] =~= page.items + (items + seq![item]));
            },
            None => {},
        }
    }
}

/// A page that is filled only while it wants items holds no more of them than
/// its limit, or one if the limit is zero.
pub proof fn law_page_keeps_its_limit<F>(
    limit: nat,
    search: LogIteratorView<F>,
    reads: Seq<LineRead>,
)
    requires
        wanted(LogPageView { limit, items: Seq::empty() }, search, reads),
    ensures
        filled(LogPageView { limit, items: Seq::empty() }, search, reads).0.items.len()
            <= page_size(limit),
{
    let page = LogPageView { limit, items: Seq::empty() };
    law_page_holds_what_is_found(page, search, reads);
    if reads.len() > 0 {
        let k = reads.len() - 1;
        assert(reads.take(k) =~= reads.drop_last());
        assert(!filled(page, search, reads.take(k)).0.full());
        law_page_holds_what_is_found(page, search, reads.drop_last());
    }
}

/// Two pages that are filled one after another hold, together, exactly the
/// items that the search finds over both runs of reads: none is lost between
/// them and none comes twice.
pub proof fn law_pages_continue<F>(
    search: LogIteratorView<F>,
    first_limit: nat,
    first: Seq<LineRead>,
    second_limit: nat,
    second: Seq<LineRead>,
)
    ensures
        ({
            let (page, between) = filled(
                LogPageView { limit: first_limit, items: Seq::empty() },
                search,
                first,
            );
            let (next_page, after) = filled(
                LogPageView { limit: second_limit, items: Seq::empty() },
                between,
                second,
            );
            &&& page.items + next_page.items == run(search, first + second).1
            &&& after == run(search, first + second).0
        }),
{
    let empty = Seq::<LogItemView>::empty();
    let (between, items) = run(search, first);
    let (after, more) = run(between, second);
    law_page_holds_what_is_found(
        LogPageView { limit: first_limit, items: empty },
        search,
        first,
    );
    law_page_holds_what_is_found(
        LogPageView { limit: second_limit, items: empty },
        between,
        second,
    );
    assert(empty + items =~= items);
    assert(empty + more =~= more);
    lemma_run_in_two(search, first, second);
}

/// The page is filled as far as it can be: every read is made while it wants
/// items, and in the end it is full or the search is over.
pub open spec fn read_up<F>(
    page: LogPageView,
    search: LogIteratorView<F>,
    reads: Seq<LineRead>,
) -> bool {
    &&& wanted(page, search, reads)
    &&& filled(page, search, reads).0.full() || filled(page, search, reads).1.current is None
}

/// How many items a page with the given limit holds if there are enough of them.
pub open spec fn page_size(limit: nat) -> nat {
    if limit == 0 {
        1
    } else {
        limit
    }
}

/// The first `count` of the items, or all of them if there are fewer.
pub open spec fn at_most(items: Seq<LogItemView>, count: nat) -> Seq<LogItemView> {
    items.take(
        if count < items.len() {
            count as int
        } else {
            items.len() as int
        },
    )
}

/// The items after the first `count`.
pub open spec fn beyond(items: Seq<LogItemView>, count: nat) -> Seq<LogItemView> {
    items.skip(
        if count < items.len() {
            count as int
        } else {
            items.len() as int
        },
    )
}

/// A search that is over finds nothing more and stays as it is.
proof fn lemma_search_over<F>(search: LogIteratorView<F>, reads: Seq<LineRead>)
    requires
        search.current is None,
    ensures
        run(search, reads) == (search, Seq::<LogItemView>::empty()),
    decreases reads.len(),
{
    if reads.len() > 0 {
        lemma_search_over(search, reads.drop_last());
    }
}

/// A page that is filled as far as it can be holds exactly the first of the items
/// that are left, as many as its limit says, one if the limit is zero, and all of
/// them if there are fewer; and what comes after them is left to the search.
pub proof fn law_page_is_the_first_items_left<F>(
    limit: nat,
    search: LogIteratorView<F>,
    reads: Seq<LineRead>,
    rest: Seq<LineRead>,
)
    requires
        read_up(LogPageView { limit, items: Seq::empty() }, search, reads),
    ensures
        ({
            let (page, after) = filled(LogPageView { limit, items: Seq::empty() }, search, reads);
            let left = run(search, reads + rest).1;
            &&& page.items == at_most(left, page_size(limit))
            &&& run(after, rest).1 == beyond(left, page_size(limit))
        }),
{
    let empty = LogPageView { limit, items: Seq::empty() };
    let (page, after) = filled(empty, search, reads);
    let left = run(search, reads + rest).1;
    law_page_holds_what_is_found(empty, search, reads);
    law_page_keeps_its_limit(limit, search, reads);
    lemma_run_in_two(search, reads, rest);
    assert(page.items =~= run(search, reads).1);
    assert(left == page.items + run(after, rest).1);
    if after.current is None {
        lemma_search_over(after, rest);
    }
    assert(page.items =~= at_most(left, page_size(limit)));
    assert(run(after, rest).1 =~= beyond(left, page_size(limit)));
}

/// A page and the next one together are the page of both limits: the items come
/// in the same order, however they are asked for.
pub proof fn law_pages_add_up<F>(
    search: LogIteratorView<F>,
    first_limit: nat,
    first: Seq<LineRead>,
    second_limit: nat,
    second: Seq<LineRead>,
    rest: Seq<LineRead>,
    both: Seq<LineRead>,
    both_rest: Seq<LineRead>,
)
    requires
        first_limit > 0,
        second_limit > 0,
        first + second + rest == both + both_rest,
        read_up(LogPageView { limit: first_limit, items: Seq::empty() }, search, first),
        read_up(
            LogPageView { limit: second_limit, items: Seq::empty() },
            filled(LogPageView { limit: first_limit, items: Seq::empty() }, search, first).1,
            second,
        ),
        read_up(
            LogPageView { limit: first_limit + second_limit, items: Seq::empty() },
            search,
            both,
        ),
    ensures
        ({
            let (page, between) = filled(
                LogPageView { limit: first_limit, items: Seq::empty() },
                search,
                first,
            );
            let next_page = filled(
                LogPageView { limit: second_limit, items: Seq::empty() },
                between,
                second,
            ).0;
            let whole_page = filled(
                LogPageView { limit: first_limit + second_limit, items: Seq::empty() },
                search,
                both,
            ).0;
            page.items + next_page.items == whole_page.items
        }),
{
    let (page, between) = filled(
        LogPageView { limit: first_limit, items: Seq::empty() },
        search,
        first,
    );
    let left = run(search, both + both_rest).1;
    assert(first + second + rest =~= first + (second + rest));
    law_page_is_the_first_items_left(first_limit, search, first, second + rest);
    law_page_is_the_first_items_left(second_limit, between, second, rest);
    law_page_is_the_first_items_left(first_limit + second_limit, search, both, both_rest);
    assert(at_most(left, first_limit) + at_most(beyond(left, first_limit), second_limit)
        =~= at_most(left, first_limit + second_limit));
}

} // verus!
