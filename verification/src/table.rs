//! The log searches that are open, each under its token.

use vstd::prelude::*;

use crate::search::LogIterator;
use crate::text::same_text;

verus! {

/// The log searches that are open, each under its token.
pub struct LogIterators<F> {
    entries: Vec<(String, LogIterator<F>)>,
}

impl<F> View for LogIterators<F> {
    type V = Map<Seq<char>, LogIterator<F>>;

    closed spec fn view(&self) -> Map<Seq<char>, LogIterator<F>> {
        map_of(self.entries@)
    }
}

spec fn has<F>(entries: Seq<(String, LogIterator<F>)>, token: Seq<char>) -> bool {
    exists|i: int| 0 <= i < entries.len() && (#[trigger] entries[i]).0@ == token
}

spec fn found_at<F>(entries: Seq<(String, LogIterator<F>)>, token: Seq<char>) -> LogIterator<F> {
    let i = choose|i: int| 0 <= i < entries.len() && (#[trigger] entries[i]).0@ == token;
    entries[i].1
}

/// The entries as a map from token to search.
spec fn map_of<F>(entries: Seq<(String, LogIterator<F>)>) -> Map<Seq<char>, LogIterator<F>> {
    Map::new(
        |token: Seq<char>| has(entries, token),
        |token: Seq<char>| found_at(entries, token),
    )
}

/// No two entries share a token.
spec fn distinct<F>(entries: Seq<(String, LogIterator<F>)>) -> bool {
    forall|i: int, j: int|
        0 <= i < j < entries.len() ==> (#[trigger] entries[i]).0@ != (#[trigger] entries[j]).0@
}

proof fn lemma_entry<F>(entries: Seq<(String, LogIterator<F>)>, i: int)
    requires
        distinct(entries),
        0 <= i < entries.len(),
    ensures
        map_of(entries).contains_key(entries[i].0@),
        map_of(entries)[entries[i].0@] == entries[i].1,
{
    assert(has(entries, entries[i].0@));
}

/// Taking an entry out takes its token out of the map.
proof fn lemma_remove<F>(entries: Seq<(String, LogIterator<F>)>, at: int)
    requires
        distinct(entries),
        0 <= at < entries.len(),
    ensures
        distinct(entries.remove(at)),
        map_of(entries.remove(at)) == map_of(entries).remove(entries[at].0@),
{
    let token = entries[at].0@;
    let left = entries.remove(at);
    assert forall|t: Seq<char>| #[trigger] map_of(left).contains_key(t) == map_of(entries).remove(
        token,
    ).contains_key(t) by {
        if has(entries, t) && t != token {
            let j = choose|j: int| 0 <= j < entries.len() && (#[trigger] entries[j]).0@ == t;
            let k = if j < at { j } else { j - 1 };
            assert(left[k].0@ == t);
        }
        if has(left, t) {
            let j = choose|j: int| 0 <= j < left.len() && (#[trigger] left[j]).0@ == t;
            let k = if j < at { j } else { j + 1 };
            assert(entries[k].0@ == t);
        }
    }
    assert forall|t: Seq<char>| #[trigger] map_of(left).contains_key(t) implies map_of(left)[t]
        == map_of(entries).remove(token)[t] by {
        let j = choose|j: int| 0 <= j < left.len() && (#[trigger] left[j]).0@ == t;
        let k = if j < at { j } else { j + 1 };
        lemma_entry(left, j);
        lemma_entry(entries, k);
    }
    assert(map_of(left) =~= map_of(entries).remove(token));
}

/// Adding an entry with a new token adds it to the map.
proof fn lemma_push<F>(
    entries: Seq<(String, LogIterator<F>)>,
    entry: (String, LogIterator<F>),
)
    requires
        distinct(entries),
        !map_of(entries).contains_key(entry.0@),
    ensures
        distinct(entries.push(entry)),
        map_of(entries.push(entry)) == map_of(entries).insert(entry.0@, entry.1),
{
    let token = entry.0@;
    let all = entries.push(entry);
    assert forall|i: int| 0 <= i < entries.len() implies (#[trigger] entries[i]).0@ != token by {
        lemma_entry(entries, i);
    }
    assert(all[entries.len() as int].0@ == token);
    assert forall|t: Seq<char>| #[trigger] map_of(all).contains_key(t) == map_of(entries).insert(
        token,
        entry.1,
    ).contains_key(t) by {
        if has(entries, t) {
            let j = choose|j: int| 0 <= j < entries.len() && (#[trigger] entries[j]).0@ == t;
            assert(all[j].0@ == t);
        }
        if has(all, t) && t != token {
            let j = choose|j: int| 0 <= j < all.len() && (#[trigger] all[j]).0@ == t;
            assert(entries[j].0@ == t);
        }
    }
    assert forall|t: Seq<char>| #[trigger] map_of(all).contains_key(t) implies map_of(all)[t]
        == map_of(entries).insert(token, entry.1)[t] by {
        let j = choose|j: int| 0 <= j < all.len() && (#[trigger] all[j]).0@ == t;
        lemma_entry(all, j);
        if j < entries.len() {
            lemma_entry(entries, j);
        }
    }
    assert(map_of(all) =~= map_of(entries).insert(token, entry.1));
}

/// Exchanging the search of an entry exchanges it in the map.
proof fn lemma_update<F>(
    entries: Seq<(String, LogIterator<F>)>,
    at: int,
    search: LogIterator<F>,
)
    requires
        distinct(entries),
        0 <= at < entries.len(),
    ensures
        distinct(entries.update(at, (entries[at].0, search))),
        map_of(entries.update(at, (entries[at].0, search))) == map_of(entries).insert(
            entries[at].0@,
            search,
        ),
{
    let token = entries[at].0@;
    let changed = entries.update(at, (entries[at].0, search));
    assert forall|t: Seq<char>| #[trigger] map_of(changed).contains_key(t) == map_of(
        entries,
    ).insert(token, search).contains_key(t) by {
        if has(entries, t) {
            let j = choose|j: int| 0 <= j < entries.len() && (#[trigger] entries[j]).0@ == t;
            assert(changed[j].0@ == t);
        }
        if has(changed, t) {
            let j = choose|j: int| 0 <= j < changed.len() && (#[trigger] changed[j]).0@ == t;
            assert(entries[j].0@ == t);
        }
        assert(changed[at].0@ == token);
    }
    assert forall|t: Seq<char>| #[trigger] map_of(changed).contains_key(t) implies map_of(
        changed,
    )[t] == map_of(entries).insert(token, search)[t] by {
        let j = choose|j: int| 0 <= j < changed.len() && (#[trigger] changed[j]).0@ == t;
        lemma_entry(changed, j);
        lemma_entry(entries, j);
    }
    assert(map_of(changed) =~= map_of(entries).insert(token, search));
}

impl<F> LogIterators<F> {
    /// No two searches share a token.
    pub closed spec fn wf(&self) -> bool {
        distinct(self.entries@)
    }

    /// No search is open.
    pub fn new() -> (table: LogIterators<F>)
        ensures
            table.wf(),
            table@ == Map::<Seq<char>, LogIterator<F>>::empty(),
    {
        let table: LogIterators<F> = LogIterators { entries: Vec::new() };
        assert(table@ =~= Map::<Seq<char>, LogIterator<F>>::empty());
        table
    }

    /// Where the search with the given token stands, if there is one.
    fn position(&self, token: &str) -> (at: Option<usize>)
        ensures
            match at {
                Some(at) => at < self.entries@.len() && self.entries@[at as int].0@ == token@,
                None => !self@.contains_key(token@),
            },
    {
        let mut i: usize = 0;
        while i < self.entries.len()
            invariant
                0 <= i <= self.entries@.len(),
                forall|j: int| 0 <= j < i ==> (#[trigger] self.entries@[j]).0@ != token@,
            decreases self.entries@.len() - i,
        {
            if same_text(self.entries[i].0.as_str(), token) {
                return Some(i);
            }
            i += 1;
        }
        None
    }

    /// Closes the search with the given token; says whether there was one.
    pub fn remove(&mut self, token: &str) -> (removed: Option<LogIterator<F>>)
        requires
            old(self).wf(),
        ensures
            final(self).wf(),
            final(self)@ == old(self)@.remove(token@),
            match removed {
                Some(search) => old(self)@.contains_key(token@) && search == old(self)@[token@],
                None => !old(self)@.contains_key(token@),
            },
    {
        match self.position(token) {
            Some(at) => {
                proof {
                    lemma_entry(self.entries@, at as int);
                    lemma_remove(self.entries@, at as int);
                }
                let (_, search): (String, LogIterator<F>) = self.entries.remove(at);
                Some(search)
            },
            None => {
                assert(self@ =~= old(self)@.remove(token@));
                None
            },
        }
    }

    /// Opens a search under a token, in place of the one that was open under it, if any.
    pub fn insert(&mut self, token: String, search: LogIterator<F>)
        requires
            old(self).wf(),
        ensures
            final(self).wf(),
            final(self)@ == old(self)@.insert(token@, search),
    {
        let _ = self.remove(token.as_str());
        proof {
            lemma_push(self.entries@, (token, search));
            assert(self@.insert(token@, search) =~= old(self)@.insert(token@, search));
        }
        self.entries.push((token, search));
    }

    /// The search with the given token, if there is one.
    pub fn get_mut(&mut self, token: &str) -> (search: Option<&mut LogIterator<F>>)
        requires
            old(self).wf(),
        ensures
            final(self).wf(),
            match search {
                Some(search) => {
                    &&& old(self)@.contains_key(token@)
                    &&& *search == old(self)@[token@]
                    &&& final(self)@ == old(self)@.insert(token@, *final(search))
                },
                None => !old(self)@.contains_key(token@) && final(self)@ == old(self)@,
            },
    {
        match self.position(token) {
            Some(at) => {
                proof {
                    let entries = self.entries@;
                    lemma_entry(entries, at as int);
                    assert forall|changed: LogIterator<F>|
                        {
                            let all = #[trigger] entries.update(
                                at as int,
                                (entries[at as int].0, changed),
                            );
                            distinct(all) && map_of(all) == map_of(entries).insert(
                                token@,
                                changed,
                            )
                        } by {
                        lemma_update(entries, at as int, changed);
                    }
                }
                Some(&mut self.entries[at].1)
            },
            None => None,
        }
    }
}

} // verus!
