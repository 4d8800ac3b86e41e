//! The table of the searches that are open.

use vstd::prelude::*;

use crate::registry::FailPoints;
use crate::search::LogIterator;
use crate::table::LogIterators;

verus! {

/// At first no search is open, and nothing was asked of the fail points.
pub proof fn law_nothing_is_open_at_first<F>(
    table: LogIterators<F>,
    fail_points: FailPoints,
    token: Seq<char>,
)
    requires
        call_ensures(LogIterators::<F>::new, (), table),
        call_ensures(FailPoints::new, (), fail_points),
    ensures
        !table@.contains_key(token),
        fail_points@.len() == 0,
{
}

/// A search that is put in is found under its token, and the others are as before.
pub proof fn law_searches_are_put_in<F>(
    table: &mut LogIterators<F>,
    token: String,
    search: LogIterator<F>,
    other: Seq<char>,
)
    requires
        call_ensures(LogIterators::<F>::insert, (table, token, search), ()),
    ensures
        final(table)@.contains_key(token@) && final(table)@[token@] == search,
        other != token@ ==> final(table)@.contains_key(other) == old(table)@.contains_key(other),
        other != token@ && old(table)@.contains_key(other) ==> final(table)@[other] == old(table)@[other],
{
}

/// A search that is taken out is the one under the token; after that nothing is
/// under it, and the others are as before.
pub proof fn law_searches_are_taken_out<F>(
    table: &mut LogIterators<F>,
    token: &str,
    removed: Option<LogIterator<F>>,
    other: Seq<char>,
)
    requires
        call_ensures(LogIterators::<F>::remove, (table, token), removed),
    ensures
        removed is Some <==> old(table)@.contains_key(token@),
        removed is Some ==> removed->0 == old(table)@[token@],
        !final(table)@.contains_key(token@),
        other != token@ ==> final(table)@.contains_key(other) == old(table)@.contains_key(other),
        other != token@ && old(table)@.contains_key(other) ==> final(table)@[other] == old(table)@[other],
{
}

/// A search that is lent out is the one under the token, which is in the end what
/// was made of it; the others are as before.
pub proof fn law_searches_are_lent_out<F>(
    table: &mut LogIterators<F>,
    token: &str,
    search: Option<&mut LogIterator<F>>,
    other: Seq<char>,
)
    requires
        call_ensures(LogIterators::<F>::get_mut, (table, token), search),
    ensures
        search is Some <==> old(table)@.contains_key(token@),
        search is Some ==> *(search->0) == old(table)@[token@],
        search is Some ==> final(table)@.contains_key(token@) && final(table)@[token@]
            == *final(search->0),
        other != token@ ==> final(table)@.contains_key(other) == old(table)@.contains_key(other),
        other != token@ && old(table)@.contains_key(other) ==> final(table)@[other] == old(table)@[other],
        search is None ==> final(table)@ == old(table)@,
{
}

} // verus!
