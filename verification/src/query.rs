//! The parameters in the query of a request.

use vstd::prelude::*;
use vstd::utf8::*;

use crate::http::pairs_view;
use crate::text::{joined, plain_text, same_text};

verus! {

/// The names and values that a query in the `application/x-www-form-urlencoded`
/// syntax holds, in their order and decoded, as `form_urlencoded` reads them.
pub uninterp spec fn form_pairs(query: Seq<u8>) -> Seq<(Seq<char>, Seq<char>)>;

/// A query that gives names and values as they are: an equals sign between a
/// name and its value, an ampersand between one pair and the next.
pub open spec fn written_form(pairs: Seq<(Seq<char>, Seq<char>)>) -> Seq<char> {
    joined(pairs.map_values(|pair: (Seq<char>, Seq<char>)| pair.0 + "="@ + pair.1), "&"@)
}

/// Names and values that need no escapes.
pub open spec fn plain_pairs(pairs: Seq<(Seq<char>, Seq<char>)>) -> bool {
    forall|i: int|
        0 <= i < pairs.len() ==> plain_text((#[trigger] pairs[i]).0) && plain_text(pairs[i].1)
}

/// Calls `url::form_urlencoded::parse` and collects what it gives. The pairs are
/// claimed to depend on the bytes alone. A query that writes pairs of names and
/// values that need no escapes is claimed to hold those pairs; how other bytes
/// are split and decoded is not claimed.
#[verifier::external_body]
fn read_form(query: &[u8]) -> (pairs: Vec<(String, String)>)
    ensures
        pairs_view(pairs@) == form_pairs(query@),
        forall|given: Seq<(Seq<char>, Seq<char>)>|
            plain_pairs(given) && query@ == encode_utf8(#[trigger] written_form(given))
                ==> pairs_view(pairs@) == given,
{
    url::form_urlencoded::parse(query).into_owned().collect()
}

/// The value that was given last under the name `name`, if any.
pub open spec fn last_value(pairs: Seq<(Seq<char>, Seq<char>)>, name: Seq<char>) -> Option<
    Seq<char>,
>
    decreases pairs.len(),
{
    if pairs.len() == 0 {
        None
    } else if pairs.last().0 == name {
        Some(pairs.last().1)
    } else {
        last_value(pairs.drop_last(), name)
    }
}

/// The parameters of a request, in their order.
pub struct Params {
    pub pairs: Vec<(String, String)>,
}

impl View for Params {
    type V = Seq<(Seq<char>, Seq<char>)>;

    open spec fn view(&self) -> Seq<(Seq<char>, Seq<char>)> {
        pairs_view(self.pairs@)
    }
}

/// The parameters that a query holds; a request without a query holds none.
pub open spec fn params_of(query: Option<Seq<char>>) -> Seq<(Seq<char>, Seq<char>)> {
    match query {
        Some(query) => form_pairs(encode_utf8(query)),
        None => Seq::empty(),
    }
}

/// A query that writes pairs which need no escapes holds those pairs.
pub open spec fn plainly_read(query: Option<Seq<char>>) -> bool {
    match query {
        Some(query) => forall|given: Seq<(Seq<char>, Seq<char>)>|
            plain_pairs(given) && query == #[trigger] written_form(given) ==> params_of(Some(query))
                == given,
        None => true,
    }
}

/// The text of a query, if there is one.
pub open spec fn query_text(query: Option<&str>) -> Option<Seq<char>> {
    match query {
        Some(query) => Some(query@),
        None => None,
    }
}

impl Params {
    /// Reads the parameters that a query holds.
    pub fn read(query: Option<&str>) -> (params: Params)
        ensures
            params@ == params_of(query_text(query)),
            plainly_read(query_text(query)),
    {
        match query {
            Some(query) => Params { pairs: read_form(query.as_bytes()) },
            None => Params { pairs: Vec::new() },
        }
    }

    /// The value that was given last under the name `name`, if any.
    pub fn get(&self, name: &str) -> (value: Option<&str>)
        ensures
            match value {
                Some(value) => last_value(self@, name@) == Some(value@),
                None => last_value(self@, name@) is None,
            },
    {
        let ghost pairs = self@;
        let mut i: usize = self.pairs.len();
        assert(pairs.take(pairs.len() as int) =~= pairs);
        while i > 0
            invariant
                pairs == self@,
                0 <= i <= pairs.len(),
                last_value(pairs, name@) == last_value(pairs.take(i as int), name@),
            decreases i,
        {
            let pair: &(String, String) = &self.pairs[i - 1];
            proof {
                assert(pairs[i - 1] == (pair.0@, pair.1@));
                assert(pairs.take(i as int).last() == pairs[i - 1]);
                assert(pairs.take(i as int).drop_last() =~= pairs.take(i - 1));
            }
            if same_text(pair.0.as_str(), name) {
                return Some(pair.1.as_str());
            }
            i -= 1;
        }
        None
    }
}

/// A query of a single pair is its name, an equals sign and its value.
pub proof fn lemma_single_pair(name: Seq<char>, value: Seq<char>)
    ensures
        written_form(seq![(name, value)]) == name + "="@ + value,
        last_value(seq![(name, value)], name) == Some(value),
{
    let pieces = seq![(name, value)].map_values(
        |pair: (Seq<char>, Seq<char>)| pair.0 + "="@ + pair.1,
    );
    assert(pieces.len() == 1 && pieces[0] == name + "="@ + value);
}

} // verus!
