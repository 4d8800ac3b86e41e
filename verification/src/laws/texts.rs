//! Comparing, searching and joining texts.

use vstd::prelude::*;

use crate::text::{chars_of, contains, join, occurs_in, same_text, starts_with};

verus! {

/// A text begins with a prefix exactly if the prefix and something after it make the text.
pub proof fn law_prefix_is_found(text: &str, prefix: &str, found: bool)
    requires
        call_ensures(starts_with, (text, prefix), found),
    ensures
        found <==> exists|rest: Seq<char>| text@ == #[trigger] (prefix@ + rest),
{
    if found {
        assert(text@ =~= prefix@ + text@.skip(prefix@.len() as int));
    }
    if exists|rest: Seq<char>| text@ == #[trigger] (prefix@ + rest) {
        let rest = choose|rest: Seq<char>| text@ == #[trigger] (prefix@ + rest);
        assert(text@.take(prefix@.len() as int) =~= prefix@);
    }
}

/// A text contains a piece exactly if the piece, with something before it and
/// something after it, makes the text.
pub proof fn law_piece_is_found(hay: &str, needle: &str, found: bool)
    requires
        call_ensures(contains, (hay, needle), found),
    ensures
        found <==> holds_piece(hay@, needle@),
{
    lemma_piece(hay@, needle@);
}

/// `text` is `piece` with something before it and something after it.
pub open spec fn holds_piece(text: Seq<char>, piece: Seq<char>) -> bool {
    exists|before: Seq<char>, after: Seq<char>| text == #[trigger] ((before + piece) + after)
}

/// A text holds a piece exactly if the piece occurs in it.
pub proof fn lemma_piece(text: Seq<char>, piece: Seq<char>)
    ensures
        occurs_in(piece, text) <==> holds_piece(text, piece),
{
    if occurs_in(piece, text) {
        let at = choose|at: int|
            0 <= at <= text.len() - piece.len() && #[trigger] text.subrange(at, at + piece.len())
                == piece;
        let before = text.take(at);
        let after = text.skip(at + piece.len());
        assert(text =~= (before + text.subrange(at, at + piece.len())) + after);
    }
    if holds_piece(text, piece) {
        let (before, after) = choose|before: Seq<char>, after: Seq<char>|
            text == #[trigger] ((before + piece) + after);
        let at = before.len() as int;
        assert(text.subrange(at, at + piece.len()) =~= piece);
    }
}

/// Two texts are the same exactly if they hold the same characters in the same places.
pub proof fn law_same_texts_are_found(a: &str, b: &str, same: bool)
    requires
        call_ensures(same_text, (a, b), same),
    ensures
        same <==> a@.len() == b@.len() && forall|i: int| 0 <= i < a@.len() ==> a@[i] == b@[i],
{
    if a@.len() == b@.len() && forall|i: int| 0 <= i < a@.len() ==> a@[i] == b@[i] {
        assert(a@ =~= b@);
    }
}

/// The characters of a text are all of them, in their places.
pub proof fn law_characters_are_all_there(text: &str, chars: Vec<char>)
    requires
        call_ensures(chars_of, (text,), chars),
    ensures
        chars@.len() == text@.len(),
        forall|i: int| 0 <= i < text@.len() ==> chars@[i] == text@[i],
{
}

/// No pieces join to nothing, and one piece to itself.
pub proof fn law_few_pieces_are_joined(pieces: Vec<String>, separator: &str, text: String)
    requires
        call_ensures(join, (&pieces, separator), text),
    ensures
        pieces@.len() == 0 ==> text@.len() == 0,
        pieces@.len() == 1 ==> text@ == pieces@[0]@,
{
}

/// One more piece comes after all others, behind a separator.
pub proof fn law_one_more_piece_is_joined(
    pieces: Vec<String>,
    more: Vec<String>,
    separator: &str,
    text: String,
    longer: String,
)
    requires
        pieces@.len() > 0,
        more@.len() == pieces@.len() + 1,
        forall|i: int| 0 <= i < pieces@.len() ==> more@[i]@ == #[trigger] pieces@[i]@,
        call_ensures(join, (&pieces, separator), text),
        call_ensures(join, (&more, separator), longer),
    ensures
        longer@ == text@ + separator@ + more@[more@.len() - 1]@,
{
    let views = pieces@.map_values(|piece: String| piece@);
    let all = more@.map_values(|piece: String| piece@);
    assert forall|i: int| 0 <= i < views.len() implies #[trigger] all[i] == views[i] by {
        assert(more@[i]@ == pieces@[i]@);
    }
    assert(all.drop_last() =~= views);
}

} // verus!
