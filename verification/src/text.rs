//! Text as a sequence of characters: comparison, prefixes, substrings.

use vstd::prelude::*;
use vstd::utf8::*;

verus! {

/// `needle` occurs in `hay` as a run of consecutive characters.
pub open spec fn occurs_in(needle: Seq<char>, hay: Seq<char>) -> bool {
    exists|at: int|
        0 <= at <= hay.len() - needle.len() && #[trigger] hay.subrange(at, at + needle.len())
            == needle
}

/// The pieces written one after another with `separator` between neighbours.
pub open spec fn joined(pieces: Seq<Seq<char>>, separator: Seq<char>) -> Seq<char>
    decreases pieces.len(),
{
    if pieces.len() == 0 {
        Seq::empty()
    } else if pieces.len() == 1 {
        pieces[0]
    } else {
        joined(pieces.drop_last(), separator) + separator + pieces.last()
    }
}

/// `c` is a letter or a digit of ASCII, a hyphen, an underscore or a full stop.
pub open spec fn plain_char(c: char) -> bool {
    ||| 'a' <= c && c <= 'z'
    ||| 'A' <= c && c <= 'Z'
    ||| '0' <= c && c <= '9'
    ||| c == '-' || c == '_' || c == '.'
}

/// A text that needs no escapes: letters and digits of ASCII, hyphens,
/// underscores and full stops.
pub open spec fn plain_text(s: Seq<char>) -> bool {
    forall|i: int| 0 <= i < s.len() ==> plain_char(#[trigger] s[i])
}

/// A text of printable ASCII characters, without quotation marks and backslashes.
pub open spec fn printable_text(s: Seq<char>) -> bool {
    forall|i: int|
        0 <= i < s.len() ==> ' ' <= (#[trigger] s[i]) && s[i] <= '~' && s[i] != '"' && s[i] != '\\'
}

/// The characters of `text`.
pub fn chars_of(text: &str) -> (chars: Vec<char>)
    ensures
        chars@ == text@,
{
    let mut chars: Vec<char> = Vec::new();
    for c in it: text.chars()
        invariant
            it.seq() == text@,
            chars@ == text@.take(it.index() as int),
    {
        chars.push(c);
    }
    assert(text@.take(text@.len() as int) == text@);
    chars
}

/// Whether two texts hold the same characters.
pub fn same_text(a: &str, b: &str) -> (same: bool)
    ensures
        same == (a@ == b@),
{
    let left: &[u8] = a.as_bytes();
    let right: &[u8] = b.as_bytes();
    proof {
        encode_utf8_decode_utf8(a@);
        encode_utf8_decode_utf8(b@);
    }
    if left.len() != right.len() {
        return false;
    }
    let mut i: usize = 0;
    while i < left.len()
        invariant
            left@ == encode_utf8(a@),
            right@ == encode_utf8(b@),
            left.len() == right.len(),
            0 <= i <= left.len(),
            forall|j: int| 0 <= j < i ==> left@[j] == right@[j],
        decreases left.len() - i,
    {
        if left[i] != right[i] {
            return false;
        }
        i += 1;
    }
    assert(left@ =~= right@);
    true
}

/// Whether `piece` stands at position `at` of `chars`.
fn stands_at(chars: &Vec<char>, at: usize, piece: &Vec<char>) -> (found: bool)
    requires
        at + piece@.len() <= chars@.len(),
    ensures
        found == (chars@.subrange(at as int, at + piece@.len()) == piece@),
{
    let mut i: usize = 0;
    while i < piece.len()
        invariant
            at + piece@.len() <= chars.len(),
            0 <= i <= piece@.len(),
            forall|j: int| 0 <= j < i ==> chars@[at + j] == piece@[j],
        decreases piece@.len() - i,
    {
        if chars[at + i] != piece[i] {
            assert(chars@.subrange(at as int, at + piece@.len())[i as int] == chars@[at + i]);
            return false;
        }
        i += 1;
    }
    assert(chars@.subrange(at as int, at + piece@.len()) =~= piece@);
    true
}

/// Whether `text` begins with `prefix`.
pub fn starts_with(text: &str, prefix: &str) -> (found: bool)
    ensures
        found == prefix@.is_prefix_of(text@),
{
    let chars: Vec<char> = chars_of(text);
    let piece: Vec<char> = chars_of(prefix);
    piece.len() <= chars.len() && stands_at(&chars, 0, &piece)
}

/// Whether `needle` occurs in `hay`.
pub fn contains(hay: &str, needle: &str) -> (found: bool)
    ensures
        found == occurs_in(needle@, hay@),
{
    let chars: Vec<char> = chars_of(hay);
    let piece: Vec<char> = chars_of(needle);
    if piece.len() > chars.len() {
        return false;
    }
    let last: usize = chars.len() - piece.len();
    let mut at: usize = 0;
    loop
        invariant
            chars@ == hay@,
            piece@ == needle@,
            last == chars@.len() - piece@.len(),
            0 <= at <= last,
            forall|j: int|
                0 <= j < at ==> #[trigger] hay@.subrange(j, j + needle@.len()) != needle@,
        decreases last - at,
    {
        if stands_at(&chars, at, &piece) {
            return true;
        }
        if at == last {
            return false;
        }
        at += 1;
    }
}

/// The pieces written one after another with `separator` between neighbours.
pub fn join(pieces: &Vec<String>, separator: &str) -> (text: String)
    ensures
        text@ == joined(pieces@.map_values(|piece: String| piece@), separator@),
{
    let ghost views = pieces@.map_values(|piece: String| piece@);
    let mut text: String = String::new();
    let mut i: usize = 0;
    while i < pieces.len()
        invariant
            views == pieces@.map_values(|piece: String| piece@),
            0 <= i <= pieces@.len(),
            text@ == joined(views.take(i as int), separator@),
        decreases pieces@.len() - i,
    {
        if i > 0 {
            text.append(separator);
        }
        text.append(pieces[i].as_str());
        assert(views.take(i + 1).drop_last() =~= views.take(i as int));
        i += 1;
    }
    assert(views.take(views.len() as int) =~= views);
    text
}

} // verus!
