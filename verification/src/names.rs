//! Artist names as one text: joined with a comma and a space, and split at
//! the same two characters.
//!
//! Joining loses information. A name that holds the separator comes back
//! from a split in pieces, and an empty list of names comes back as one
//! empty name.

use vstd::prelude::*;
use vstd::string::*;

verus! {

/// The two characters that stand between two names.
pub open spec fn separator() -> Seq<char> {
    seq![',', ' ']
}

/// Whether the separator begins at index `i` of `s`.
pub open spec fn separator_at(s: Seq<char>, i: int) -> bool {
    0 <= i && i + 1 < s.len() && s[i] == ',' && s[i + 1] == ' '
}

/// Whether the separator occurs anywhere in `s`.
pub open spec fn has_separator(s: Seq<char>) -> bool {
    exists|i: int| separator_at(s, i)
}

/// The views of a list of texts, in order.
pub open spec fn texts(items: Seq<String>) -> Seq<Seq<char>> {
    Seq::new(items.len(), |i: int| items[i]@)
}

/// The names one after the other, with the separator between each two.
pub open spec fn join_names(names: Seq<Seq<char>>) -> Seq<char>
    decreases names.len(),
{
    if names.len() == 0 {
        Seq::empty()
    } else if names.len() == 1 {
        names[0]
    } else {
        names[0] + separator() + join_names(names.drop_first())
    }
}

/// The names one after the other, with nothing between them.
pub open spec fn concat_names(names: Seq<Seq<char>>) -> Seq<char>
    decreases names.len(),
{
    if names.len() == 0 {
        Seq::empty()
    } else {
        concat_names(names.drop_last()) + names.last()
    }
}

/// The first index at or after `i` at which the separator begins in `s`, or
/// the length of `s` where there is none.
pub open spec fn next_separator(s: Seq<char>, i: int) -> int
    decreases s.len() - i,
{
    if i + 1 >= s.len() {
        s.len() as int
    } else if separator_at(s, i) {
        i
    } else {
        next_separator(s, i + 1)
    }
}

/// The pieces between the separators of `s`, from left to right. A text
/// without a separator, the empty one too, is one piece.
pub open spec fn split_names(s: Seq<char>) -> Seq<Seq<char>>
    decreases s.len(),
{
    let p = next_separator(s, 0);
    if 0 <= p && p + 2 <= s.len() {
        seq![s.subrange(0, p)] + split_names(s.subrange(p + 2, s.len() as int))
    } else {
        seq![s]
    }
}

/// Where no separator begins in `i..p` and one begins at `p`, the next
/// separator from `i` on is the one at `p`.
pub proof fn lemma_next_separator_found(s: Seq<char>, i: int, p: int)
    requires
        0 <= i <= p,
        separator_at(s, p),
        forall|j: int| i <= j < p ==> !separator_at(s, j),
    ensures
        next_separator(s, i) == p,
    decreases p - i,
{
    if i < p {
        lemma_next_separator_found(s, i + 1, p);
    }
}

/// Where no separator begins at or after `i`, the search from `i` ends at
/// the length of the text.
pub proof fn lemma_next_separator_none(s: Seq<char>, i: int)
    requires
        0 <= i,
        forall|j: int| i <= j ==> !separator_at(s, j),
    ensures
        next_separator(s, i) == s.len(),
    decreases s.len() - i,
{
    if i + 1 < s.len() {
        lemma_next_separator_none(s, i + 1);
    }
}

/// Joining one more name behind a list that is not empty puts the separator
/// and the name at the end.
pub proof fn lemma_join_push(names: Seq<Seq<char>>, last: Seq<char>)
    requires
        names.len() > 0,
    ensures
        join_names(names.push(last)) == join_names(names) + separator() + last,
    decreases names.len(),
{
    let all = names.push(last);
    assert(all.drop_first() =~= names.drop_first().push(last));
    if names.len() == 1 {
        assert(all.drop_first() =~= seq![last]);
        assert(join_names(all.drop_first()) == last);
    } else {
        lemma_join_push(names.drop_first(), last);
        assert(join_names(all) =~= join_names(names) + separator() + last);
    }
}

/// What the search for the next separator returns: an index from `i` up to
/// the length, at which the separator begins unless it is the length, and
/// before which, from `i` on, none begins.
pub proof fn lemma_next_separator(s: Seq<char>, i: int)
    requires
        0 <= i <= s.len(),
    ensures
        i <= next_separator(s, i) <= s.len(),
        next_separator(s, i) < s.len() ==> separator_at(s, next_separator(s, i)),
        forall|j: int| i <= j < next_separator(s, i) ==> !separator_at(s, j),
    decreases s.len() - i,
{
    if i + 1 < s.len() && !separator_at(s, i) {
        lemma_next_separator(s, i + 1);
    }
}

/// Splitting never gives an empty list: the empty text is one empty piece.
pub proof fn lemma_split_empty()
    ensures
        split_names(Seq::<char>::empty()) == seq![Seq::<char>::empty()],
        join_names(Seq::<Seq<char>>::empty()) == Seq::<char>::empty(),
{
    assert(next_separator(Seq::<char>::empty(), 0) == 0);
}

/// Joining the pieces of a text gives the text back.
pub proof fn lemma_split_then_join(s: Seq<char>)
    ensures
        split_names(s).len() >= 1,
        join_names(split_names(s)) == s,
    decreases s.len(),
{
    let p = next_separator(s, 0);
    lemma_next_separator(s, 0);
    if p + 2 <= s.len() {
        let head = s.subrange(0, p);
        let rest = s.subrange(p + 2, s.len() as int);
        lemma_split_then_join(rest);
        let pieces = split_names(s);
        assert(pieces.drop_first() =~= split_names(rest));
        assert(head + separator() + rest =~= s);
    }
}

/// No piece of a split holds the separator.
pub proof fn lemma_split_pieces_plain(s: Seq<char>)
    ensures
        forall|k: int| 0 <= k < split_names(s).len() ==> !has_separator(#[trigger] split_names(s)[k]),
    decreases s.len(),
{
    let p = next_separator(s, 0);
    lemma_next_separator(s, 0);
    if p + 2 <= s.len() {
        let head = s.subrange(0, p);
        let rest = s.subrange(p + 2, s.len() as int);
        lemma_split_pieces_plain(rest);
        assert forall|j: int| !separator_at(head, j) by {
            if separator_at(head, j) {
                assert(separator_at(s, j));
            }
        }
        assert forall|k: int| 0 <= k < split_names(s).len() implies !has_separator(
            #[trigger] split_names(s)[k],
        ) by {
            if k > 0 {
                assert(split_names(s)[k] == split_names(rest)[k - 1]);
            }
        }
    } else {
        assert(p == s.len());
    }
}

/// Names that hold no separator survive joining and splitting: a list of at
/// least one such name comes back as it was, in order.
pub proof fn lemma_join_then_split(names: Seq<Seq<char>>)
    requires
        names.len() > 0,
        forall|i: int| 0 <= i < names.len() ==> !has_separator(#[trigger] names[i]),
    ensures
        split_names(join_names(names)) == names,
    decreases names.len(),
{
    let s = join_names(names);
    let first = names[0];
    if names.len() == 1 {
        assert forall|j: int| 0 <= j implies !separator_at(s, j) by {}
        lemma_next_separator_none(s, 0);
        assert(split_names(s) =~= names);
    } else {
        let others = names.drop_first();
        let tail = join_names(others);
        let p = first.len() as int;
        assert forall|i: int| 0 <= i < others.len() implies !has_separator(
            #[trigger] others[i],
        ) by {
            assert(others[i] == names[i + 1]);
        }
        lemma_join_then_split(others);
        assert(s =~= first + separator() + tail);
        assert(separator_at(s, p));
        assert forall|j: int| 0 <= j < p implies !separator_at(s, j) by {
            if j + 1 < p {
                assert(separator_at(first, j) == separator_at(s, j));
            }
        }
        lemma_next_separator_found(s, 0, p);
        assert(s.subrange(0, p) =~= first);
        assert(s.subrange(p + 2, s.len() as int) =~= tail);
        assert(split_names(s) =~= names);
    }
}

/// A name that holds the separator does not survive: joining such a list
/// and splitting the text gives another list.
pub proof fn lemma_separator_in_name_diverges(names: Seq<Seq<char>>)
    requires
        exists|i: int| 0 <= i < names.len() && has_separator(#[trigger] names[i]),
    ensures
        split_names(join_names(names)) != names,
{
    lemma_split_pieces_plain(join_names(names));
}

/// The characters of a text, in order.
fn chars_of(text: &str) -> (chars: Vec<char>)
    ensures
        chars@ == text@,
{
    let mut chars: Vec<char> = Vec::new();
    for c in it: text.chars()
        invariant
            chars@ == it.seq().take(it.index()),
            it.seq() == text@,
    {
        chars.push(c);
    }
    chars
}

/// Joins the names with a comma and a space between each two. No names give
/// the empty text.
pub fn join(names: &Vec<String>) -> (joined: String)
    ensures
        joined@ == join_names(texts(names@)),
{
    let mut joined = String::new();
    let mut i: usize = 0;
    while i < names.len()
        invariant
            i <= names.len(),
            joined@ == join_names(texts(names@).take(i as int)),
        decreases names.len() - i,
    {
        let ghost before = texts(names@).take(i as int);
        if i > 0 {
            joined.append(", ");
        }
        joined.append(names[i].as_str());
        proof {
            reveal_strlit(", ");
            assert(", "@ =~= separator());
            assert(texts(names@).take(i + 1) =~= before.push(names@[i as int]@));
            if i > 0 {
                lemma_join_push(before, names@[i as int]@);
            } else {
                assert(joined@ =~= names@[i as int]@);
            }
        }
        i += 1;
    }
    assert(texts(names@).take(names@.len() as int) =~= texts(names@));
    joined
}

/// Puts the names one after the other, with nothing between them.
pub fn concatenate(names: &Vec<String>) -> (all: String)
    ensures
        all@ == concat_names(texts(names@)),
{
    let mut all = String::new();
    let mut i: usize = 0;
    while i < names.len()
        invariant
            i <= names.len(),
            all@ == concat_names(texts(names@).take(i as int)),
        decreases names.len() - i,
    {
        all.append(names[i].as_str());
        proof {
            let upto = texts(names@).take(i + 1);
            assert(upto.drop_last() =~= texts(names@).take(i as int));
            assert(upto.last() == names@[i as int]@);
        }
        i += 1;
    }
    assert(texts(names@).take(names@.len() as int) =~= texts(names@));
    all
}

/// Splits a text at each comma that a space follows. The pieces come in
/// order and without the separators; a text without a separator, the empty
/// one too, comes back as its only piece.
pub fn split(text: &str) -> (pieces: Vec<String>)
    ensures
        texts(pieces@) == split_names(text@),
{
    let chars = chars_of(text);
    let n = chars.len();
    let mut pieces: Vec<String> = Vec::new();
    let mut start: usize = 0;
    let mut i: usize = 0;
    proof {
        assert(text@.subrange(0, n as int) =~= text@);
        assert(texts(pieces@) + split_names(text@) =~= split_names(text@));
    }
    while i < n && i + 1 < n
        invariant
            n == chars@.len(),
            chars@ == text@,
            start <= i <= n,
            forall|j: int| start <= j < i ==> !separator_at(text@, j),
            split_names(text@) == texts(pieces@) + split_names(
                text@.subrange(start as int, n as int),
            ),
        decreases n - i,
    {
        if chars[i] == ',' && chars[i + 1] == ' ' {
            let piece = text.substring_char(start, i);
            let ghost rest = text@.subrange(start as int, n as int);
            let ghost done = texts(pieces@);
            proof {
                assert(separator_at(rest, i - start));
                assert forall|j: int| 0 <= j < i - start implies !separator_at(rest, j) by {
                    assert(!separator_at(text@, start + j));
                }
                lemma_next_separator_found(rest, 0, i - start);
                assert(rest.subrange(0, i - start) =~= text@.subrange(start as int, i as int));
                assert(rest.subrange(i - start + 2, rest.len() as int) =~= text@.subrange(
                    i + 2,
                    n as int,
                ));
            }
            pieces.push(piece.to_owned());
            proof {
                assert(texts(pieces@) =~= done + seq![piece@]);
                assert(split_names(text@) =~= texts(pieces@) + split_names(
                    text@.subrange(i + 2, n as int),
                ));
            }
            i += 2;
            start = i;
        } else {
            i += 1;
        }
    }
    let tail = text.substring_char(start, n);
    let ghost done = texts(pieces@);
    proof {
        let rest = text@.subrange(start as int, n as int);
        assert forall|j: int| 0 <= j implies !separator_at(rest, j) by {
            if j + 1 < rest.len() {
                assert(!separator_at(text@, start + j));
            }
        }
        lemma_next_separator_none(rest, 0);
    }
    pieces.push(tail.to_owned());
    assert(texts(pieces@) =~= done + seq![tail@]);
    pieces
}

} // verus!
