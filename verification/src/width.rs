//! How many cells of a terminal a text takes, and how it is cut to fit.

use unicode_width::{UnicodeWidthChar, UnicodeWidthStr};
use vstd::prelude::*;

use crate::text;

verus! {

/// The number of cells that `unicode-width` counts for a text.
pub uninterp spec fn text_width(target: Seq<char>) -> usize;

/// The number of cells that `unicode-width` counts for a character on its own;
/// none for a control character.
pub uninterp spec fn char_width(character: char) -> Option<usize>;

/// A character that takes one cell, whatever stands beside it: a printable ASCII
/// character, or one of the glyphs the view draws with.
pub open spec fn plain_character(character: char) -> bool {
    ||| ' ' <= character <= '~'
    ||| character == '─'
    ||| character == '│'
    ||| character == '╭'
    ||| character == '╮'
    ||| character == '╰'
    ||| character == '╯'
    ||| character == '━'
    ||| character == '┄'
    ||| character == '•'
    ||| character == '◦'
    ||| character == '◆'
    ||| character == '░'
    ||| '█' <= character <= '▏'
}

/// A text of such characters only.
pub open spec fn plain(target: Seq<char>) -> bool {
    forall|i: int| 0 <= i < target.len() ==> plain_character(#[trigger] target[i])
}

/// The number of cells a text takes: one for each character of a plain text, and
/// what `unicode-width` counts for any other.
pub open spec fn cells(target: Seq<char>) -> nat {
    if plain(target) {
        target.len()
    } else {
        text_width(target) as nat
    }
}

/// The number of cells a character takes on its own; none for a control
/// character.
pub open spec fn character_cells(character: char) -> nat {
    if plain_character(character) {
        1
    } else {
        match char_width(character) {
            Some(width) => width as nat,
            None => 0,
        }
    }
}

/// The number of cells a text takes, as `UnicodeWidthStr::width` counts them.
///
/// Trusted: the result is a function of the text. A text of printable ASCII
/// characters, of box drawing, of blocks and of the dots and diamonds above has
/// as many cells as characters, since each of those has width 1 and none is part
/// of a sequence that is counted otherwise.
#[verifier::external_body]
fn outside_text_width(target: &str) -> (result: usize)
    ensures
        result == text_width(target@),
        plain(target@) ==> result == target@.len(),
{
    UnicodeWidthStr::width(target)
}

/// The number of cells a character takes, as `UnicodeWidthChar::width` counts
/// them.
///
/// Trusted: the result is a function of the character, and 1 for the characters
/// named above.
#[verifier::external_body]
fn outside_char_width(character: char) -> (result: Option<usize>)
    ensures
        result == char_width(character),
        plain_character(character) ==> result == Some(1usize),
{
    UnicodeWidthChar::width(character)
}

/// The number of cells a text takes.
pub fn display_width(target: &str) -> (result: usize)
    ensures
        result == cells(target@),
{
    outside_text_width(target)
}

/// The number of cells a character takes on its own.
pub fn character_width(character: char) -> (result: usize)
    ensures
        result == character_cells(character),
{
    match outside_char_width(character) {
        Some(width) => width,
        None => 0,
    }
}

/// The sum of what the characters take on their own.
pub open spec fn character_sum(target: Seq<char>) -> nat
    decreases target.len(),
{
    if target.len() == 0 {
        0
    } else {
        character_sum(target.drop_last()) + character_cells(target.last())
    }
}

/// The longest start of the text whose characters, each on its own, take no more
/// than so many cells.
pub open spec fn longest_start(target: Seq<char>, width: nat) -> Seq<char>
    decreases target.len(),
{
    if character_sum(target) <= width {
        target
    } else {
        longest_start(target.drop_last(), width)
    }
}

/// The text cut to so many cells: a text that fits is whole.
pub open spec fn clipped(target: Seq<char>, width: nat) -> Seq<char> {
    if cells(target) <= width {
        target
    } else {
        longest_start(target, width)
    }
}

proof fn sums_grow(target: Seq<char>, from: int, to: int)
    requires
        0 <= from <= to <= target.len(),
    ensures
        character_sum(target.take(from)) <= character_sum(target.take(to)),
    decreases to,
{
    if from < to {
        sums_grow(target, from, to - 1);
        assert(target.take(to).drop_last() == target.take(to - 1));
    }
}

proof fn start_found(target: Seq<char>, width: nat, place: int, whole: int)
    requires
        0 <= place < whole <= target.len(),
        character_sum(target.take(place)) <= width,
        character_sum(target.take(place + 1)) > width,
    ensures
        longest_start(target.take(whole), width) == target.take(place),
    decreases whole,
{
    sums_grow(target, place + 1, whole);
    assert(target.take(whole).drop_last() == target.take(whole - 1));
    if place < whole - 1 {
        start_found(target, width, place, whole - 1);
    } else {
        assert(longest_start(target.take(place), width) == target.take(place));
    }
}

/// Cuts the text to so many cells, never splitting a wide character.
pub fn clip(target: &str, width: usize) -> (result: String)
    ensures
        result@ == clipped(target@, width as nat),
{
    if display_width(target) <= width {
        return target.to_owned();
    }
    let all: Vec<char> = text::characters(target);
    let mut used: usize = 0;
    let mut index: usize = 0;
    assert(all@.take(0) == Seq::<char>::empty());
    while index < all.len()
        invariant
            index <= all@.len(),
            all@ == target@,
            used == character_sum(all@.take(index as int)),
            used <= width,
            cells(target@) > width,
        decreases all@.len() - index,
    {
        let next: usize = character_width(all[index]);
        proof {
            assert(all@.take(index + 1).drop_last() == all@.take(index as int));
            assert(all@.take(index + 1).last() == all@[index as int]);
        }
        if next > width - used {
            proof {
                start_found(all@, width as nat, index as int, all@.len() as int);
                assert(all@.take(all@.len() as int) == all@);
            }
            return text::text_between(&all, 0, index);
        }
        used = used + next;
        index = index + 1;
    }
    assert(all@.take(index as int) == all@);
    text::text_of(&all)
}

/// A character so many times.
pub open spec fn repeated(character: char, count: nat) -> Seq<char> {
    Seq::new(count, |i: int| character)
}

/// A character so many times.
pub fn repeat(character: char, count: usize) -> (result: String)
    ensures
        result@ == repeated(character, count as nat),
{
    let mut result = String::new();
    let mut index: usize = 0;
    while index < count
        invariant
            index <= count,
            result@ == repeated(character, index as nat),
        decreases count - index,
    {
        result.push(character);
        index = index + 1;
        assert(result@ =~= repeated(character, index as nat));
    }
    result
}

/// A text that can be cut to any number of cells without taking more than those,
/// and of which no cell means no character.
pub open spec fn steady(target: Seq<char>) -> bool {
    &&& forall|width: nat| cells(#[trigger] clipped(target, width)) <= width
    &&& clipped(target, 0).len() == 0
}

proof fn plain_sums_are_lengths(target: Seq<char>)
    requires
        plain(target),
    ensures
        character_sum(target) == target.len(),
    decreases target.len(),
{
    if target.len() > 0 {
        assert(plain_character(target.last()));
        assert(plain(target.drop_last())) by {
            assert forall|i: int| 0 <= i < target.drop_last().len() implies plain_character(
                #[trigger] target.drop_last()[i],
            ) by {
                assert(target.drop_last()[i] == target[i]);
            }
        }
        plain_sums_are_lengths(target.drop_last());
    }
}

proof fn plain_starts_are_lengths(target: Seq<char>, width: nat)
    requires
        plain(target),
    ensures
        longest_start(target, width) == if target.len() <= width {
            target
        } else {
            target.take(width as int)
        },
    decreases target.len(),
{
    plain_sums_are_lengths(target);
    if target.len() > width {
        assert(plain(target.drop_last())) by {
            assert forall|i: int| 0 <= i < target.drop_last().len() implies plain_character(
                #[trigger] target.drop_last()[i],
            ) by {
                assert(target.drop_last()[i] == target[i]);
            }
        }
        plain_starts_are_lengths(target.drop_last(), width);
        if target.drop_last().len() > width {
            assert(target.drop_last().take(width as int) == target.take(width as int));
        } else {
            assert(target.drop_last() == target.take(width as int));
        }
    }
}

/// A plain text is cut to its first characters, one for each cell.
pub proof fn plain_text_is_cut_by_characters(target: Seq<char>, width: nat)
    requires
        plain(target),
    ensures
        clipped(target, width) == if target.len() <= width {
            target
        } else {
            target.take(width as int)
        },
        plain(clipped(target, width)),
        cells(clipped(target, width)) <= width,
{
    plain_starts_are_lengths(target, width);
    assert forall|i: int| 0 <= i < clipped(target, width).len() implies plain_character(
        #[trigger] clipped(target, width)[i],
    ) by {
        assert(clipped(target, width)[i] == target[i]);
    }
}

/// Every plain text can be cut to any number of cells.
pub proof fn plain_text_is_steady(target: Seq<char>)
    requires
        plain(target),
    ensures
        steady(target),
{
    assert forall|width: nat| cells(#[trigger] clipped(target, width)) <= width by {
        plain_text_is_cut_by_characters(target, width);
    }
    plain_text_is_cut_by_characters(target, 0);
}

/// The same character any number of times is plain if the character is.
pub proof fn repeated_is_plain(character: char, count: nat)
    requires
        plain_character(character),
    ensures
        plain(repeated(character, count)),
        cells(repeated(character, count)) == count,
{
}

} // verus!
