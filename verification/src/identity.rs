//! Which characters an identity or a label may hold.

use vstd::prelude::*;

use crate::text;

verus! {

/// The control characters and the bidirectional text controls.
pub open spec fn unsafe_character(character: char) -> bool {
    let code = character as u32;
    ||| text::control(character)
    ||| code == 0x061c
    ||| code == 0x200e
    ||| code == 0x200f
    ||| 0x202a <= code <= 0x202e
    ||| 0x2066 <= code <= 0x2069
}

/// Whether a user-supplied identity string may not be used as configuration or
/// display text.
///
/// Control characters and bidirectional text controls can hide or reorder what
/// a person sees, so account identities and metric filter names reject them.
pub fn is_unsafe_identity_character(character: char) -> (result: bool)
    ensures
        result == unsafe_character(character),
{
    let code: u32 = character as u32;
    text::is_control(character) || code == 0x061c || code == 0x200e || code == 0x200f || (0x202a
        <= code && code <= 0x202e) || (0x2066 <= code && code <= 0x2069)
}

/// A text with a character in it that may not be displayed.
pub open spec fn unsafe_text(text: Seq<char>) -> bool {
    exists|i: int| 0 <= i < text.len() && unsafe_character(#[trigger] text[i])
}

/// Whether any character of the string may not be displayed.
pub fn has_unsafe_character(text: &str) -> (result: bool)
    ensures
        result == unsafe_text(text@),
{
    let all: Vec<char> = text::characters(text);
    let mut index: usize = 0;
    while index < all.len()
        invariant
            all@ == text@,
            index <= all@.len(),
            forall|i: int| 0 <= i < index ==> !unsafe_character(#[trigger] all@[i]),
        decreases all.len() - index,
    {
        if is_unsafe_identity_character(all[index]) {
            assert(unsafe_character(text@[index as int]));
            return true;
        }
        index = index + 1;
    }
    false
}

} // verus!
