//! Character classes and the small text operations the rest of the library is
//! built from, each stated over the sequence of characters a string holds.

use vstd::prelude::*;
use vstd::string::StringExecFns;
use vstd::string::StrSliceExecFns;

verus! {

/// `String::push` appends one character to the text.
pub assume_specification[ String::push ](target: &mut String, letter: char)
    ensures
        final(target)@ == old(target)@.push(letter),
;

/// The characters of a string, one element each.
pub fn characters(text: &str) -> (result: Vec<char>)
    ensures
        result@ == text@,
{
    let mut result: Vec<char> = Vec::new();
    for character in iter: text.chars()
        invariant
            result@ == text@.take(iter.index() as int),
            iter.seq() == text@,
    {
        result.push(character);
    }
    assert(text@.take(text@.len() as int) == text@);
    result
}

/// The string made of the given characters.
pub fn text_of(characters: &Vec<char>) -> (result: String)
    ensures
        result@ == characters@,
{
    text_between(characters, 0, characters.len())
}

/// The string made of the characters from `from` up to, but without, `to`.
pub fn text_between(characters: &Vec<char>, from: usize, to: usize) -> (result: String)
    requires
        from <= to <= characters@.len(),
    ensures
        result@ == characters@.subrange(from as int, to as int),
{
    let mut result = String::new();
    let mut index: usize = from;
    while index < to
        invariant
            from <= index <= to <= characters@.len(),
            result@ == characters@.subrange(from as int, index as int),
        decreases to - index,
    {
        result.push(characters[index]);
        index = index + 1;
        assert(characters@.subrange(from as int, index as int)
            == characters@.subrange(from as int, index - 1).push(characters@[index - 1]));
    }
    result
}

/// Whether two strings hold the same characters.
pub fn same_text(left: &str, right: &str) -> (result: bool)
    ensures
        result == (left@ == right@),
{
    let first: Vec<char> = characters(left);
    let second: Vec<char> = characters(right);
    if first.len() != second.len() {
        return false;
    }
    let mut index: usize = 0;
    while index < first.len()
        invariant
            first@ == left@,
            second@ == right@,
            index <= first@.len() == second@.len(),
            first@.take(index as int) == second@.take(index as int),
        decreases first.len() - index,
    {
        if first[index] != second[index] {
            assert(first@[index as int] != second@[index as int]);
            return false;
        }
        index = index + 1;
        assert(first@.take(index as int) == first@.take(index - 1).push(first@[index - 1]));
        assert(second@.take(index as int) == second@.take(index - 1).push(second@[index - 1]));
    }
    assert(first@.take(first@.len() as int) == first@);
    assert(second@.take(second@.len() as int) == second@);
    true
}

/// Two pieces of text one after the other.
pub fn join2(first: &str, second: &str) -> (result: String)
    ensures
        result@ == first@ + second@,
{
    let mut result = first.to_owned();
    result.append(second);
    result
}

/// Three pieces of text one after the other.
pub fn join3(first: &str, second: &str, third: &str) -> (result: String)
    ensures
        result@ == first@ + second@ + third@,
{
    let mut result = first.to_owned();
    result.append(second);
    result.append(third);
    result
}

/// The C0 and C1 control characters and `DEL`.
pub open spec fn control(character: char) -> bool {
    character as u32 <= 0x1f || 0x7f <= character as u32 <= 0x9f
}

/// Whether the character is a C0 or C1 control character or `DEL`.
pub fn is_control(character: char) -> (result: bool)
    ensures
        result == control(character),
{
    let code: u32 = character as u32;
    code <= 0x1f || (0x7f <= code && code <= 0x9f)
}

/// The characters Unicode calls white space.
pub open spec fn white_space(character: char) -> bool {
    let code = character as u32;
    ||| 0x09 <= code <= 0x0d
    ||| code == 0x20
    ||| code == 0x85
    ||| code == 0xa0
    ||| code == 0x1680
    ||| 0x2000 <= code <= 0x200a
    ||| code == 0x2028
    ||| code == 0x2029
    ||| code == 0x202f
    ||| code == 0x205f
    ||| code == 0x3000
}

/// Whether Unicode calls the character white space.
pub fn is_white_space(character: char) -> (result: bool)
    ensures
        result == white_space(character),
{
    let code: u32 = character as u32;
    (0x09 <= code && code <= 0x0d) || code == 0x20 || code == 0x85 || code == 0xa0 || code == 0x1680
        || (0x2000 <= code && code <= 0x200a) || code == 0x2028 || code == 0x2029 || code == 0x202f
        || code == 0x205f || code == 0x3000
}

/// The ASCII letters and digits.
pub open spec fn ascii_alphanumeric(character: char) -> bool {
    ||| '0' <= character <= '9'
    ||| 'A' <= character <= 'Z'
    ||| 'a' <= character <= 'z'
}

/// Whether the character is an ASCII letter or digit.
pub fn is_ascii_alphanumeric(character: char) -> (result: bool)
    ensures
        result == ascii_alphanumeric(character),
{
    ('0' <= character && character <= '9') || ('A' <= character && character <= 'Z') || ('a'
        <= character && character <= 'z')
}

/// The character with an ASCII capital replaced by its small letter.
pub open spec fn ascii_lower(character: char) -> char {
    if 'A' <= character <= 'Z' {
        ((character as u32 + 32) as u32) as char
    } else {
        character
    }
}

/// Whether two characters differ at most in ASCII case.
pub fn same_ignoring_case(left: char, right: char) -> (result: bool)
    ensures
        result == (ascii_lower(left) == ascii_lower(right)),
{
    let left_code: u32 = left as u32;
    let right_code: u32 = right as u32;
    let left_folded: u32 = if 65 <= left_code && left_code <= 90 {
        left_code + 32
    } else {
        left_code
    };
    let right_folded: u32 = if 65 <= right_code && right_code <= 90 {
        right_code + 32
    } else {
        right_code
    };
    left_folded == right_folded
}

/// Two texts that differ at most in ASCII case.
pub open spec fn equal_ignoring_case(left: Seq<char>, right: Seq<char>) -> bool {
    &&& left.len() == right.len()
    &&& forall|i: int|
        0 <= i < left.len() ==> ascii_lower(#[trigger] left[i]) == ascii_lower(right[i])
}

/// Whether two strings differ at most in ASCII case.
pub fn eq_ignore_ascii_case(left: &str, right: &str) -> (result: bool)
    ensures
        result == equal_ignoring_case(left@, right@),
{
    let first: Vec<char> = characters(left);
    let second: Vec<char> = characters(right);
    if first.len() != second.len() {
        return false;
    }
    let mut index: usize = 0;
    while index < first.len()
        invariant
            first@ == left@,
            second@ == right@,
            index <= first@.len() == second@.len(),
            forall|i: int|
                0 <= i < index ==> ascii_lower(#[trigger] first@[i]) == ascii_lower(second@[i]),
        decreases first.len() - index,
    {
        if !same_ignoring_case(first[index], second[index]) {
            assert(ascii_lower(first@[index as int]) != ascii_lower(second@[index as int]));
            return false;
        }
        index = index + 1;
    }
    true
}

/// The text without the white space it starts with.
pub open spec fn trimmed_start(text: Seq<char>) -> Seq<char>
    decreases text.len(),
{
    if text.len() > 0 && white_space(text[0]) {
        trimmed_start(text.skip(1))
    } else {
        text
    }
}

/// The text without the white space it ends in.
pub open spec fn trimmed_end(text: Seq<char>) -> Seq<char>
    decreases text.len(),
{
    if text.len() > 0 && white_space(text.last()) {
        trimmed_end(text.drop_last())
    } else {
        text
    }
}

/// The text without white space at either end.
pub open spec fn trimmed(text: Seq<char>) -> Seq<char> {
    trimmed_end(trimmed_start(text))
}

/// The string without white space at either end.
pub fn trim(text: &str) -> (result: &str)
    ensures
        result@ == trimmed(text@),
{
    let all: Vec<char> = characters(text);
    let mut from: usize = 0;
    assert(all@.skip(0) == all@);
    while from < all.len() && is_white_space(all[from])
        invariant
            all@ == text@,
            from <= all@.len(),
            trimmed_start(all@.skip(from as int)) == trimmed_start(all@),
        decreases all.len() - from,
    {
        assert(all@.skip(from as int).skip(1) == all@.skip(from + 1));
        from = from + 1;
    }
    let ghost start = all@.skip(from as int);
    assert(trimmed_start(all@) == start);
    let mut to: usize = all.len();
    assert(all@.subrange(from as int, to as int) == start);
    while to > from && is_white_space(all[to - 1])
        invariant
            all@ == text@,
            from <= to <= all@.len(),
            trimmed_end(all@.subrange(from as int, to as int)) == trimmed_end(start),
        decreases to,
    {
        assert(all@.subrange(from as int, to as int).drop_last() == all@.subrange(
            from as int,
            to - 1,
        ));
        to = to - 1;
    }
    assert(trimmed_end(start) == all@.subrange(from as int, to as int));
    text.substring_char(from, to)
}

/// Whether the text starts with the prefix.
pub open spec fn has_prefix(text: Seq<char>, prefix: Seq<char>) -> bool {
    prefix.len() <= text.len() && text.take(prefix.len() as int) == prefix
}

/// Whether the text ends with the suffix.
pub open spec fn has_suffix(text: Seq<char>, suffix: Seq<char>) -> bool {
    suffix.len() <= text.len() && text.skip(text.len() - suffix.len()) == suffix
}

/// Whether the string starts with the prefix.
pub fn starts_with(text: &str, prefix: &str) -> (result: bool)
    ensures
        result == has_prefix(text@, prefix@),
{
    let length: usize = prefix.unicode_len();
    if length > text.unicode_len() {
        return false;
    }
    assert(text@.subrange(0, length as int) == text@.take(length as int));
    same_text(text.substring_char(0, length), prefix)
}

/// Whether the string ends with the suffix.
pub fn ends_with(text: &str, suffix: &str) -> (result: bool)
    ensures
        result == has_suffix(text@, suffix@),
{
    let length: usize = text.unicode_len();
    let tail: usize = suffix.unicode_len();
    if tail > length {
        return false;
    }
    assert(text@.subrange(length - tail, length as int) == text@.skip(length - tail));
    same_text(text.substring_char(length - tail, length), suffix)
}

/// The text after the prefix, or the whole text where it has no such prefix.
pub open spec fn without_prefix(text: Seq<char>, prefix: Seq<char>) -> Seq<char> {
    if has_prefix(text, prefix) {
        text.skip(prefix.len() as int)
    } else {
        text
    }
}

/// The text before the suffix, or the whole text where it has no such suffix.
pub open spec fn without_suffix(text: Seq<char>, suffix: Seq<char>) -> Seq<char> {
    if has_suffix(text, suffix) {
        text.take(text.len() - suffix.len())
    } else {
        text
    }
}

/// Removes the prefix where the string starts with it.
pub fn trim_prefix<'a>(text: &'a str, prefix: &str) -> (result: &'a str)
    ensures
        result@ == without_prefix(text@, prefix@),
{
    if starts_with(text, prefix) {
        let length: usize = text.unicode_len();
        let head: usize = prefix.unicode_len();
        assert(text@.subrange(head as int, length as int) == text@.skip(head as int));
        text.substring_char(head, length)
    } else {
        text
    }
}

/// Removes the suffix where the string ends with it.
pub fn trim_suffix<'a>(text: &'a str, suffix: &str) -> (result: &'a str)
    ensures
        result@ == without_suffix(text@, suffix@),
{
    if ends_with(text, suffix) {
        let length: usize = text.unicode_len();
        let tail: usize = suffix.unicode_len();
        assert(text@.subrange(0, length - tail) == text@.take(length - tail));
        text.substring_char(0, length - tail)
    } else {
        text
    }
}

/// The text with every `from` replaced by `to`.
pub open spec fn replaced(text: Seq<char>, from: char, to: char) -> Seq<char> {
    text.map_values(|character: char| if character == from { to } else { character })
}

/// The string with every `from` replaced by `to`.
pub fn replace_char(text: &str, from: char, to: char) -> (result: String)
    ensures
        result@ == replaced(text@, from, to),
{
    let all: Vec<char> = characters(text);
    let mut result = String::new();
    let mut index: usize = 0;
    while index < all.len()
        invariant
            index <= all@.len(),
            result@ == replaced(all@.take(index as int), from, to),
        decreases all.len() - index,
    {
        assert(all@.take(index + 1) == all@.take(index as int).push(all@[index as int]));
        if all[index] == from {
            result.push(to);
        } else {
            result.push(all[index]);
        }
        index = index + 1;
        assert(result@ == replaced(all@.take(index as int), from, to));
    }
    assert(all@.take(all@.len() as int) == all@);
    result
}

/// The texts one after the other, with the separator between each two.
pub open spec fn joined(texts: Seq<Seq<char>>, separator: Seq<char>) -> Seq<char>
    decreases texts.len(),
{
    if texts.len() == 0 {
        Seq::empty()
    } else if texts.len() == 1 {
        texts[0]
    } else {
        joined(texts.drop_last(), separator) + separator + texts.last()
    }
}

/// The strings one after the other, with the separator between each two.
pub fn join(texts: &Vec<String>, separator: &str) -> (result: String)
    ensures
        result@ == joined(texts@.map_values(|part: String| part@), separator@),
{
    let ghost views = texts@.map_values(|part: String| part@);
    let mut result = String::new();
    let mut index: usize = 0;
    assert(views.take(0) =~= Seq::empty());
    while index < texts.len()
        invariant
            views == texts@.map_values(|part: String| part@),
            index <= texts@.len(),
            result@ == joined(views.take(index as int), separator@),
        decreases texts.len() - index,
    {
        proof {
            assert(views.take(index + 1).drop_last() == views.take(index as int));
            assert(views.take(index + 1).last() == texts@[index as int]@);
        }
        if index == 0 {
            result = texts[0].clone();
            assert(views.take(1)[0] == texts@[0]@);
        } else {
            result.append(separator);
            result.append(texts[index].as_str());
        }
        index = index + 1;
    }
    assert(views.take(index as int) == views);
    result
}

/// The decimal digits of a number, most significant first.
pub open spec fn decimal_digits(value: nat) -> Seq<char>
    decreases value,
{
    let digit = ('0' as u32 + value % 10) as char;
    if value < 10 {
        seq![digit]
    } else {
        decimal_digits(value / 10).push(digit)
    }
}

/// The decimal digits of a number, most significant first.
pub fn decimal(value: u64) -> (result: String)
    ensures
        result@ == decimal_digits(value as nat),
    decreases value,
{
    let digit: char = (48u8 + (value % 10) as u8) as char;
    if value < 10 {
        let mut result = String::new();
        result.push(digit);
        assert(result@ == seq![digit]);
        result
    } else {
        let mut result = decimal(value / 10);
        result.push(digit);
        result
    }
}

/// The decimal digits of a number of up to 128 bits.
pub fn wide_decimal(value: u128) -> (result: String)
    ensures
        result@ == decimal_digits(value as nat),
    decreases value,
{
    let digit: char = (48u8 + (value % 10) as u8) as char;
    if value < 10 {
        let mut result = String::new();
        result.push(digit);
        assert(result@ == seq![digit]);
        result
    } else {
        let mut result = wide_decimal(value / 10);
        result.push(digit);
        result
    }
}

/// A number below a hundred with both its decimal digits.
pub open spec fn two_digits(value: nat) -> Seq<char> {
    if value < 10 {
        "0"@ + decimal_digits(value)
    } else {
        decimal_digits(value)
    }
}

/// The number with at least two decimal digits.
pub fn padded_decimal(value: u64) -> (result: String)
    ensures
        result@ == two_digits(value as nat),
{
    if value < 10 {
        join2("0", decimal(value).as_str())
    } else {
        decimal(value)
    }
}

/// Trimming what is already trimmed changes nothing.
pub proof fn trimming_twice_changes_nothing(text: Seq<char>)
    ensures
        trimmed(trimmed(text)) == trimmed(text),
{
    start_is_clean(text);
    let start = trimmed_start(text);
    end_is_clean(start);
    end_keeps_the_front(start);
}

proof fn start_is_clean(text: Seq<char>)
    ensures
        trimmed_start(text).len() == 0 || !white_space(trimmed_start(text)[0]),
    decreases text.len(),
{
    if text.len() > 0 && white_space(text[0]) {
        start_is_clean(text.skip(1));
    }
}

proof fn end_is_clean(text: Seq<char>)
    ensures
        trimmed_end(text).len() == 0 || !white_space(trimmed_end(text).last()),
    decreases text.len(),
{
    if text.len() > 0 && white_space(text.last()) {
        end_is_clean(text.drop_last());
    }
}

proof fn end_keeps_the_front(text: Seq<char>)
    ensures
        trimmed_end(text).len() <= text.len(),
        forall|i: int| 0 <= i < trimmed_end(text).len() ==> trimmed_end(text)[i] == text[i],
    decreases text.len(),
{
    if text.len() > 0 && white_space(text.last()) {
        end_keeps_the_front(text.drop_last());
        assert forall|i: int| 0 <= i < trimmed_end(text).len() implies trimmed_end(text)[i]
            == text[i] by {
            assert(text.drop_last()[i] == text[i]);
        }
    }
}

/// How two texts stand to each other, character by character.
#[derive(Clone, Copy, Debug, PartialEq, Eq, Structural)]
pub enum TextOrder {
    Before,
    Same,
    After,
}

/// The texts agree up to `place`, and there the first one ends or has the
/// smaller character.
pub open spec fn splits_before(left: Seq<char>, right: Seq<char>, place: int) -> bool {
    &&& 0 <= place <= left.len()
    &&& place < right.len()
    &&& left.take(place) == right.take(place)
    &&& place == left.len() || left[place] < right[place]
}

/// The first text stands before the second in dictionary order.
pub open spec fn comes_before(left: Seq<char>, right: Seq<char>) -> bool {
    exists|place: int| splits_before(left, right, place)
}

/// How the first string stands to the second in dictionary order.
pub fn order(left: &str, right: &str) -> (result: TextOrder)
    ensures
        match result {
            TextOrder::Before => comes_before(left@, right@),
            TextOrder::Same => left@ == right@,
            TextOrder::After => comes_before(right@, left@),
        },
{
    let first: Vec<char> = characters(left);
    let second: Vec<char> = characters(right);
    let mut index: usize = 0;
    loop
        invariant
            first@ == left@,
            second@ == right@,
            index <= first@.len(),
            index <= second@.len(),
            first@.take(index as int) == second@.take(index as int),
        decreases first.len() - index,
    {
        if index == first.len() {
            if index == second.len() {
                assert(first@.take(index as int) == first@);
                assert(second@.take(index as int) == second@);
                return TextOrder::Same;
            }
            assert(splits_before(left@, right@, index as int));
            return TextOrder::Before;
        }
        if index == second.len() {
            assert(splits_before(right@, left@, index as int));
            return TextOrder::After;
        }
        if first[index] < second[index] {
            assert(splits_before(left@, right@, index as int));
            return TextOrder::Before;
        }
        if second[index] < first[index] {
            assert(splits_before(right@, left@, index as int));
            return TextOrder::After;
        }
        assert(first@.take(index + 1) == first@.take(index as int).push(first@[index as int]));
        assert(second@.take(index + 1) == second@.take(index as int).push(second@[index as int]));
        index = index + 1;
    }
}

/// Dictionary order is strict: of two texts at most one comes before the other,
/// and none comes before itself.
pub proof fn order_is_strict(left: Seq<char>, right: Seq<char>)
    requires
        comes_before(left, right),
    ensures
        left != right,
        !comes_before(right, left),
{
    let place = choose|place: int| splits_before(left, right, place);
    if comes_before(right, left) {
        let other = choose|other: int| splits_before(right, left, other);
        if place < other {
            assert(left.take(other)[place] == right.take(other)[place]);
        }
        if other < place {
            assert(left.take(place)[other] == right.take(place)[other]);
        }
    }
}

/// Dictionary order is transitive.
pub proof fn order_is_transitive(first: Seq<char>, second: Seq<char>, third: Seq<char>)
    requires
        comes_before(first, second),
        comes_before(second, third),
    ensures
        comes_before(first, third),
{
    let left = choose|place: int| splits_before(first, second, place);
    let right = choose|place: int| splits_before(second, third, place);
    let place = if left <= right {
        left
    } else {
        right
    };
    assert(first.take(place) =~= third.take(place)) by {
        assert forall|i: int| 0 <= i < place implies first[i] == third[i] by {
            assert(first.take(left)[i] == second.take(left)[i]);
            assert(second.take(right)[i] == third.take(right)[i]);
        }
    }
    if left < right {
        assert(second.take(right)[left] == third.take(right)[left]);
    }
    if right < left {
        assert(first.take(left)[right] == second.take(left)[right]);
    }
    assert(splits_before(first, third, place));
}

/// Of two texts that differ, one comes before the other.
pub proof fn order_is_total(left: Seq<char>, right: Seq<char>)
    ensures
        left == right || comes_before(left, right) || comes_before(right, left),
{
    assert(left.take(0) =~= right.take(0));
    order_is_decided(left, right, 0);
}

proof fn order_is_decided(left: Seq<char>, right: Seq<char>, place: int)
    requires
        0 <= place <= left.len(),
        place <= right.len(),
        left.take(place) == right.take(place),
    ensures
        left == right || comes_before(left, right) || comes_before(right, left),
    decreases left.len() - place,
{
    if place == left.len() && place == right.len() {
        assert(left.take(place) == left);
        assert(right.take(place) == right);
    } else if place == left.len() {
        assert(splits_before(left, right, place));
    } else if place == right.len() {
        assert(splits_before(right, left, place));
    } else if left[place] < right[place] {
        assert(splits_before(left, right, place));
    } else if right[place] < left[place] {
        assert(splits_before(right, left, place));
    } else {
        assert(left.take(place + 1) == left.take(place).push(left[place]));
        assert(right.take(place + 1) == right.take(place).push(right[place]));
        order_is_decided(left, right, place + 1);
    }
}

/// What `str::to_lowercase` makes of a text.
pub uninterp spec fn lower_case(target: Seq<char>) -> Seq<char>;

/// The text in lower case, as `str::to_lowercase` writes it.
///
/// Trusted: the result is a function of the text.
#[verifier::external_body]
pub(crate) fn to_lower_case(target: &str) -> (result: String)
    ensures
        result@ == lower_case(target@),
{
    target.to_lowercase()
}

} // verus!
