//! What texts, numbers and points in time come to, in terms of their characters
//! and of their values.

use vstd::prelude::*;

use crate::clock;
use crate::identity;
use crate::text;
use crate::usage::{Amount, Timestamp};
use crate::width;

verus! {

/// The same letter, but for its case: two equal characters, or an ASCII capital
/// and its small letter.
pub open spec fn same_letter(left: char, right: char) -> bool {
    ||| left == right
    ||| 'A' <= left <= 'Z' && right as u32 == left as u32 + 32
    ||| 'A' <= right <= 'Z' && left as u32 == right as u32 + 32
}

/// The same word, but for the case of its ASCII letters.
pub open spec fn same_word(left: Seq<char>, right: Seq<char>) -> bool {
    left.len() == right.len() && forall|i: int|
        0 <= i < left.len() ==> same_letter(#[trigger] left[i], right[i])
}

/// Texts are equal in any case exactly when they are the same word, letter by
/// letter.
pub proof fn case_alone_is_ignored(left: Seq<char>, right: Seq<char>)
    ensures
        text::equal_ignoring_case(left, right) == same_word(left, right),
{
    assert forall|a: char, b: char| (text::ascii_lower(a) == text::ascii_lower(b)) == #[trigger]
    same_letter(a, b) by {}
    if text::equal_ignoring_case(left, right) {
        assert forall|i: int| 0 <= i < left.len() implies same_letter(
            #[trigger] left[i],
            right[i],
        ) by {
            assert(text::ascii_lower(left[i]) == text::ascii_lower(right[i]));
        }
    }
    if same_word(left, right) {
        assert forall|i: int| 0 <= i < left.len() implies text::ascii_lower(#[trigger] left[i])
            == text::ascii_lower(right[i]) by {
            assert(same_letter(left[i], right[i]));
        }
    }
}

/// All characters of the text are white space.
pub open spec fn blank(target: Seq<char>) -> bool {
    forall|i: int| 0 <= i < target.len() ==> text::white_space(#[trigger] target[i])
}

/// A blank, a tab and the line ends are white space, and nothing that shows in
/// ASCII is.
pub proof fn blanks_are_white(character: char)
    ensures
        character == ' ' || character == '\t' || character == '\n' || character == '\r'
            || character == '\u{b}' || character == '\u{c}' ==> text::white_space(character),
        '!' <= character <= '~' ==> !text::white_space(character),
        text::white_space(character) <==> seq![
            9u32,
            10,
            11,
            12,
            13,
            32,
            133,
            160,
            5760,
            8192,
            8193,
            8194,
            8195,
            8196,
            8197,
            8198,
            8199,
            8200,
            8201,
            8202,
            8232,
            8233,
            8239,
            8287,
            12288,
        ].contains(character as u32),
{
    let codes = seq![
        9u32,
        10,
        11,
        12,
        13,
        32,
        133,
        160,
        5760,
        8192,
        8193,
        8194,
        8195,
        8196,
        8197,
        8198,
        8199,
        8200,
        8201,
        8202,
        8232,
        8233,
        8239,
        8287,
        12288,
    ];
    let code = character as u32;
    if text::white_space(character) {
        let place: int = if 9 <= code <= 13 {
            code as int - 9
        } else if code == 32 {
            5
        } else if code == 133 {
            6
        } else if code == 160 {
            7
        } else if code == 5760 {
            8
        } else if 8192 <= code <= 8202 {
            9 + (code as int - 8192)
        } else if code == 8232 {
            20
        } else if code == 8233 {
            21
        } else if code == 8239 {
            22
        } else if code == 8287 {
            23
        } else {
            24
        };
        assert(codes[place] == code);
    }
    if codes.contains(code) {
        let place = choose|i: int| 0 <= i < codes.len() && codes[i] == code;
        assert(0 <= place < 25);
    }
}

proof fn trimming_the_start(target: Seq<char>) -> (cut: Seq<char>)
    ensures
        target == cut + text::trimmed_start(target),
        blank(cut),
        text::trimmed_start(target).len() > 0 ==> !text::white_space(text::trimmed_start(target)[0]),
    decreases target.len(),
{
    if target.len() > 0 && text::white_space(target[0]) {
        let rest = trimming_the_start(target.skip(1));
        let cut = seq![target[0]] + rest;
        assert(target =~= seq![target[0]] + target.skip(1));
        assert(target =~= cut + text::trimmed_start(target));
        assert forall|i: int| 0 <= i < cut.len() implies text::white_space(#[trigger] cut[i]) by {
            if i > 0 {
                assert(cut[i] == rest[i - 1]);
            }
        }
        cut
    } else {
        assert(target =~= Seq::<char>::empty() + target);
        Seq::empty()
    }
}

proof fn trimming_the_end(target: Seq<char>) -> (cut: Seq<char>)
    ensures
        target == text::trimmed_end(target) + cut,
        blank(cut),
        text::trimmed_end(target).len() > 0 ==> !text::white_space(text::trimmed_end(target).last()),
        text::trimmed_end(target).len() > 0 ==> text::trimmed_end(target)[0] == target[0],
    decreases target.len(),
{
    if target.len() > 0 && text::white_space(target.last()) {
        let rest = trimming_the_end(target.drop_last());
        let cut = rest.push(target.last());
        assert(target =~= target.drop_last().push(target.last()));
        assert(target =~= text::trimmed_end(target) + cut);
        assert forall|i: int| 0 <= i < cut.len() implies text::white_space(#[trigger] cut[i]) by {
            if i < rest.len() {
                assert(cut[i] == rest[i]);
            }
        }
        cut
    } else {
        assert(target =~= target + Seq::<char>::empty());
        Seq::empty()
    }
}

/// Trimming cuts white space at both ends, all of it and nothing else.
pub proof fn trimming_cuts_the_white_ends(target: Seq<char>) -> (ends: (Seq<char>, Seq<char>))
    ensures
        target == ends.0 + text::trimmed(target) + ends.1,
        blank(ends.0),
        blank(ends.1),
        text::trimmed(target).len() > 0 ==> !text::white_space(text::trimmed(target)[0])
            && !text::white_space(text::trimmed(target).last()),
{
    let first = trimming_the_start(target);
    let last = trimming_the_end(text::trimmed_start(target));
    assert(target =~= first + text::trimmed(target) + last);
    (first, last)
}

/// A text starts with a prefix exactly when something follows the prefix to make
/// it, and ends with a suffix likewise; taking either off gives what was joined.
pub proof fn prefixes_and_suffixes_come_off(whole: Seq<char>, part: Seq<char>, rest: Seq<char>)
    ensures
        text::has_prefix(part + rest, part),
        text::without_prefix(part + rest, part) == rest,
        text::has_suffix(rest + part, part),
        text::without_suffix(rest + part, part) == rest,
        text::has_prefix(whole, part) ==> whole == part + text::without_prefix(whole, part),
        text::has_suffix(whole, part) ==> whole == text::without_suffix(whole, part) + part,
        !text::has_prefix(whole, part) ==> text::without_prefix(whole, part) == whole,
        !text::has_suffix(whole, part) ==> text::without_suffix(whole, part) == whole,
{
    assert((part + rest).take(part.len() as int) =~= part);
    assert((part + rest).skip(part.len() as int) =~= rest);
    assert((rest + part).skip(rest.len() as int) =~= part);
    assert((rest + part).take(rest.len() as int) =~= rest);
    if text::has_prefix(whole, part) {
        assert(whole =~= whole.take(part.len() as int) + whole.skip(part.len() as int));
    }
    if text::has_suffix(whole, part) {
        let place = whole.len() - part.len();
        assert(whole =~= whole.take(place) + whole.skip(place));
    }
}

/// Replacing a character changes the places that hold it and no other.
pub proof fn replacing_changes_one_character(target: Seq<char>, from: char, to: char)
    ensures
        text::replaced(target, from, to).len() == target.len(),
        forall|i: int|
            0 <= i < target.len() ==> #[trigger] text::replaced(target, from, to)[i] == (
            if target[i] == from {
                to
            } else {
                target[i]
            }),
{
}

/// Joining puts the separator between neighbours, and nowhere else.
pub proof fn joining_separates_neighbours(
    first: Seq<Seq<char>>,
    second: Seq<Seq<char>>,
    only: Seq<char>,
    separator: Seq<char>,
)
    requires
        first.len() > 0,
        second.len() > 0,
    ensures
        text::joined(Seq::empty(), separator) == Seq::<char>::empty(),
        text::joined(seq![only], separator) == only,
        text::joined(first + second, separator) == text::joined(first, separator) + separator
            + text::joined(second, separator),
    decreases second.len(),
{
    let whole = first + second;
    assert(whole.drop_last() =~= first + second.drop_last());
    assert(whole.last() == second.last());
    if second.len() > 1 {
        joining_separates_neighbours(first, second.drop_last(), only, separator);
        assert(text::joined(whole, separator) =~= text::joined(first, separator) + separator
            + text::joined(second, separator));
    } else {
        assert(first + second.drop_last() =~= first);
        assert(text::joined(second, separator) == second[0]);
    }
}

/// The number that decimal digits write.
pub open spec fn number(digits: Seq<char>) -> int
    decreases digits.len(),
{
    if digits.len() == 0 {
        0
    } else {
        10 * number(digits.drop_last()) + (digits.last() as int - '0' as int)
    }
}

/// All characters are decimal digits.
pub open spec fn all_digits(digits: Seq<char>) -> bool {
    forall|i: int| 0 <= i < digits.len() ==> '0' <= (#[trigger] digits[i]) <= '9'
}

/// A number is written in decimal digits that say it, without a leading zero.
pub proof fn digits_say_the_number(value: nat)
    ensures
        number(text::decimal_digits(value)) == value,
        all_digits(text::decimal_digits(value)),
        text::decimal_digits(value).len() > 0,
        text::decimal_digits(value)[0] == '0' ==> value == 0,
        value < 10 <==> text::decimal_digits(value).len() == 1,
        value < 100 ==> text::decimal_digits(value).len() <= 2,
    decreases value,
{
    let digits = text::decimal_digits(value);
    let digit = ('0' as u32 + value % 10) as char;
    assert('0' <= digit <= '9');
    if value >= 10 {
        digits_say_the_number(value / 10);
        let front = text::decimal_digits(value / 10);
        assert(digits == front.push(digit));
        assert(digits.drop_last() =~= front);
        assert(digits[0] == front[0]);
        assert forall|i: int| 0 <= i < digits.len() implies '0' <= (#[trigger] digits[i])
            <= '9' by {
            if i < front.len() {
                assert(digits[i] == front[i]);
            }
        }
        if value < 100 {
            assert(value / 10 < 10);
        }
    } else {
        assert(digits == seq![digit]);
        assert(digits.drop_last() =~= Seq::empty());
        assert(number(digits.drop_last()) == 0);
    }
}

/// A number below a hundred is padded to two digits that say it.
pub proof fn two_digits_say_the_number(value: nat)
    requires
        value < 100,
    ensures
        text::two_digits(value).len() == 2,
        number(text::two_digits(value)) == value,
        all_digits(text::two_digits(value)),
{
    digits_say_the_number(value);
    reveal_strlit("0");
    reveal_with_fuel(number, 3);
    let digits = text::decimal_digits(value);
    if value < 10 {
        let padded = text::two_digits(value);
        assert(padded =~= seq!['0', digits[0]]);
        assert(padded.drop_last() =~= seq!['0']);
        assert(seq!['0'].drop_last() =~= Seq::<char>::empty());
        assert(digits.drop_last() =~= Seq::<char>::empty());
    }
}

/// Texts are ordered as words in a dictionary are: the first character that
/// differs decides, and a text comes before any that goes on behind it.
pub proof fn the_first_difference_decides(
    start: Seq<char>,
    left: char,
    left_rest: Seq<char>,
    right: char,
    right_rest: Seq<char>,
)
    ensures
        left < right ==> text::comes_before(
            start.push(left) + left_rest,
            start.push(right) + right_rest,
        ),
        text::comes_before(start, start.push(right) + right_rest),
{
    let place = start.len() as int;
    let first = start.push(left) + left_rest;
    let second = start.push(right) + right_rest;
    assert(first.take(place) =~= start);
    assert(second.take(place) =~= start);
    assert(start.take(place) =~= start);
    if left < right {
        assert(text::splits_before(first, second, place));
    }
    assert(text::splits_before(start, second, place));
}

/// Nanoseconds since the epoch.
pub open spec fn moment(time: Timestamp) -> int {
    time.seconds * 1000000000 + time.nanos
}

/// A point in time as clocks give it.
pub open spec fn regular(time: Timestamp) -> bool {
    time.nanos < 1000000000
}

/// Of two points in time the earlier is the one with fewer nanoseconds since the
/// epoch.
pub proof fn earlier_is_fewer_nanoseconds(left: Timestamp, right: Timestamp)
    requires
        regular(left),
        regular(right),
    ensures
        left.earlier_than(right) <==> moment(left) < moment(right),
{
}

/// The seconds between two points in time are the whole seconds that fit between
/// them, and none where the second is not the later one.
pub proof fn seconds_between_fit_between(from: Timestamp, to: Timestamp)
    requires
        regular(from),
        regular(to),
    ensures
        moment(to) <= moment(from) ==> clock::seconds_between(from, to) == 0,
        moment(to) >= moment(from) ==> 1000000000 * clock::seconds_between(from, to) <= moment(to)
            - moment(from) < 1000000000 * (clock::seconds_between(from, to) + 1),
{
}

/// A wait is written in its two largest units: `<1m` below a minute, whole minutes
/// below an hour, hours and minutes below a day, and days and hours from there on.
pub proof fn waits_are_written_in_their_units(
    days: nat,
    hours: nat,
    minutes: nat,
    seconds: nat,
    wait: u64,
)
    requires
        wait == 86400 * days + 3600 * hours + 60 * minutes + seconds,
        hours < 24,
        minutes < 60,
        seconds < 60,
    ensures
        clock::duration(wait) == if days > 0 {
            text::decimal_digits(days) + "d"@ + text::two_digits(hours) + "h"@
        } else if hours > 0 {
            text::decimal_digits(hours) + "h"@ + text::two_digits(minutes) + "m"@
        } else if minutes > 0 {
            text::decimal_digits(minutes) + "m"@
        } else {
            "<1m"@
        },
{
    if days > 0 {
        assert(wait / 86400 == days);
        assert(wait % 86400 == 3600 * hours + 60 * minutes + seconds);
        assert(wait % 86400 / 3600 == hours);
    } else if hours > 0 {
        assert(wait / 3600 == hours);
        assert(wait % 3600 == 60 * minutes + seconds);
        assert(wait % 3600 / 60 == minutes);
    } else if minutes > 0 {
        assert(wait / 60 == minutes);
    }
}

/// How long ago something was is the wait from then to now, and `<1m ago` for
/// what has not happened yet.
pub proof fn the_past_is_a_wait_from_then(then: Timestamp, now: Timestamp, wait: u64)
    requires
        regular(then),
        regular(now),
    ensures
        moment(then) + 1000000000 * wait <= moment(now) < moment(then) + 1000000000 * (wait + 1)
            ==> clock::ago(then, now) == clock::duration(wait) + " ago"@,
        moment(now) <= moment(then) ==> clock::ago(then, now) == "<1m"@ + " ago"@,
{
    seconds_between_fit_between(then, now);
}

/// An optional point in time is written as the point in time is, and as nothing
/// where there is none.
pub proof fn missing_times_are_empty(time: Timestamp)
    ensures
        clock::optional_timestamp(Some(time)) == clock::rfc3339(time.seconds, time.nanos),
        clock::optional_timestamp(None).len() == 0,
{
}

/// What obscures a text: the control characters, and the marks that turn the
/// direction of writing.
pub proof fn what_obscures_a_text(character: char)
    ensures
        text::control(character) <==> (character as u32) < 32 || 127 <= character as u32 <= 159,
        identity::unsafe_character(character) <==> (character as u32) < 32 || 127 <= character
            as u32 <= 159 || seq![
            '\u{061c}',
            '\u{200e}',
            '\u{200f}',
            '\u{202a}',
            '\u{202b}',
            '\u{202c}',
            '\u{202d}',
            '\u{202e}',
            '\u{2066}',
            '\u{2067}',
            '\u{2068}',
            '\u{2069}',
        ].contains(character),
{
    let marks = seq![
        '\u{061c}',
        '\u{200e}',
        '\u{200f}',
        '\u{202a}',
        '\u{202b}',
        '\u{202c}',
        '\u{202d}',
        '\u{202e}',
        '\u{2066}',
        '\u{2067}',
        '\u{2068}',
        '\u{2069}',
    ];
    let code = character as u32;
    if identity::unsafe_character(character) && !text::control(character) {
        let place: int = if code == 0x061c {
            0
        } else if code == 0x200e {
            1
        } else if code == 0x200f {
            2
        } else if code <= 0x202e {
            3 + (code as int - 0x202a)
        } else {
            8 + (code as int - 0x2066)
        };
        assert(marks[place] as u32 == code);
        assert(marks[place] == character);
    }
    if marks.contains(character) {
        let place = choose|i: int| 0 <= i < marks.len() && marks[i] == character;
        assert(0 <= place < 12);
    }
}

/// A text is obscured exactly when a part of it is.
pub proof fn obscured_parts_obscure_the_text(first: Seq<char>, second: Seq<char>)
    ensures
        identity::unsafe_text(first + second) <==> identity::unsafe_text(first)
            || identity::unsafe_text(second),
        !identity::unsafe_text(Seq::empty()),
        first.len() == 1 ==> (identity::unsafe_text(first) <==> identity::unsafe_character(
            first[0],
        )),
{
    let whole = first + second;
    if identity::unsafe_text(first) {
        let i = choose|i: int| 0 <= i < first.len() && identity::unsafe_character(#[trigger] first[i]);
        assert(identity::unsafe_character(whole[i]));
    }
    if identity::unsafe_text(second) {
        let i = choose|i: int|
            0 <= i < second.len() && identity::unsafe_character(#[trigger] second[i]);
        assert(whole[first.len() + i] == second[i]);
        assert(identity::unsafe_character(whole[first.len() + i]));
    }
    if identity::unsafe_text(whole) {
        let i = choose|i: int| 0 <= i < whole.len() && identity::unsafe_character(#[trigger] whole[i]);
        if i < first.len() {
            assert(identity::unsafe_character(first[i]));
        } else {
            assert(identity::unsafe_character(second[i - first.len()]));
        }
    }
    if first.len() == 1 && identity::unsafe_character(first[0]) {
        assert(identity::unsafe_text(first));
    }
}

/// What an amount's bits say of its number, by the order of doubles: the two zeros
/// are zero, positive numbers lie between them and infinity, and a hundred is the
/// least of those that are a hundred or more.
pub proof fn bits_say_the_number(amount: Amount, other: Amount)
    ensures
        amount.zero() <==> amount.bits == 0 || amount.bits == 0x8000000000000000u64,
        amount.hundred() <==> amount.bits == 0x4059000000000000u64,
        amount.positive() <==> 1 <= amount.bits <= 0x7ff0000000000000u64,
        amount.hundred_or_more() <==> 0x4059000000000000u64 <= amount.bits
            <= 0x7ff0000000000000u64,
        amount.hundred() ==> amount.hundred_or_more(),
        amount.hundred_or_more() ==> amount.positive(),
        amount.positive() ==> !amount.zero(),
        amount.hundred_or_more() && amount.bits <= other.bits && other.positive()
            ==> other.hundred_or_more(),
{
}

/// Clipping keeps a text that fits, and else the longest start of it whose
/// characters fit, one by one.
pub proof fn clipping_keeps_the_longest_start(target: Seq<char>, room: nat)
    ensures
        width::cells(target) <= room ==> width::clipped(target, room) == target,
        width::clipped(target, room).len() <= target.len(),
        width::clipped(target, room) == target.take(width::clipped(target, room).len() as int),
        width::cells(target) > room ==> width::character_sum(width::clipped(target, room)) <= room,
        width::cells(target) > room && width::clipped(target, room).len() < target.len()
            ==> width::character_sum(
            target.take(width::clipped(target, room).len() as int + 1),
        ) > room,
{
    longest_starts(target, room);
    assert(target.take(target.len() as int) =~= target);
}

proof fn longest_starts(target: Seq<char>, room: nat)
    ensures
        width::longest_start(target, room).len() <= target.len(),
        width::longest_start(target, room) == target.take(
            width::longest_start(target, room).len() as int,
        ),
        width::character_sum(width::longest_start(target, room)) <= room,
        width::longest_start(target, room).len() < target.len() ==> width::character_sum(
            target.take(width::longest_start(target, room).len() as int + 1),
        ) > room,
    decreases target.len(),
{
    assert(target.take(target.len() as int) =~= target);
    if width::character_sum(target) > room {
        let shorter = target.drop_last();
        longest_starts(shorter, room);
        let kept = width::longest_start(shorter, room);
        assert(shorter.take(kept.len() as int) =~= target.take(kept.len() as int));
        if kept.len() < shorter.len() {
            assert(shorter.take(kept.len() as int + 1) =~= target.take(kept.len() as int + 1));
        } else {
            assert(target.take(kept.len() as int + 1) =~= target);
        }
    }
}

/// A plain character takes one cell, and a plain text as many as it has characters;
/// plain is all that shows in ASCII, and what frames, bars and dots are drawn with.
pub proof fn plain_texts_take_a_cell_each(target: Seq<char>, character: char)
    ensures
        seq![
            '─',
            '│',
            '╭',
            '╮',
            '╰',
            '╯',
            '━',
            '┄',
            '•',
            '◦',
            '◆',
            '░',
            '█',
            '▉',
            '▊',
            '▋',
            '▌',
            '▍',
            '▎',
            '▏',
        ].contains(character) || ' ' <= character <= '~' <==> width::plain_character(character),
        width::plain_character(character) ==> width::character_cells(character) == 1,
        (forall|i: int| 0 <= i < target.len() ==> ' ' <= (#[trigger] target[i]) <= '~')
            ==> width::cells(target) == target.len(),
{
    let drawn = seq![
        '─',
        '│',
        '╭',
        '╮',
        '╰',
        '╯',
        '━',
        '┄',
        '•',
        '◦',
        '◆',
        '░',
        '█',
        '▉',
        '▊',
        '▋',
        '▌',
        '▍',
        '▎',
        '▏',
    ];
    if drawn.contains(character) {
        let i = choose|i: int| 0 <= i < drawn.len() && drawn[i] == character;
        assert(0 <= i < 20);
    }
    if width::plain_character(character) && !(' ' <= character <= '~') {
        let place: int = if character == '─' {
            0
        } else if character == '│' {
            1
        } else if character == '╭' {
            2
        } else if character == '╮' {
            3
        } else if character == '╰' {
            4
        } else if character == '╯' {
            5
        } else if character == '━' {
            6
        } else if character == '┄' {
            7
        } else if character == '•' {
            8
        } else if character == '◦' {
            9
        } else if character == '◆' {
            10
        } else if character == '░' {
            11
        } else {
            12 + (character as int - '█' as int)
        };
        assert(drawn[place] == character);
    }
}

/// A text repeats its character as often as it is told.
pub proof fn repeated_texts_repeat(character: char, count: nat)
    ensures
        width::repeated(character, count).len() == count,
        forall|i: int|
            0 <= i < count ==> #[trigger] width::repeated(character, count)[i] == character,
{
}

/// A text is plain exactly when every part of it is.
pub proof fn plain_parts_make_plain_texts(first: Seq<char>, second: Seq<char>, only: char)
    ensures
        width::plain(first + second) <==> width::plain(first) && width::plain(second),
        width::plain(Seq::empty()),
        width::plain(seq![only]) <==> width::plain_character(only),
{
    let whole = first + second;
    if width::plain(whole) {
        assert forall|i: int| 0 <= i < first.len() implies width::plain_character(
            #[trigger] first[i],
        ) by {
            assert(width::plain_character(whole[i]));
        }
        assert forall|i: int| 0 <= i < second.len() implies width::plain_character(
            #[trigger] second[i],
        ) by {
            assert(width::plain_character(whole[first.len() + i]));
        }
    }
    if width::plain(seq![only]) {
        assert(width::plain_character(seq![only][0]));
    }
}

} // verus!
