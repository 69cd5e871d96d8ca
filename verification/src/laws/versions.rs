//! How versions compare.

use vstd::prelude::*;

use crate::laws::texts;
use crate::text;
use crate::version;

verus! {

/// A release of three numbers, as it is written.
pub open spec fn written(major: u64, minor: u64, patch: u64) -> Seq<char> {
    text::decimal_digits(major as nat) + seq!['.'] + text::decimal_digits(minor as nat) + seq!['.']
        + text::decimal_digits(patch as nat)
}

proof fn values_are_numbers(digits: Seq<char>)
    requires
        texts::all_digits(digits),
    ensures
        version::digits_value(digits) == texts::number(digits),
    decreases digits.len(),
{
    if digits.len() > 0 {
        let front = digits.drop_last();
        assert forall|i: int| 0 <= i < front.len() implies '0' <= (#[trigger] front[i]) <= '9' by {
            assert(front[i] == digits[i]);
        }
        values_are_numbers(front);
        let last = digits[digits.len() - 1];
        assert('0' <= last <= '9');
    }
}

proof fn numbers_are_read(value: u64)
    ensures
        version::number_of(text::decimal_digits(value as nat)) == Some(value),
{
    let digits = text::decimal_digits(value as nat);
    texts::digits_say_the_number(value as nat);
    values_are_numbers(digits);
    assert('0' <= digits[0] <= '9');
    assert(version::unsigned_part(digits) == digits);
    assert(version::all_digits(digits));
}

proof fn parts_grow_by_plain_text(start: Seq<char>, more: Seq<char>)
    requires
        forall|i: int| 0 <= i < more.len() ==> #[trigger] more[i] != '.',
    ensures
        version::release_parts(start).len() > 0,
        version::release_parts(start + more) == version::release_parts(start).drop_last().push(
            version::release_parts(start).last() + more,
        ),
    decreases start.len() + more.len(),
{
    let parts = version::release_parts(start);
    if more.len() > 0 {
        let front = more.drop_last();
        assert forall|i: int| 0 <= i < front.len() implies #[trigger] front[i] != '.' by {
            assert(front[i] == more[i]);
        }
        parts_grow_by_plain_text(start, front);
        let whole = start + more;
        assert(whole.drop_last() =~= start + front);
        assert(whole.last() == more[more.len() - 1]);
        let before = version::release_parts(start + front);
        assert(before.drop_last() =~= parts.drop_last());
        assert(before.last() == parts.last() + front);
        assert((parts.last() + front).push(more.last()) =~= parts.last() + more);
    } else {
        assert(start + more =~= start);
        if start.len() > 0 {
            parts_grow_by_plain_text(start.drop_last(), Seq::empty());
            assert(start.drop_last() + Seq::<char>::empty() =~= start.drop_last());
        }
        assert(parts.last() + more =~= parts.last());
        assert(parts.drop_last().push(parts.last()) =~= parts);
    }
}

/// What is written as three numbers with dots between is read as those numbers.
pub proof fn written_versions_are_read(major: u64, minor: u64, patch: u64)
    ensures
        version::version_of(written(major, minor, patch)) == Some((major, minor, patch)),
{
    let first = text::decimal_digits(major as nat);
    let second = text::decimal_digits(minor as nat);
    let third = text::decimal_digits(patch as nat);
    let whole = written(major, minor, patch);
    texts::digits_say_the_number(major as nat);
    texts::digits_say_the_number(minor as nat);
    texts::digits_say_the_number(patch as nat);
    numbers_are_read(major);
    numbers_are_read(minor);
    numbers_are_read(patch);
    let empty = Seq::<char>::empty();
    let one = first + seq!['.'];
    let two = one + second;
    let three = two + seq!['.'];
    assert forall|i: int| 0 <= i < whole.len() implies #[trigger] whole[i] != '-' by {
        if i < first.len() {
            assert(whole[i] == first[i]);
        } else if i == first.len() {
        } else if i < two.len() {
            assert(whole[i] == second[i - one.len()]);
        } else if i == two.len() {
        } else {
            assert(whole[i] == third[i - three.len()]);
        }
    }
    assert(!whole.contains('-'));
    assert(version::release(whole) == whole);
    assert(version::release_parts(empty) =~= seq![empty]);
    parts_grow_by_plain_text(empty, first);
    assert(empty + first =~= first);
    assert(version::release_parts(first) =~= seq![first]) by {
        assert(seq![empty].drop_last() =~= Seq::<Seq<char>>::empty());
    }
    assert(one.drop_last() =~= first);
    assert(one.last() == '.');
    assert(version::release_parts(one) =~= seq![first, empty]);
    parts_grow_by_plain_text(one, second);
    assert(empty + second =~= second);
    assert(version::release_parts(two) =~= seq![first, second]);
    assert(three.drop_last() =~= two);
    assert(three.last() == '.');
    assert(version::release_parts(three) =~= seq![first, second, empty]);
    parts_grow_by_plain_text(three, third);
    assert(empty + third =~= third);
    assert(whole =~= three + third);
    assert(version::release_parts(whole) =~= seq![first, second, third]);
}

/// The order of a version among all: its first number counts most.
pub open spec fn rank(major: u64, minor: u64, patch: u64) -> int {
    major * 0x100000000000000000000000000000000int + minor * 0x10000000000000000int + patch
}

/// A daemon is older than the client exactly when its version ranks before the
/// client's; one that tells no version is, and one that cannot be read is not.
pub proof fn older_daemons_rank_before(
    major: u64,
    minor: u64,
    patch: u64,
    client_major: u64,
    client_minor: u64,
    client_patch: u64,
    unreadable: Seq<char>,
)
    ensures
        version::daemon_is_older(
            Some(written(major, minor, patch)),
            written(client_major, client_minor, client_patch),
        ) <==> rank(major, minor, patch) < rank(client_major, client_minor, client_patch),
        version::daemon_is_older(None, unreadable),
        version::version_of(unreadable) is None ==> !version::daemon_is_older(
            Some(unreadable),
            written(client_major, client_minor, client_patch),
        ),
{
    written_versions_are_read(major, minor, patch);
    written_versions_are_read(client_major, client_minor, client_patch);
}

/// The warning names the daemon's version and the client's, and how to upgrade.
pub proof fn warnings_name_both_versions(daemon: Seq<char>, client: Seq<char>)
    ensures
        version::upgrade_warning(daemon, client) == "warning: the running daemon ("@ + daemon
            + ") is older than this CLI ("@ + client
            + "); upgrades and new providers stay invisible until it is restarted\n  upgrade: ullage daemon install"@,
{
}

/// The notice is the warning where the daemon is older, with the version that it
/// told, and none else.
pub proof fn notices_warn_of_older_daemons(
    daemon: Option<&str>,
    client: &str,
    notice: Option<String>,
)
    requires
        version::upgrade_notice_is(daemon, client, notice),
    ensures
        daemon matches Some(told) ==> (notice is Some <==> version::daemon_is_older(
            Some(told@),
            client@,
        )),
        daemon is None ==> notice is Some,
        notice is Some && daemon is Some ==> notice->0@ == version::upgrade_warning(
            daemon->0@,
            client@,
        ),
        notice is Some && daemon is None ==> notice->0@ == version::upgrade_warning(
            "unknown, predates version reporting"@,
            client@,
        ),
{
}

/// A part of a version is read with a plus sign before it too, and not at all where
/// anything but digits stands in it.
pub proof fn parts_are_read_by_their_digits(value: u64, part: Seq<char>, place: int)
    ensures
        version::number_of(seq!['+'] + text::decimal_digits(value as nat)) == Some(value),
        version::number_of(text::decimal_digits(value as nat)) == Some(value),
        version::number_of(Seq::empty()) is None,
        1 <= place < part.len() && !('0' <= part[place] <= '9') ==> version::number_of(part)
            is None,
        part.len() > 0 && part[0] != '+' && !('0' <= part[0] <= '9') ==> version::number_of(part)
            is None,
        version::number_of(part) is Some && part[0] != '+' ==> texts::number(part)
            == version::number_of(part)->0,
{
    numbers_are_read(value);
    let digits = text::decimal_digits(value as nat);
    let signed = seq!['+'] + digits;
    assert(signed[0] == '+');
    assert(signed.skip(1) =~= digits);
    texts::digits_say_the_number(value as nat);
    assert('0' <= digits[0] <= '9');
    assert(version::unsigned_part(signed) == digits);
    assert(version::unsigned_part(digits) == digits);
    let rest = version::unsigned_part(part);
    if 1 <= place < part.len() && !('0' <= part[place] <= '9') {
        if part[0] == '+' {
            assert(rest[place - 1] == part[place]);
        } else {
            assert(rest[place] == part[place]);
        }
    }
    if part.len() > 0 && part[0] != '+' && !('0' <= part[0] <= '9') {
        assert(rest[0] == part[0]);
    }
    if version::number_of(part) is Some && part[0] != '+' {
        assert(rest == part);
        assert forall|i: int| 0 <= i < part.len() implies '0' <= (#[trigger] part[i]) <= '9' by {
            assert('0' <= rest[i] <= '9');
        }
        values_are_numbers(part);
    }
}

} // verus!
