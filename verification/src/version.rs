//! Whether the daemon that answers is older than this client.

use vstd::prelude::*;
use vstd::string::StringExecFns;

use crate::text;

verus! {

/// The number a text of decimal digits stands for.
pub open spec fn digits_value(digits: Seq<char>) -> nat
    decreases digits.len(),
{
    if digits.len() == 0 {
        0
    } else {
        digits_value(digits.drop_last()) * 10 + (digits.last() as u32 - '0' as u32) as nat
    }
}

/// Nothing but decimal digits, and at least one.
pub open spec fn all_digits(digits: Seq<char>) -> bool {
    digits.len() > 0 && forall|i: int| 0 <= i < digits.len() ==> '0' <= #[trigger] digits[i] <= '9'
}

/// The text without the plus sign it may start with.
pub open spec fn unsigned_part(part: Seq<char>) -> Seq<char> {
    if part.len() > 0 && part[0] == '+' {
        part.skip(1)
    } else {
        part
    }
}

/// The number a version part stands for, if it is one that fits.
pub open spec fn number_of(part: Seq<char>) -> Option<u64> {
    let digits = unsigned_part(part);
    if all_digits(digits) && digits_value(digits) <= u64::MAX {
        Some(digits_value(digits) as u64)
    } else {
        None
    }
}

proof fn value_grows(digits: Seq<char>, count: int)
    requires
        all_digits(digits),
        0 <= count <= digits.len(),
    ensures
        digits_value(digits.take(count)) <= digits_value(digits),
    decreases digits.len() - count,
{
    if count < digits.len() {
        value_grows(digits, count + 1);
        assert(digits.take(count + 1).drop_last() == digits.take(count));
        assert('0' <= digits[count]);
    } else {
        assert(digits.take(count) == digits);
    }
}

fn parse_number(part: &str) -> (result: Option<u64>)
    ensures
        result == number_of(part@),
{
    let all: Vec<char> = text::characters(part);
    let start: usize = if all.len() > 0 && all[0] == '+' {
        1
    } else {
        0
    };
    let ghost digits = unsigned_part(part@);
    assert(digits == all@.skip(start as int)) by {
        assert(all@.skip(0) == all@);
    }
    if start == all.len() {
        return None;
    }
    let mut value: u64 = 0;
    let mut index: usize = start;
    let mut overflow = false;
    assert(digits.take(0) =~= Seq::empty());
    while index < all.len()
        invariant
            digits == all@.skip(start as int),
            digits == unsigned_part(part@),
            start <= index <= all@.len(),
            forall|i: int| 0 <= i < index - start ==> '0' <= #[trigger] digits[i] <= '9',
            !overflow ==> value == digits_value(digits.take(index - start)),
            overflow ==> digits_value(digits.take(index - start)) > u64::MAX,
        decreases all.len() - index,
    {
        let character: char = all[index];
        assert(digits[index - start] == character);
        if !('0' <= character && character <= '9') {
            return None;
        }
        let digit: u64 = (character as u32 - 48) as u64;
        proof {
            assert(digits.take(index - start + 1).drop_last() == digits.take(index - start));
            assert(digits.take(index - start + 1).last() == character);
        }
        if !overflow {
            if value > (u64::MAX - digit) / 10 {
                overflow = true;
            } else {
                value = value * 10 + digit;
            }
        }
        index = index + 1;
    }
    assert(digits.take(index - start) == digits);
    if overflow {
        None
    } else {
        Some(value)
    }
}

/// The version without its suffix: what stands before the first hyphen.
pub open spec fn release(version: Seq<char>) -> Seq<char> {
    if version.contains('-') {
        version.take(version.index_of_first('-')->0)
    } else {
        version
    }
}

/// The parts of a release, between its dots.
pub open spec fn release_parts(release: Seq<char>) -> Seq<Seq<char>>
    decreases release.len(),
{
    if release.len() == 0 {
        seq![Seq::empty()]
    } else {
        let before = release_parts(release.drop_last());
        if release.last() == '.' {
            before.push(Seq::empty())
        } else {
            before.drop_last().push(before.last().push(release.last()))
        }
    }
}

fn release_length(version: &Vec<char>) -> (result: usize)
    ensures
        result <= version@.len(),
        release(version@) == version@.take(result as int),
{
    let mut index: usize = 0;
    while index < version.len()
        invariant
            index <= version@.len(),
            forall|i: int| 0 <= i < index ==> version@[i] != '-',
        decreases version.len() - index,
    {
        if version[index] == '-' {
            proof {
                assert(version@.contains('-'));
                version@.index_of_first_ensures('-');
            }
            return index;
        }
        index = index + 1;
    }
    assert(version@.take(index as int) == version@);
    index
}

fn split_release(version: &str) -> (result: Vec<String>)
    ensures
        crate::summary::filter::text_views(result@) == release_parts(release(version@)),
{
    let all: Vec<char> = text::characters(version);
    let length: usize = release_length(&all);
    let mut parts: Vec<String> = Vec::new();
    let mut current = String::new();
    let mut index: usize = 0;
    assert(all@.take(0) =~= Seq::empty());
    assert(crate::summary::filter::text_views(parts@).push(current@) =~= seq![
        Seq::<char>::empty(),
    ]);
    while index < length
        invariant
            all@ == version@,
            index <= length <= all@.len(),
            crate::summary::filter::text_views(parts@).push(current@) == release_parts(
                all@.take(index as int),
            ),
        decreases length - index,
    {
        let character: char = all[index];
        let ghost views = crate::summary::filter::text_views(parts@);
        proof {
            assert(all@.take(index + 1).drop_last() == all@.take(index as int));
            assert(all@.take(index + 1).last() == character);
            assert(views.push(current@).drop_last() == views);
        }
        if character == '.' {
            assert(crate::summary::filter::text_views(parts@.push(current)) =~= views.push(
                current@,
            ));
            parts.push(current);
            current = String::new();
        } else {
            current.push(character);
        }
        index = index + 1;
    }
    assert(crate::summary::filter::text_views(parts@.push(current))
        =~= crate::summary::filter::text_views(parts@).push(current@));
    parts.push(current);
    parts
}

/// The version a text stands for: three numbers with dots between them, and
/// maybe a suffix behind a hyphen.
pub open spec fn version_of(version: Seq<char>) -> Option<(u64, u64, u64)> {
    let parts = release_parts(release(version));
    if parts.len() == 3 {
        match (number_of(parts[0]), number_of(parts[1]), number_of(parts[2])) {
            (Some(major), Some(minor), Some(patch)) => Some((major, minor, patch)),
            _ => None,
        }
    } else {
        None
    }
}

/// Dotted numeric triple for build versions like `0.1.6`; a `-suffix`
/// (pre-release or local build tag) is ignored. Anything else is not
/// comparable and yields `None`.
pub fn parse_build_version(version: &str) -> (result: Option<(u64, u64, u64)>)
    ensures
        result == version_of(version@),
{
    let parts = split_release(version);
    let ghost views = crate::summary::filter::text_views(parts@);
    if parts.len() != 3 {
        return None;
    }
    assert(views[0] == parts@[0]@ && views[1] == parts@[1]@ && views[2] == parts@[2]@);
    let major = parse_number(parts[0].as_str());
    let minor = parse_number(parts[1].as_str());
    let patch = parse_number(parts[2].as_str());
    match (major, minor, patch) {
        (Some(major), Some(minor), Some(patch)) => Some((major, minor, patch)),
        _ => None,
    }
}

/// The first version comes before the second.
pub open spec fn older(left: (u64, u64, u64), right: (u64, u64, u64)) -> bool {
    ||| left.0 < right.0
    ||| left.0 == right.0 && left.1 < right.1
    ||| left.0 == right.0 && left.1 == right.1 && left.2 < right.2
}

/// The daemon is known to be older than this client: it reports no version at
/// all, or one that comes before.
pub open spec fn daemon_is_older(daemon: Option<Seq<char>>, client: Seq<char>) -> bool {
    match daemon {
        None => true,
        Some(version) => match (version_of(version), version_of(client)) {
            (Some(left), Some(right)) => older(left, right),
            _ => false,
        },
    }
}

/// The warning about an older daemon.
pub open spec fn upgrade_warning(daemon: Seq<char>, client: Seq<char>) -> Seq<char> {
    "warning: the running daemon ("@ + daemon + ") is older than this CLI ("@ + client
        + "); upgrades and new providers stay invisible until it is restarted\n  upgrade: ullage daemon install"@
}

/// The warning about an older daemon, where it is one.
pub open spec fn upgrade_notice_is(
    daemon_version: Option<&str>,
    cli_version: &str,
    result: Option<String>,
) -> bool {
    crate::validate::optional_view(result) == if daemon_is_older(
        crate::errors::slice_view(daemon_version),
        cli_version@,
    ) {
        Some(
            upgrade_warning(
                match daemon_version {
                    Some(version) => version@,
                    None => "unknown, predates version reporting"@,
                },
                cli_version@,
            ),
        )
    } else {
        None
    }
}

/// Warning text when the answering daemon is older than this CLI build. A
/// missing daemon version means the daemon predates the field, which is
/// always older than a client that understands it. Unparseable versions
/// stay silent rather than warn on a build that may simply be newer.
pub fn daemon_upgrade_notice(daemon_version: Option<&str>, cli_version: &str) -> (result: Option<
    String,
>)
    ensures
        upgrade_notice_is(daemon_version, cli_version, result),
{
    let is_older = match daemon_version {
        None => true,
        Some(version) => match (parse_build_version(version), parse_build_version(cli_version)) {
            (Some(daemon), Some(cli)) => daemon.0 < cli.0 || (daemon.0 == cli.0 && daemon.1
                < cli.1) || (daemon.0 == cli.0 && daemon.1 == cli.1 && daemon.2 < cli.2),
            _ => false,
        },
    };
    if !is_older {
        return None;
    }
    let daemon = match daemon_version {
        Some(version) => version,
        None => "unknown, predates version reporting",
    };
    let mut notice = text::join3("warning: the running daemon (", daemon, ") is older than this CLI (");
    notice.append(cli_version);
    notice.append(
        "); upgrades and new providers stay invisible until it is restarted\n  upgrade: ullage daemon install",
    );
    Some(notice)
}

/// A daemon of the client's own version draws no warning, and of two versions
/// at most one draws a warning about the other.
pub proof fn only_older_daemons_are_warned_about(daemon: Seq<char>, client: Seq<char>)
    ensures
        !daemon_is_older(Some(client), client),
        daemon_is_older(Some(daemon), client) ==> !daemon_is_older(Some(client), daemon),
{
}

/// What stands behind the first hyphen of a version does not count.
pub proof fn suffixes_are_ignored(release: Seq<char>, suffix: Seq<char>)
    requires
        !release.contains('-'),
    ensures
        version_of(release.push('-') + suffix) == version_of(release),
{
    let whole = release.push('-') + suffix;
    let place = release.len() as int;
    assert(whole[place] == '-');
    assert(whole.contains('-'));
    whole.index_of_first_ensures('-');
    let first = whole.index_of_first('-')->0;
    assert(first == place) by {
        if first < place {
            assert(release[first] == whole[first]);
        }
    }
    assert(whole.take(place) == release);
}

} // verus!
