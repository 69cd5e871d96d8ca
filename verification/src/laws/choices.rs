//! Which rows of a report a command shows.

use vstd::prelude::*;

use crate::cli::{Cli, Command, OutputFormat};
use crate::dispatch;
use crate::document;
use crate::document::BlockView;
use crate::error::QueryOutcome;
use crate::laws::summaries;
use crate::laws::texts;
use crate::protocol::{ControlResult, ProbePayload, SnapshotPayload};
use crate::render;
use crate::render::{MetricFilterChoice, Rendered};
use crate::summary;
use crate::summary::filter;
use crate::summary::filter::MetricFilterMode;
use crate::summary::RowView;
use crate::text;
use crate::usage::{SubscriptionUsage, Timestamp};

verus! {

/// The metric is one of those names: the same word in any case, whatever blanks
/// stand around either.
pub open spec fn named(names: Seq<Seq<char>>, metric: Seq<char>) -> bool {
    exists|j: int|
        0 <= j < names.len() && texts::same_word(
            text::trimmed(#[trigger] names[j]),
            text::trimmed(metric),
        )
}

/// At most 64 names, each fit for a filter.
pub open spec fn fit(names: Seq<Seq<char>>) -> bool {
    names.len() <= 64 && forall|i: int|
        0 <= i < names.len() ==> summaries::fit_for_a_filter(#[trigger] names[i])
}

/// Whether a command shows a row with that metric, of an account that has those
/// names stored. A show with names on its command line shows those; one that asks
/// for no filter shows all; any other command shows all that the account does not
/// name, and stored names that are not fit for a filter hide nothing.
pub open spec fn wanted(command: Command, stored: Seq<Seq<char>>, metric: Seq<char>) -> bool {
    if command is Show && command->Show_0.metric@.len() > 0 {
        named(filter::text_views(command->Show_0.metric@), metric)
    } else if command is Show && command->Show_0.no_metric_filter {
        true
    } else {
        !(fit(stored) && named(stored, metric))
    }
}

proof fn words_carry_over(first: Seq<char>, second: Seq<char>, third: Seq<char>)
    requires
        texts::same_word(first, second),
    ensures
        texts::same_word(second, third) == texts::same_word(first, third),
        texts::same_word(second, first),
{
    texts::case_alone_is_ignored(first, second);
    texts::case_alone_is_ignored(second, third);
    texts::case_alone_is_ignored(first, third);
    texts::case_alone_is_ignored(second, first);
}

/// A filter made of names has the metrics among its own that were named.
pub proof fn filters_have_what_was_named(names: Seq<Seq<char>>, metric: Seq<char>)
    ensures
        summaries::among(filter::normalized(names), metric) == named(names, metric),
        names.len() > 0 ==> filter::normalized(names).len() > 0,
        names.len() == 0 ==> filter::normalized(names).len() == 0,
{
    let kept = filter::normalized(names);
    let inner = text::trimmed(metric);
    summaries::filters_keep_every_word_once(names, 0);
    if summaries::among(kept, metric) {
        let i = choose|i: int| 0 <= i < kept.len() && texts::same_word(#[trigger] kept[i], inner);
        let j = choose|j: int|
            0 <= j < names.len() && #[trigger] kept[i] == text::trimmed(#[trigger] names[j]);
        assert(texts::same_word(text::trimmed(names[j]), inner));
    }
    if named(names, metric) {
        let j = choose|j: int|
            0 <= j < names.len() && texts::same_word(text::trimmed(#[trigger] names[j]), inner);
        summaries::filters_keep_every_word_once(names, j);
        let i = choose|i: int|
            0 <= i < kept.len() && texts::same_word(#[trigger] kept[i], text::trimmed(names[j]));
        words_carry_over(kept[i], text::trimmed(names[j]), inner);
        assert(texts::same_word(kept[i], inner));
    }
}

/// The filter that a command chooses shows the metrics that the command wants.
proof fn choices_show_what_is_wanted(
    command: Command,
    choice: MetricFilterChoice,
    saved: Seq<String>,
    metric: Seq<char>,
)
    requires
        dispatch::chooses(command, choice),
    ensures
        filter::shown_under(
            render::chosen_names(choice, saved),
            render::chosen_mode(choice),
            metric,
        ) == wanted(command, filter::text_views(saved), metric),
{
    let stored = filter::text_views(saved);
    summaries::selected_is_among(render::chosen_names(choice, saved), metric);
    filters_have_what_was_named(stored, metric);
    summaries::filters_report_the_first_unfit_name(stored, 0);
    if command is Show {
        filters_have_what_was_named(filter::text_views(command->Show_0.metric@), metric);
    }
}

/// A block that is no list of summary rows.
pub open spec fn no_rows(block: BlockView) -> bool {
    !(block is Rows)
}

proof fn summaries_hold_the_shown_rows(
    outcome: QueryOutcome<SubscriptionUsage>,
    stale: bool,
    reveal: bool,
    diagnose: bool,
    now: Timestamp,
    names: Seq<Seq<char>>,
    mode: MetricFilterMode,
)
    ensures
        ({
            let blocks = render::summary_blocks(
                outcome,
                stale,
                reveal,
                diagnose,
                now,
                names,
                mode,
            );
            let shown = filter::rows_under(
                summary::report_rows(outcome.payload().windows@),
                names,
                mode,
            );
            &&& forall|i: int|
                0 <= i < blocks.len() && (#[trigger] blocks[i]) is Rows ==> blocks[i]
                    == BlockView::Rows(shown)
            &&& shown.len() > 0 ==> exists|i: int|
                0 <= i < blocks.len() && #[trigger] blocks[i] == BlockView::Rows(shown)
        }),
{
    reveal(Seq::filter);
    let usage = outcome.payload();
    let rows = summary::report_rows(usage.windows@);
    let shown = filter::rows_under(rows, names, mode);
    let blocks = render::summary_blocks(outcome, stale, reveal, diagnose, now, names, mode);
    let limit = summary::any_limit_hit(usage.windows@);
    let notes = render::note_blocks(limit, outcome, stale, diagnose);
    assert forall|i: int| 0 <= i < notes.len() implies no_rows(#[trigger] notes[i]) by {}
    let head: int = blocks.len() - notes.len();
    assert forall|i: int| head <= i < blocks.len() implies no_rows(#[trigger] blocks[i]) by {
        assert(blocks[i] == notes[i - head]);
    }
    if rows.len() == 0 {
        assert(shown.len() == 0);
        assert(head == 3);
    } else if shown.len() == 0 {
        assert(head == 2);
    } else {
        let place: int = if usage.subscription_expires_at is Some {
            1
        } else {
            0
        };
        assert(head == place + 2);
        assert(blocks[place] == BlockView::Rows(shown));
    }
}

/// The rows of a snapshot's report.
pub open spec fn report_of(snapshot: SnapshotPayload) -> Seq<RowView> {
    summary::report_rows(snapshot.usage.payload().windows@)
}

/// The names stored with a snapshot's account.
pub open spec fn stored_with(snapshot: SnapshotPayload) -> Seq<Seq<char>> {
    filter::text_views(snapshot.metrics@)
}

/// The block is a list of rows, each of which the snapshot reports and the command
/// wants.
pub open spec fn lists_wanted(
    command: Command,
    snapshot: SnapshotPayload,
    block: BlockView,
) -> bool {
    block matches BlockView::Rows(rows) && forall|i: int|
        0 <= i < rows.len() ==> report_of(snapshot).contains(#[trigger] rows[i]) && wanted(
            command,
            stored_with(snapshot),
            rows[i].metric,
        )
}

/// The block is a list of rows with that one.
pub open spec fn lists_row(block: BlockView, row: RowView) -> bool {
    block matches BlockView::Rows(rows) && rows.contains(row)
}

proof fn snapshots_show_their_wanted_rows(
    command: Command,
    snapshot: SnapshotPayload,
    show_account: bool,
    reveal: bool,
    diagnose: bool,
    choice: MetricFilterChoice,
    now: Timestamp,
)
    requires
        dispatch::chooses(command, choice),
    ensures
        ({
            let blocks = render::snapshot_blocks(
                snapshot,
                show_account,
                reveal,
                false,
                diagnose,
                choice,
                now,
            );
            &&& forall|i: int|
                0 <= i < blocks.len() && (#[trigger] blocks[i]) is Rows ==> lists_wanted(
                    command,
                    snapshot,
                    blocks[i],
                )
            &&& forall|k: int|
                0 <= k < report_of(snapshot).len() && wanted(
                    command,
                    stored_with(snapshot),
                    (#[trigger] report_of(snapshot)[k]).metric,
                ) ==> exists|i: int|
                    0 <= i < blocks.len() && lists_row(
                        #[trigger] blocks[i],
                        report_of(snapshot)[k],
                    )
        }),
{
    let names = render::chosen_names(choice, snapshot.metrics@);
    let mode = render::chosen_mode(choice);
    let rows = report_of(snapshot);
    let shown = filter::rows_under(rows, names, mode);
    let inner = render::summary_blocks(
        snapshot.usage,
        snapshot.stale,
        reveal,
        diagnose,
        now,
        names,
        mode,
    );
    let blocks = render::snapshot_blocks(
        snapshot,
        show_account,
        reveal,
        false,
        diagnose,
        choice,
        now,
    );
    summaries_hold_the_shown_rows(snapshot.usage, snapshot.stale, reveal, diagnose, now, names, mode);
    assert forall|metric: Seq<char>| #[trigger]
        filter::shown_under(names, mode, metric) == wanted(
            command,
            stored_with(snapshot),
            metric,
        ) by {
        choices_show_what_is_wanted(command, choice, snapshot.metrics@, metric);
    }
    let passes = |row: RowView| filter::shown_under(names, mode, row.metric);
    assert(shown == rows.filter(passes));
    assert forall|i: int| 0 <= i < shown.len() implies rows.contains(#[trigger] shown[i])
        && filter::shown_under(names, mode, shown[i].metric) by {
        rows.lemma_filter_pred(passes, i);
        rows.lemma_filter_contains_rev(passes, shown[i]);
        assert(passes(shown[i]));
        assert(shown.contains(shown[i]));
    }
    assert forall|i: int|
        0 <= i < blocks.len() && (#[trigger] blocks[i]) is Rows implies lists_wanted(
        command,
        snapshot,
        blocks[i],
    ) by {
        if 1 <= i < 1 + inner.len() {
            assert(blocks[i] == inner[i - 1]);
        }
    }
    assert forall|k: int|
        0 <= k < rows.len() && wanted(
            command,
            stored_with(snapshot),
            (#[trigger] rows[k]).metric,
        ) implies exists|i: int|
        0 <= i < blocks.len() && lists_row(#[trigger] blocks[i], rows[k]) by {
        assert(filter::shown_under(names, mode, rows[k].metric));
        assert(passes(rows[k]));
        rows.lemma_filter_contains(passes, k);
        assert(shown.contains(rows[k]));
        let i = choose|i: int| 0 <= i < inner.len() && #[trigger] inner[i] == BlockView::Rows(shown);
        assert(blocks[i + 1] == inner[i]);
        assert(lists_row(blocks[i + 1], rows[k]));
    }
}

proof fn lists_show_their_wanted_rows(
    command: Command,
    snapshots: Seq<SnapshotPayload>,
    places: Seq<int>,
    reveal: bool,
    diagnose: bool,
    choice: MetricFilterChoice,
    now: Timestamp,
)
    requires
        dispatch::chooses(command, choice),
        forall|i: int| 0 <= i < places.len() ==> 0 <= #[trigger] places[i] < snapshots.len(),
    ensures
        ({
            let blocks = render::listed_blocks(
                snapshots,
                places,
                reveal,
                false,
                diagnose,
                choice,
                now,
            );
            &&& forall|i: int|
                0 <= i < blocks.len() && (#[trigger] blocks[i]) is Rows ==> exists|s: int|
                    0 <= s < snapshots.len() && lists_wanted(
                        command,
                        #[trigger] snapshots[s],
                        blocks[i],
                    )
            &&& forall|p: int, k: int|
                #![trigger report_of(snapshots[places[p]])[k]]
                0 <= p < places.len() && 0 <= k < report_of(snapshots[places[p]]).len() && wanted(
                    command,
                    stored_with(snapshots[places[p]]),
                    report_of(snapshots[places[p]])[k].metric,
                ) ==> exists|i: int|
                    0 <= i < blocks.len() && lists_row(
                        #[trigger] blocks[i],
                        report_of(snapshots[places[p]])[k],
                    )
        }),
    decreases places.len(),
{
    if places.len() > 0 {
        let front = places.drop_last();
        lists_show_their_wanted_rows(command, snapshots, front, reveal, diagnose, choice, now);
        let before = render::listed_blocks(snapshots, front, reveal, false, diagnose, choice, now);
        let gap: Seq<BlockView> = if places.len() > 1 {
            seq![BlockView::Break]
        } else {
            Seq::empty()
        };
        let last = places.last();
        let snapshot = snapshots[last];
        let shared = render::provider_repeats(snapshots, render::provider_of(snapshot));
        let own = render::snapshot_blocks(snapshot, shared, reveal, false, diagnose, choice, now);
        snapshots_show_their_wanted_rows(command, snapshot, shared, reveal, diagnose, choice, now);
        let blocks = render::listed_blocks(snapshots, places, reveal, false, diagnose, choice, now);
        let lead = (before.len() + gap.len()) as int;
        assert(blocks == before + gap + own);
        assert forall|i: int| 0 <= i < blocks.len() && (#[trigger] blocks[i]) is Rows implies exists|
            s: int,
        |
            0 <= s < snapshots.len() && lists_wanted(
                command,
                #[trigger] snapshots[s],
                blocks[i],
            ) by {
            if i < before.len() {
                assert(blocks[i] == before[i]);
            } else if i >= lead {
                assert(blocks[i] == own[i - lead]);
                assert(lists_wanted(command, snapshots[last], blocks[i]));
            }
        }
        assert forall|p: int, k: int|
            #![trigger report_of(snapshots[places[p]])[k]]
            0 <= p < places.len() && 0 <= k < report_of(snapshots[places[p]]).len() && wanted(
                command,
                stored_with(snapshots[places[p]]),
                report_of(snapshots[places[p]])[k].metric,
            ) implies exists|i: int|
            0 <= i < blocks.len() && lists_row(
                #[trigger] blocks[i],
                report_of(snapshots[places[p]])[k],
            ) by {
            let row = report_of(snapshots[places[p]])[k];
            if p < front.len() {
                assert(front[p] == places[p]);
                assert(report_of(snapshots[front[p]])[k] == row);
                let i = choose|i: int|
                    0 <= i < before.len() && lists_row(#[trigger] before[i], row);
                assert(blocks[i] == before[i]);
            } else {
                let i = choose|i: int| 0 <= i < own.len() && lists_row(#[trigger] own[i], row);
                assert(blocks[lead + i] == own[i]);
            }
        }
    }
}

/// What a list of snapshots prints as a summary are the rows that the command
/// wants, and all of them: each row printed is a row of some snapshot that the
/// command wants, and each such row of each snapshot is printed.
pub proof fn wanted_rows_are_printed(
    cli: Cli,
    snapshots: Vec<SnapshotPayload>,
    diagnose: bool,
    now: Timestamp,
    rendered: Rendered,
)
    requires
        dispatch::printed(cli, ControlResult::Snapshots(snapshots), diagnose, now, rendered),
        cli.output == OutputFormat::Table,
        !cli.raw,
    ensures
        rendered matches Rendered::Document { blocks, .. } && {
            &&& forall|i: int|
                0 <= i < blocks@.len() && (#[trigger] blocks@[i])@ is Rows ==> exists|s: int|
                    0 <= s < snapshots@.len() && lists_wanted(
                        cli.command,
                        #[trigger] snapshots@[s],
                        blocks@[i]@,
                    )
            &&& forall|s: int, k: int|
                #![trigger report_of(snapshots@[s])[k]]
                0 <= s < snapshots@.len() && 0 <= k < report_of(snapshots@[s]).len() && wanted(
                    cli.command,
                    stored_with(snapshots@[s]),
                    report_of(snapshots@[s])[k].metric,
                ) ==> exists|i: int|
                    0 <= i < blocks@.len() && lists_row(
                        (#[trigger] blocks@[i])@,
                        report_of(snapshots@[s])[k],
                    )
        },
{
    let result = ControlResult::Snapshots(snapshots);
    let view = choose|view: render::RenderView|
        #[trigger] dispatch::viewed(cli.command, view) && render::renders(
            result,
            cli.output,
            cli.reveal,
            cli.raw,
            diagnose,
            view,
            now,
            rendered,
        );
    let choice = view.metric_choice;
    let places = render::grouped_places(snapshots@, snapshots@.len() as int);
    render::every_snapshot_is_shown_once(snapshots@);
    assert forall|i: int| 0 <= i < places.len() implies 0 <= #[trigger] places[i]
        < snapshots@.len() by {
        assert(places.contains(places[i]));
    }
    lists_show_their_wanted_rows(
        cli.command,
        snapshots@,
        places,
        cli.reveal,
        diagnose,
        choice,
        now,
    );
    let blocks = rendered->Document_blocks;
    let views = render::listed_blocks(
        snapshots@,
        places,
        cli.reveal,
        false,
        diagnose,
        choice,
        now,
    );
    assert(document::block_views(blocks@) == views);
    assert forall|i: int| 0 <= i < blocks@.len() implies views[i] == (#[trigger] blocks@[i])@ by {}
    assert forall|s: int, k: int|
        #![trigger report_of(snapshots@[s])[k]]
        0 <= s < snapshots@.len() && 0 <= k < report_of(snapshots@[s]).len() && wanted(
            cli.command,
            stored_with(snapshots@[s]),
            report_of(snapshots@[s])[k].metric,
        ) implies exists|i: int|
        0 <= i < blocks@.len() && lists_row(
            (#[trigger] blocks@[i])@,
            report_of(snapshots@[s])[k],
        ) by {
        assert(places.contains(s));
        let p = choose|p: int| 0 <= p < places.len() && places[p] == s;
        let row = report_of(snapshots@[places[p]])[k];
        let i = choose|i: int| 0 <= i < views.len() && lists_row(#[trigger] views[i], row);
        assert(lists_row(blocks@[i]@, row));
    }
}

/// A show with metric names on its command line prints just the rows whose metric
/// is one of them, in any case: every printed row is such a row, and every such
/// row of every account is printed, whatever names the accounts have stored.
pub proof fn named_metrics_alone_are_shown(
    cli: Cli,
    snapshots: Vec<SnapshotPayload>,
    diagnose: bool,
    now: Timestamp,
    rendered: Rendered,
)
    requires
        dispatch::printed(cli, ControlResult::Snapshots(snapshots), diagnose, now, rendered),
        cli.output == OutputFormat::Table,
        !cli.raw,
        cli.command is Show,
        cli.command->Show_0.metric@.len() > 0,
        fit(filter::text_views(cli.command->Show_0.metric@)),
    ensures
        rendered matches Rendered::Document { blocks, .. } && {
            let names = filter::text_views(cli.command->Show_0.metric@);
            &&& forall|i: int, r: int|
                #![trigger blocks@[i]@->Rows_0[r]]
                0 <= i < blocks@.len() && blocks@[i]@ is Rows && 0 <= r < blocks@[i]@->Rows_0.len()
                    ==> named(names, blocks@[i]@->Rows_0[r].metric)
            &&& forall|s: int, k: int|
                #![trigger report_of(snapshots@[s])[k]]
                0 <= s < snapshots@.len() && 0 <= k < report_of(snapshots@[s]).len() && named(
                    names,
                    report_of(snapshots@[s])[k].metric,
                ) ==> exists|i: int|
                    0 <= i < blocks@.len() && lists_row(
                        (#[trigger] blocks@[i])@,
                        report_of(snapshots@[s])[k],
                    )
        },
{
    wanted_rows_are_printed(cli, snapshots, diagnose, now, rendered);
    let blocks = rendered->Document_blocks;
    let names = filter::text_views(cli.command->Show_0.metric@);
    assert forall|i: int, r: int|
        #![trigger blocks@[i]@->Rows_0[r]]
        0 <= i < blocks@.len() && blocks@[i]@ is Rows && 0 <= r
            < blocks@[i]@->Rows_0.len() implies named(names, blocks@[i]@->Rows_0[r].metric) by {
        let s = choose|s: int|
            0 <= s < snapshots@.len() && lists_wanted(
                cli.command,
                #[trigger] snapshots@[s],
                blocks@[i]@,
            );
        assert(wanted(cli.command, stored_with(snapshots@[s]), blocks@[i]@->Rows_0[r].metric));
    }
}

/// A summarized probe lists every row of its report that the account's stored
/// names do not hide, and no other.
pub proof fn probes_show_what_is_not_hidden(
    payload: ProbePayload,
    reveal: bool,
    diagnose: bool,
    now: Timestamp,
)
    ensures
        ({
            let blocks = render::probe_blocks(payload, reveal, false, diagnose, now);
            let rows = summary::report_rows(payload.usage.payload().windows@);
            let stored = filter::text_views(payload.metrics@);
            &&& forall|i: int, r: int|
                #![trigger blocks[i]->Rows_0[r]]
                0 <= i < blocks.len() && blocks[i] is Rows && 0 <= r < blocks[i]->Rows_0.len()
                    ==> rows.contains(blocks[i]->Rows_0[r]) && !(fit(stored) && named(
                    stored,
                    blocks[i]->Rows_0[r].metric,
                ))
            &&& forall|k: int|
                0 <= k < rows.len() && !(fit(stored) && named(stored, (#[trigger] rows[k]).metric))
                    ==> exists|i: int|
                    0 <= i < blocks.len() && lists_row(#[trigger] blocks[i], rows[k])
        }),
{
    let stored = filter::text_views(payload.metrics@);
    let names = render::saved_names(stored);
    let mode = MetricFilterMode::Hide;
    let rows = summary::report_rows(payload.usage.payload().windows@);
    let shown = filter::rows_under(rows, names, mode);
    let blocks = render::probe_blocks(payload, reveal, false, diagnose, now);
    let inner = render::summary_blocks(payload.usage, false, reveal, diagnose, now, names, mode);
    summaries_hold_the_shown_rows(payload.usage, false, reveal, diagnose, now, names, mode);
    let passes = |row: RowView| filter::shown_under(names, mode, row.metric);
    assert(shown == rows.filter(passes));
    assert forall|metric: Seq<char>| #[trigger]
        filter::shown_under(names, mode, metric) == !(fit(stored) && named(stored, metric)) by {
        summaries::selected_is_among(names, metric);
        filters_have_what_was_named(stored, metric);
        summaries::filters_report_the_first_unfit_name(stored, 0);
    }
    assert forall|i: int| 0 <= i < shown.len() implies rows.contains(#[trigger] shown[i])
        && filter::shown_under(names, mode, shown[i].metric) by {
        rows.lemma_filter_pred(passes, i);
        rows.lemma_filter_contains_rev(passes, shown[i]);
        assert(passes(shown[i]));
        assert(shown.contains(shown[i]));
    }
    assert forall|i: int, r: int|
        #![trigger blocks[i]->Rows_0[r]]
        0 <= i < blocks.len() && blocks[i] is Rows && 0 <= r
            < blocks[i]->Rows_0.len() implies rows.contains(blocks[i]->Rows_0[r]) && !(fit(stored)
        && named(stored, blocks[i]->Rows_0[r].metric)) by {
        assert(i >= 1);
        assert(blocks[i] == inner[i - 1]);
        assert(blocks[i]->Rows_0[r] == shown[r]);
    }
    assert forall|k: int|
        0 <= k < rows.len() && !(fit(stored) && named(
            stored,
            (#[trigger] rows[k]).metric,
        )) implies exists|i: int|
        0 <= i < blocks.len() && lists_row(#[trigger] blocks[i], rows[k]) by {
        assert(filter::shown_under(names, mode, rows[k].metric));
        assert(passes(rows[k]));
        rows.lemma_filter_contains(passes, k);
        let i = choose|i: int| 0 <= i < inner.len() && #[trigger] inner[i] == BlockView::Rows(shown);
        assert(blocks[i + 1] == inner[i]);
        assert(lists_row(blocks[i + 1], rows[k]));
    }
}

} // verus!
