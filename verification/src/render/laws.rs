//! What holds of everything that is printed.

use vstd::prelude::*;

use crate::cli::OutputFormat;
use crate::clock;
use crate::document;
use crate::document::{Block, BlockView, CellView, PairView, Style};
use crate::error::QueryOutcome;
use crate::protocol::{Account, ControlResult, DevicePayload, ProbePayload, SnapshotPayload};
use crate::provider::ProviderDescriptor;
use crate::redact;
use crate::render;
use crate::render::{MetricFilterChoice, RenderView, Rendered};
use crate::summary;
use crate::summary::filter;
use crate::summary::filter::MetricFilterMode;
use crate::text;
use crate::usage::{SubscriptionUsage, Timestamp, UsageWindow};

verus! {

/// No cell of a row holds a control character.
pub open spec fn row_is_safe(cells: Seq<CellView>) -> bool {
    forall|i: int| 0 <= i < cells.len() ==> document::cell_is_safe(#[trigger] cells[i])
}

/// No value of the pairs holds a control character.
pub open spec fn pairs_are_safe(pairs: Seq<PairView>) -> bool {
    forall|i: int| 0 <= i < pairs.len() ==> document::cell_is_safe((#[trigger] pairs[i]).cell)
}

/// No text of the block holds a control character. The names of summary rows
/// are made safe when they are drawn.
pub open spec fn block_is_safe(block: BlockView) -> bool {
    match block {
        BlockView::Header(title) => !redact::holds_control(title),
        BlockView::Line { text, .. } => !redact::holds_control(text),
        BlockView::Pairs(pairs) => pairs_are_safe(pairs),
        BlockView::Table { rows, .. } => forall|i: int|
            0 <= i < rows.len() ==> row_is_safe(#[trigger] rows[i]),
        BlockView::Rows(_) | BlockView::Break => true,
    }
}

/// No text of the blocks holds a control character.
pub open spec fn blocks_are_safe(blocks: Seq<BlockView>) -> bool {
    forall|i: int| 0 <= i < blocks.len() ==> block_is_safe(#[trigger] blocks[i])
}

proof fn shown_texts_are_safe()
    ensures
        forall|text: Seq<char>, style: Style|
            document::cell_is_safe(#[trigger] document::text_cell(text, style)),
        forall|text: Seq<char>| document::cell_is_safe(#[trigger] document::plain_cell(text)),
        forall|text: Seq<char>, style: Style|
            block_is_safe(#[trigger] document::line(text, style)),
{
    assert forall|text: Seq<char>, style: Style|
        document::cell_is_safe(#[trigger] document::text_cell(text, style)) by {
        document::text_cells_are_safe(text, style);
    }
    assert forall|text: Seq<char>|
        document::cell_is_safe(#[trigger] document::plain_cell(text)) by {
        document::text_cells_are_safe(text, Style::Plain);
    }
    assert forall|text: Seq<char>, style: Style|
        block_is_safe(#[trigger] document::line(text, style)) by {
        redact::cells_hold_no_control(text);
    }
}

proof fn safe_texts_join(first: Seq<char>, second: Seq<char>)
    requires
        !redact::holds_control(first),
        !redact::holds_control(second),
    ensures
        !redact::holds_control(first + second),
{
    let whole = first + second;
    assert forall|i: int| 0 <= i < whole.len() implies !text::control(#[trigger] whole[i]) by {
        if i < first.len() {
            assert(whole[i] == first[i]);
        } else {
            assert(whole[i] == second[i - first.len()]);
        }
    }
}

proof fn joined_headings_are_safe(heading: Seq<char>, part: Seq<char>)
    requires
        !redact::holds_control(heading),
    ensures
        !redact::holds_control(heading + " - "@ + redact::cell_text(part)),
{
    reveal_strlit(" - ");
    assert(!redact::holds_control(" - "@));
    redact::cells_hold_no_control(part);
    safe_texts_join(heading, " - "@);
    safe_texts_join(heading + " - "@, redact::cell_text(part));
}

proof fn headings_are_safe(
    account_id: Seq<char>,
    usage: SubscriptionUsage,
    show_account: bool,
)
    ensures
        !redact::holds_control(render::section_heading(account_id, usage, show_account)),
        !redact::holds_control(render::raw_heading(account_id, usage.provider@, show_account)),
{
    let provider = redact::cell_text(usage.provider@);
    redact::cells_hold_no_control(usage.provider@);
    joined_headings_are_safe(provider, account_id);
    match render::plan_of(usage) {
        Some(plan) => {
            joined_headings_are_safe(provider, plan);
            joined_headings_are_safe(provider + " - "@ + redact::cell_text(plan), account_id);
        },
        None => {},
    }
}

proof fn raw_reports_are_safe(usage: SubscriptionUsage, reveal: bool, leading: Seq<PairView>)
    requires
        pairs_are_safe(leading),
    ensures
        block_is_safe(BlockView::Pairs(render::usage_pairs(usage, reveal, leading))),
        block_is_safe(render::usage_table(usage)),
{
    shown_texts_are_safe();
    let pairs = render::usage_pairs(usage, reveal, leading);
    assert forall|i: int| 0 <= i < pairs.len() implies document::cell_is_safe(
        (#[trigger] pairs[i]).cell,
    ) by {
        if i < leading.len() {
            assert(pairs[i] == leading[i]);
        }
    }
    grids_are_safe(usage.windows@);
}

proof fn grids_are_safe(windows: Seq<UsageWindow>)
    ensures
        forall|i: int|
            0 <= i < render::usage_grid(windows).len() ==> row_is_safe(
                #[trigger] render::usage_grid(windows)[i],
            ),
    decreases windows.len(),
{
    shown_texts_are_safe();
    if windows.len() > 0 {
        grids_are_safe(windows.drop_last());
        let before = render::usage_grid(windows.drop_last());
        let window = windows.last();
        let more = render::window_grid(window, window.measurements@.len() as int);
        let grid = render::usage_grid(windows);
        assert forall|i: int| 0 <= i < grid.len() implies row_is_safe(#[trigger] grid[i]) by {
            if i < before.len() {
                assert(grid[i] == before[i]);
            } else {
                assert(grid[i] == more[i - before.len()]);
                assert(grid[i] == render::measurement_row(
                    window,
                    window.measurements@[i - before.len()],
                ));
            }
        }
    }
}

proof fn raw_outcomes_are_safe(
    outcome: QueryOutcome<SubscriptionUsage>,
    reveal: bool,
    diagnose: bool,
    leading: Seq<PairView>,
)
    requires
        pairs_are_safe(leading),
    ensures
        blocks_are_safe(render::outcome_blocks(outcome, reveal, diagnose, leading)),
{
    shown_texts_are_safe();
    raw_reports_are_safe(outcome.payload(), reveal, leading);
}

proof fn safe_blocks_join(first: Seq<BlockView>, second: Seq<BlockView>)
    requires
        blocks_are_safe(first),
        blocks_are_safe(second),
    ensures
        blocks_are_safe(first + second),
{
    let whole = first + second;
    assert forall|i: int| 0 <= i < whole.len() implies block_is_safe(#[trigger] whole[i]) by {
        if i < first.len() {
            assert(whole[i] == first[i]);
        } else {
            assert(whole[i] == second[i - first.len()]);
        }
    }
}

proof fn notes_are_safe(
    limit_reached: bool,
    outcome: QueryOutcome<SubscriptionUsage>,
    stale: bool,
    diagnose: bool,
)
    ensures
        blocks_are_safe(render::note_blocks(limit_reached, outcome, stale, diagnose)),
{
    shown_texts_are_safe();
}

proof fn summaries_are_safe(
    outcome: QueryOutcome<SubscriptionUsage>,
    stale: bool,
    reveal: bool,
    diagnose: bool,
    now: Timestamp,
    names: Seq<Seq<char>>,
    mode: MetricFilterMode,
)
    ensures
        blocks_are_safe(
            render::summary_blocks(outcome, stale, reveal, diagnose, now, names, mode),
        ),
{
    let usage = outcome.payload();
    let rows = summary::report_rows(usage.windows@);
    let shown = filter::rows_under(rows, names, mode);
    let limit_reached = summary::any_limit_hit(usage.windows@);
    let notes = render::note_blocks(limit_reached, outcome, stale, diagnose);
    let updated = document::line("updated "@ + clock::ago(usage.observed_at, now), Style::Dim);
    shown_texts_are_safe();
    notes_are_safe(limit_reached, outcome, stale, diagnose);
    if rows.len() == 0 {
        raw_reports_are_safe(usage, reveal, Seq::empty());
        let told = document::line(
            "! no summarized metrics available; showing raw data"@,
            Style::Warning,
        );
        safe_blocks_join(
            seq![
                told,
                BlockView::Pairs(render::usage_pairs(usage, reveal, Seq::empty())),
                render::usage_table(usage),
            ],
            notes,
        );
    } else if shown.len() == 0 {
        let told = document::line(
            "! no rows match the metric filter: "@ + text::joined(names, ", "@),
            Style::Warning,
        );
        safe_blocks_join(seq![updated, told], notes);
    } else {
        let expiry = match usage.subscription_expires_at {
            Some(time) => seq![
                document::line(
                    "expires "@ + clock::calendar_date(time.seconds, time.nanos),
                    Style::Plain,
                ),
            ],
            None => Seq::empty(),
        };
        safe_blocks_join(expiry, seq![BlockView::Rows(shown), updated]);
        safe_blocks_join(expiry + seq![BlockView::Rows(shown), updated], notes);
    }
}

proof fn probes_are_safe(
    payload: ProbePayload,
    reveal: bool,
    raw: bool,
    diagnose: bool,
    now: Timestamp,
)
    ensures
        blocks_are_safe(render::probe_blocks(payload, reveal, raw, diagnose, now)),
{
    if raw {
        raw_outcomes_are_safe(payload.usage, reveal, diagnose, Seq::empty());
    } else {
        headings_are_safe(payload.account_id@, payload.usage.payload(), false);
        summaries_are_safe(
            payload.usage,
            false,
            reveal,
            diagnose,
            now,
            render::saved_names(filter::text_views(payload.metrics@)),
            MetricFilterMode::Hide,
        );
    }
}

proof fn snapshots_are_safe(
    snapshot: SnapshotPayload,
    show_account: bool,
    reveal: bool,
    raw: bool,
    diagnose: bool,
    choice: MetricFilterChoice,
    now: Timestamp,
)
    ensures
        blocks_are_safe(
            render::snapshot_blocks(snapshot, show_account, reveal, raw, diagnose, choice, now),
        ),
{
    shown_texts_are_safe();
    headings_are_safe(snapshot.account_id@, snapshot.usage.payload(), show_account);
    if raw {
        let status = document::pair(
            "STATUS"@,
            if snapshot.stale {
                document::text_cell("stale"@, Style::Warning)
            } else {
                document::plain_cell("current"@)
            },
        );
        raw_outcomes_are_safe(snapshot.usage, reveal, diagnose, seq![status]);
    } else {
        summaries_are_safe(
            snapshot.usage,
            snapshot.stale,
            reveal,
            diagnose,
            now,
            render::chosen_names(choice, snapshot.metrics@),
            render::chosen_mode(choice),
        );
    }
}

proof fn lists_are_safe(
    snapshots: Seq<SnapshotPayload>,
    places: Seq<int>,
    reveal: bool,
    raw: bool,
    diagnose: bool,
    choice: MetricFilterChoice,
    now: Timestamp,
)
    ensures
        blocks_are_safe(
            render::listed_blocks(snapshots, places, reveal, raw, diagnose, choice, now),
        ),
    decreases places.len(),
{
    if places.len() > 0 {
        lists_are_safe(snapshots, places.drop_last(), reveal, raw, diagnose, choice, now);
        let snapshot = snapshots[places.last()];
        snapshots_are_safe(
            snapshot,
            render::provider_repeats(snapshots, render::provider_of(snapshot)),
            reveal,
            raw,
            diagnose,
            choice,
            now,
        );
    }
}

proof fn tables_are_safe(
    providers: Seq<ProviderDescriptor>,
    accounts: Seq<Account>,
    devices: Seq<DevicePayload>,
    reveal: bool,
    now: Timestamp,
)
    ensures
        block_is_safe(render::providers_table(providers)),
        block_is_safe(render::accounts_table(accounts, reveal)),
        block_is_safe(render::devices_table(devices, now)),
{
    shown_texts_are_safe();
}

/// Nothing a provider or the daemon says can smuggle a terminal control into a
/// document: no heading, line, value or cell of it holds a control character,
/// whatever the answer was.
pub proof fn documents_hold_no_control(
    result: ControlResult,
    reveal: bool,
    raw: bool,
    diagnose: bool,
    view: RenderView,
    now: Timestamp,
)
    ensures
        blocks_are_safe(render::human_blocks(result, reveal, raw, diagnose, view, now)),
{
    shown_texts_are_safe();
    match result {
        ControlResult::Providers(providers) => {
            tables_are_safe(providers@, Seq::empty(), Seq::empty(), reveal, now);
        },
        ControlResult::Accounts(accounts) => {
            tables_are_safe(Seq::empty(), accounts@, Seq::empty(), reveal, now);
        },
        ControlResult::Devices(devices) => {
            tables_are_safe(Seq::empty(), Seq::empty(), devices@, reveal, now);
        },
        ControlResult::Probe(payload) => {
            probes_are_safe(payload, reveal, raw, diagnose, now);
        },
        ControlResult::Snapshots(snapshots) => {
            lists_are_safe(
                snapshots@,
                render::grouped_places(snapshots@, snapshots@.len() as int),
                reveal,
                raw,
                diagnose,
                view.metric_choice,
                now,
            );
        },
        _ => {},
    }
}

/// Every row of the block, where it is a table, has a cell for each column.
pub open spec fn block_is_rectangular(block: BlockView) -> bool {
    match block {
        BlockView::Table { columns, rows } => forall|i: int|
            0 <= i < rows.len() ==> (#[trigger] rows[i]).len() == columns.len(),
        _ => true,
    }
}

/// Every row of every table has a cell for each column of its table.
pub open spec fn blocks_are_rectangular(blocks: Seq<BlockView>) -> bool {
    forall|i: int| 0 <= i < blocks.len() ==> block_is_rectangular(#[trigger] blocks[i])
}

proof fn usage_grids_are_rectangular(windows: Seq<UsageWindow>)
    ensures
        forall|i: int|
            0 <= i < render::usage_grid(windows).len() ==> (#[trigger] render::usage_grid(
                windows,
            )[i]).len() == 6,
    decreases windows.len(),
{
    if windows.len() > 0 {
        usage_grids_are_rectangular(windows.drop_last());
        let before = render::usage_grid(windows.drop_last());
        let window = windows.last();
        let more = render::window_grid(window, window.measurements@.len() as int);
        let grid = render::usage_grid(windows);
        assert forall|i: int| 0 <= i < grid.len() implies (#[trigger] grid[i]).len() == 6 by {
            if i < before.len() {
                assert(grid[i] == before[i]);
            } else {
                assert(grid[i] == more[i - before.len()]);
            }
        }
    }
}

proof fn summaries_are_rectangular(
    outcome: QueryOutcome<SubscriptionUsage>,
    stale: bool,
    reveal: bool,
    diagnose: bool,
    now: Timestamp,
    names: Seq<Seq<char>>,
    mode: MetricFilterMode,
)
    ensures
        blocks_are_rectangular(
            render::summary_blocks(outcome, stale, reveal, diagnose, now, names, mode),
        ),
{
    usage_grids_are_rectangular(outcome.payload().windows@);
}

proof fn snapshots_are_rectangular(
    snapshot: SnapshotPayload,
    show_account: bool,
    reveal: bool,
    raw: bool,
    diagnose: bool,
    choice: MetricFilterChoice,
    now: Timestamp,
)
    ensures
        blocks_are_rectangular(
            render::snapshot_blocks(snapshot, show_account, reveal, raw, diagnose, choice, now),
        ),
{
    usage_grids_are_rectangular(snapshot.usage.payload().windows@);
    summaries_are_rectangular(
        snapshot.usage,
        snapshot.stale,
        reveal,
        diagnose,
        now,
        render::chosen_names(choice, snapshot.metrics@),
        render::chosen_mode(choice),
    );
}

proof fn lists_are_rectangular(
    snapshots: Seq<SnapshotPayload>,
    places: Seq<int>,
    reveal: bool,
    raw: bool,
    diagnose: bool,
    choice: MetricFilterChoice,
    now: Timestamp,
)
    ensures
        blocks_are_rectangular(
            render::listed_blocks(snapshots, places, reveal, raw, diagnose, choice, now),
        ),
    decreases places.len(),
{
    if places.len() > 0 {
        lists_are_rectangular(snapshots, places.drop_last(), reveal, raw, diagnose, choice, now);
        let snapshot = snapshots[places.last()];
        snapshots_are_rectangular(
            snapshot,
            render::provider_repeats(snapshots, render::provider_of(snapshot)),
            reveal,
            raw,
            diagnose,
            choice,
            now,
        );
    }
}

/// Every table of a document is rectangular, whatever the answer was: each of its
/// rows has as many cells as the table has columns, so that it can be drawn.
pub proof fn tables_are_rectangular(
    result: ControlResult,
    reveal: bool,
    raw: bool,
    diagnose: bool,
    view: RenderView,
    now: Timestamp,
)
    ensures
        blocks_are_rectangular(render::human_blocks(result, reveal, raw, diagnose, view, now)),
{
    match result {
        ControlResult::Probe(payload) => {
            usage_grids_are_rectangular(payload.usage.payload().windows@);
            summaries_are_rectangular(
                payload.usage,
                false,
                reveal,
                diagnose,
                now,
                render::saved_names(filter::text_views(payload.metrics@)),
                MetricFilterMode::Hide,
            );
        },
        ControlResult::Snapshots(snapshots) => {
            lists_are_rectangular(
                snapshots@,
                render::grouped_places(snapshots@, snapshots@.len() as int),
                reveal,
                raw,
                diagnose,
                view.metric_choice,
                now,
            );
        },
        _ => {},
    }
}

/// The tables of an answer that was made ready to print are rectangular too.
pub proof fn rendered_tables_are_rectangular(
    result: ControlResult,
    format: OutputFormat,
    reveal: bool,
    raw: bool,
    diagnose: bool,
    view: RenderView,
    now: Timestamp,
    rendered: Rendered,
)
    requires
        render::renders(result, format, reveal, raw, diagnose, view, now, rendered),
    ensures
        rendered matches Rendered::Document { blocks, .. } ==> forall|i: int|
            0 <= i < blocks@.len() ==> (#[trigger] blocks@[i] matches Block::Table { columns, rows }
                ==> forall|j: int|
                0 <= j < rows@.len() ==> (#[trigger] rows@[j])@.len() == columns@.len()),
{
    tables_are_rectangular(result, reveal, raw, diagnose, view, now);
    if let Rendered::Document { blocks, .. } = rendered {
        assert forall|i: int| 0 <= i < blocks@.len() implies (#[trigger] blocks@[i] matches
            Block::Table { columns, rows } ==> forall|j: int|
            0 <= j < rows@.len() ==> (#[trigger] rows@[j])@.len() == columns@.len()) by {
            let views = document::block_views(blocks@);
            assert(views[i] == blocks@[i]@);
            assert(block_is_rectangular(views[i]));
            if let Block::Table { columns, rows } = blocks@[i] {
                assert forall|j: int| 0 <= j < rows@.len() implies (#[trigger] rows@[j])@.len()
                    == columns@.len() by {
                    let grid = document::grid_views(rows@);
                    let titles = document::column_views(columns@);
                    assert(block_is_rectangular(BlockView::Table { columns: titles, rows: grid }));
                    assert(grid.len() == rows@.len());
                    assert(titles.len() == columns@.len());
                    assert(grid[j].len() == titles.len());
                    assert(grid[j] == document::cell_views(rows@[j]@));
                }
            }
        }
    }
}

/// The name of a summary row holds no control character either, whatever the
/// provider called its windows and measurements.
pub proof fn row_names_hold_no_control(window: Seq<char>, metric: Seq<char>)
    ensures
        !redact::holds_control(crate::cards::rows::row_name(window, metric)),
{
    redact::cells_hold_no_control(window);
    redact::cells_hold_no_control(metric);
    reveal_strlit("-");
    assert(!redact::holds_control("-"@));
    safe_texts_join(redact::cell_text(window), "-"@);
    safe_texts_join(redact::cell_text(window) + "-"@, redact::cell_text(metric));
}

/// JSON is the same whatever the readable view was asked to be: neither `--raw`
/// nor a metric filter changes it, nor does the time it is printed at.
pub proof fn readable_choices_change_no_json(
    result: ControlResult,
    format: OutputFormat,
    reveal: bool,
    raw: bool,
    diagnose: bool,
    view: RenderView,
    now: Timestamp,
    rendered: Rendered,
    other_raw: bool,
    other_view: RenderView,
    later: Timestamp,
)
    requires
        format != OutputFormat::Table,
        render::renders(result, format, reveal, raw, diagnose, view, now, rendered),
    ensures
        render::renders(
            result,
            format,
            reveal,
            other_raw,
            diagnose,
            other_view,
            later,
            rendered,
        ),
{
}

/// JSON keeps every measurement of every snapshot, whatever is hidden in it.
pub proof fn json_keeps_every_measurement(
    snapshots: Vec<SnapshotPayload>,
    reveal: bool,
    diagnose: bool,
    printed: ControlResult,
)
    requires
        render::json_printed(ControlResult::Snapshots(snapshots), reveal, diagnose, printed),
    ensures
        printed matches ControlResult::Snapshots(shown) && shown@.len() == snapshots@.len()
            && forall|i: int|
            0 <= i < snapshots@.len() ==> (#[trigger] shown@[i]).usage.payload().windows
                == snapshots@[i].usage.payload().windows && shown@[i].account_id
                == snapshots@[i].account_id,
{
}

/// The raw table of snapshots is the same whatever metric filter was chosen.
pub proof fn filters_change_no_raw_table(
    snapshots: Seq<SnapshotPayload>,
    reveal: bool,
    diagnose: bool,
    choice: MetricFilterChoice,
    other: MetricFilterChoice,
    now: Timestamp,
)
    ensures
        render::snapshots_blocks(snapshots, reveal, true, diagnose, choice, now)
            == render::snapshots_blocks(snapshots, reveal, true, diagnose, other, now),
{
    raw_lists_agree(
        snapshots,
        render::grouped_places(snapshots, snapshots.len() as int),
        reveal,
        diagnose,
        choice,
        other,
        now,
    );
}

proof fn raw_lists_agree(
    snapshots: Seq<SnapshotPayload>,
    places: Seq<int>,
    reveal: bool,
    diagnose: bool,
    choice: MetricFilterChoice,
    other: MetricFilterChoice,
    now: Timestamp,
)
    ensures
        render::listed_blocks(snapshots, places, reveal, true, diagnose, choice, now)
            == render::listed_blocks(snapshots, places, reveal, true, diagnose, other, now),
    decreases places.len(),
{
    if places.len() > 0 {
        raw_lists_agree(snapshots, places.drop_last(), reveal, diagnose, choice, other, now);
    }
}

} // verus!
