//! What readable answers tell, table by table and line by line.

use vstd::prelude::*;

use crate::clock;
use crate::document;
use crate::document::{BlockView, CellValueView, CellView, PairView, Style};
use crate::error::QueryOutcome;
use crate::protocol::{
    Account, AccountStatusPayload, AuthChallenge, AuthMethod, AuthState, ControlResult,
    CredentialBackendId, DaemonStatusPayload, DevicePayload, PairCodePayload, SnapshotPayload,
};
use crate::provider::{Capability, ProviderDescriptor};
use crate::redact;
use crate::render;
use crate::render::RenderView;
use crate::summary;
use crate::summary::filter;
use crate::text;
use crate::usage::{
    MeasurementUnit, SubscriptionUsage, Timestamp, UsageWindow, UsageWindowKind,
};

verus! {

/// What kinds of things are called: capabilities, ways to sign in, windows, units,
/// credential stores and states of a sign-in, each by its own name, and any other
/// by what it calls itself.
pub proof fn things_are_called_by_their_names(
    capability: Capability,
    method: AuthMethod,
    window: UsageWindowKind,
    unit: MeasurementUnit,
    backend: CredentialBackendId,
    state: AuthState,
)
    ensures
        render::capability_text(capability) == match capability {
            Capability::Authentication => "authentication"@,
            Capability::AuthenticationStatus => "authentication_status"@,
            Capability::Logout => "logout"@,
            Capability::UsageQuery => "usage_query"@,
            Capability::SubscriptionExpiry => "subscription_expiry"@,
            Capability::WorkspaceSelection => "workspace_selection"@,
            Capability::Other(name) => "other:"@ + redact::cell_text(name@),
        },
        render::method_text(method) == match method {
            AuthMethod::BrowserOAuth => "browser_oauth"@,
            AuthMethod::DeviceCode => "device_code"@,
            AuthMethod::ApiToken => "api_token"@,
            AuthMethod::SessionImport => "session_import"@,
            AuthMethod::Other(name) => "other:"@ + redact::cell_text(name@),
        },
        render::window_text(window) == match window {
            UsageWindowKind::FiveHours => "five_hours"@,
            UsageWindowKind::Weekly => "weekly"@,
            UsageWindowKind::Monthly => "monthly"@,
            UsageWindowKind::Other { id, .. } => "other:"@ + redact::cell_text(id@),
        },
        render::unit_text(unit) == match unit {
            MeasurementUnit::Requests => "requests"@,
            MeasurementUnit::Tokens => "tokens"@,
            MeasurementUnit::Percent => "percent"@,
            MeasurementUnit::Credits => "credits"@,
            MeasurementUnit::Currency { code } => "currency:"@ + redact::cell_text(code@),
            MeasurementUnit::Other { id, .. } => "other:"@ + redact::cell_text(id@),
        },
        render::backend_text(backend) == match backend {
            CredentialBackendId::LinuxSecretService => "linux_secret_service"@,
            CredentialBackendId::MacosKeychain => "macos_keychain"@,
            CredentialBackendId::WindowsCredentialManager => "windows_credential_manager"@,
            CredentialBackendId::FileFallback => "file_fallback"@,
        },
        render::state_text(state) == match state {
            AuthState::NotAuthenticated => "not_authenticated"@,
            AuthState::Pending { .. } => "pending"@,
            AuthState::Authenticated { .. } => "authenticated"@,
            AuthState::Invalid { .. } => "invalid"@,
        },
{
}

/// The cell shows the text plainly: a dash for none, and `[redacted]` for one with a
/// control character.
pub open spec fn shows(cell: CellView, told: Seq<char>) -> bool {
    cell.style == Style::Plain && cell.value == CellValueView::Text(
        if told.len() == 0 {
            "-"@
        } else {
            redact::cell_text(told)
        },
    )
}

/// The pairs tell the text under that key, plainly.
pub open spec fn pairs_tell(pairs: Seq<PairView>, place: int, key: Seq<char>, told: Seq<char>) -> bool {
    0 <= place < pairs.len() && pairs[place].key == key && shows(pairs[place].cell, told)
}

/// The table tells the text in that row, plainly, in the column of that heading.
pub open spec fn table_tells(
    table: BlockView,
    row: int,
    column: int,
    heading: Seq<char>,
    told: Seq<char>,
) -> bool {
    table matches BlockView::Table { columns, rows } && 0 <= column < columns.len()
        && columns[column] == heading && 0 <= row < rows.len() && column < rows[row].len() && shows(
        rows[row][column],
        told,
    )
}

/// What is told of a sensitive text.
pub open spec fn sensitive(given: Option<String>, reveal: bool) -> Seq<char> {
    match given {
        None => "-"@,
        Some(given) => if reveal {
            redact::cell_text(given@)
        } else if given@.len() == 0 {
            "-"@
        } else {
            "[redacted]"@
        },
    }
}

/// The names of an account's metrics in a row, and a dash for none.
pub proof fn metric_names_stand_in_a_row(first: String, second: String, names: Seq<String>)
    ensures
        render::metrics_text(Seq::empty()) == "-"@,
        render::metrics_text(seq![first]) == first@,
        render::metrics_text(seq![first, second]) == first@ + ", "@ + second@,
        names.len() > 0 ==> render::metrics_text(names) == text::joined(
            filter::text_views(names),
            ", "@,
        ),
{
    let one = filter::text_views(seq![first]);
    assert(one =~= seq![first@]);
    assert(one.drop_last() =~= Seq::<Seq<char>>::empty());
    assert(text::joined(one, ", "@) == first@);
    let two = filter::text_views(seq![first, second]);
    assert(two =~= seq![first@, second@]);
    assert(two.drop_last() =~= one);
}

/// A list of accounts tells of each its id, its provider, its label as far as it is
/// revealed, whether it is enabled, and its metrics; one account tells the same in
/// pairs, and a changed one all but the metrics.
pub proof fn accounts_are_told(accounts: Seq<Account>, place: int, reveal: bool)
    requires
        0 <= place < accounts.len(),
    ensures
        ({
            let account = accounts[place];
            let enabled = if account.enabled {
                "true"@
            } else {
                "false"@
            };
            let label = sensitive(account.label, reveal);
            let metrics = render::metrics_text(account.metrics@);
            let table = render::accounts_table(accounts, reveal);
            let pairs = render::account_pairs(account, reveal);
            let changed = render::changed_account_table(account, reveal);
            &&& table->Table_rows.len() == accounts.len()
            &&& table_tells(table, place, 0, "ACCOUNT"@, account.id@)
            &&& table_tells(table, place, 1, "PROVIDER"@, account.provider@)
            &&& table_tells(table, place, 2, "LABEL"@, label)
            &&& table_tells(table, place, 3, "ENABLED"@, enabled)
            &&& table_tells(table, place, 4, "METRICS"@, metrics)
            &&& pairs.len() == 5
            &&& pairs_tell(pairs, 0, "ACCOUNT"@, account.id@)
            &&& pairs_tell(pairs, 1, "PROVIDER"@, account.provider@)
            &&& pairs_tell(pairs, 2, "LABEL"@, label)
            &&& pairs_tell(pairs, 3, "ENABLED"@, enabled)
            &&& pairs_tell(pairs, 4, "METRICS"@, metrics)
            &&& changed->Table_rows.len() == 1
            &&& table_tells(changed, 0, 0, "ACCOUNT"@, account.id@)
            &&& table_tells(changed, 0, 1, "PROVIDER"@, account.provider@)
            &&& table_tells(changed, 0, 2, "LABEL"@, label)
            &&& table_tells(changed, 0, 3, "ENABLED"@, enabled)
        }),
{
}

/// A list of providers tells of each its id, its name and what it can do; a list of
/// devices of each its id, its name, when it was paired and when it was last seen.
pub proof fn providers_and_devices_are_told(
    providers: Seq<ProviderDescriptor>,
    devices: Seq<DevicePayload>,
    place: int,
    now: Timestamp,
)
    ensures
        0 <= place < providers.len() ==> {
            let table = render::providers_table(providers);
            &&& table->Table_rows.len() == providers.len()
            &&& table_tells(table, place, 0, "PROVIDER"@, providers[place].id@)
            &&& table_tells(table, place, 1, "NAME"@, providers[place].display_name@)
            &&& table_tells(
                table,
                place,
                2,
                "CAPABILITIES"@,
                text::joined(
                    Seq::new(
                        providers[place].capabilities@.len(),
                        |i: int| render::capability_text(providers[place].capabilities@[i]),
                    ),
                    ","@,
                ),
            )
        },
        0 <= place < devices.len() ==> {
            let table = render::devices_table(devices, now);
            &&& table->Table_rows.len() == devices.len()
            &&& table_tells(table, place, 0, "DEVICE ID"@, devices[place].id@)
            &&& table_tells(table, place, 1, "NAME"@, devices[place].name@)
            &&& table_tells(table, place, 2, "CREATED"@, clock::ago(devices[place].created_at, now))
            &&& table_tells(
                table,
                place,
                3,
                "LAST SEEN"@,
                clock::ago(devices[place].last_seen_at, now),
            )
        },
{
    if 0 <= place < providers.len() {
        let capabilities = providers[place].capabilities@;
        assert(render::capability_texts(capabilities) =~= Seq::new(
            capabilities.len(),
            |i: int| render::capability_text(capabilities[i]),
        ));
    }
}

/// Probes that run are counted one by one.
pub proof fn running_probes_are_counted(
    first: Seq<AccountStatusPayload>,
    second: Seq<AccountStatusPayload>,
    only: AccountStatusPayload,
)
    ensures
        render::active_probes(first + second) == render::active_probes(first)
            + render::active_probes(second),
        render::active_probes(seq![only]) == if only.in_flight {
            1nat
        } else {
            0
        },
    decreases second.len(),
{
    let one = seq![only];
    assert(one.drop_last() =~= Seq::<AccountStatusPayload>::empty());
    assert(render::active_probes(one.drop_last()) == 0);
    let whole = first + second;
    if second.len() > 0 {
        running_probes_are_counted(first, second.drop_last(), only);
        assert(whole.drop_last() =~= first + second.drop_last());
        assert(whole.last() == second.last());
    } else {
        assert(whole =~= first);
    }
}

/// The daemon's status tells whether it runs or is stopping, how many accounts it
/// has and how many probes run, and where credentials are kept.
pub proof fn the_status_is_told(status: DaemonStatusPayload)
    ensures
        ({
            let pairs = render::status_pairs(status);
            &&& pairs.len() == 4
            &&& pairs[0].key == "STATUS"@
            &&& status.shutting_down ==> pairs[0].cell == (CellView {
                value: CellValueView::Text("stopping"@),
                style: Style::Warning,
            })
            &&& !status.shutting_down ==> shows(pairs[0].cell, "running"@)
            &&& pairs_tell(pairs, 1, "ACCOUNTS"@, text::decimal_digits(status.accounts@.len()))
            &&& pairs_tell(
                pairs,
                2,
                "ACTIVE_PROBES"@,
                text::decimal_digits(render::active_probes(status.accounts@)),
            )
            &&& pairs_tell(
                pairs,
                3,
                "CREDENTIAL_BACKEND"@,
                render::backend_text(status.credential_backend),
            )
        }),
{
    reveal_strlit("stopping");
}

/// A pairing code is told with its expiry, what to do with it, and how long it
/// holds; a sign-in with its method, and its flow, address and code as far as they
/// are revealed; the state of a sign-in by its name.
pub proof fn codes_and_sign_ins_are_told(
    code: PairCodePayload,
    challenge: AuthChallenge,
    reveal: bool,
)
    ensures
        ({
            let pairs = render::pair_code_pairs(code);
            &&& pairs.len() == 4
            &&& pairs_tell(pairs, 0, "CODE"@, code.code@)
            &&& pairs_tell(
                pairs,
                1,
                "EXPIRES_AT"@,
                clock::rfc3339(code.expires_at.seconds, code.expires_at.nanos),
            )
            &&& pairs_tell(
                pairs,
                2,
                "NEXT"@,
                "Enter the HTTP API address and this code in the client."@,
            )
            &&& pairs_tell(
                pairs,
                3,
                "NOTE"@,
                "This code is one-time, expires after 300 seconds, and a new code invalidates it."@,
            )
        }),
        ({
            let pairs = render::challenge_pairs(challenge, reveal);
            &&& pairs.len() == 5
            &&& pairs_tell(pairs, 0, "AUTH"@, "pending"@)
            &&& pairs_tell(pairs, 1, "METHOD"@, render::method_text(challenge.method))
            &&& pairs_tell(
                pairs,
                2,
                "FLOW"@,
                redact::sensitive_text(challenge.flow_id@, reveal),
            )
            &&& pairs_tell(pairs, 3, "URI"@, sensitive(challenge.verification_uri, reveal))
            &&& pairs_tell(pairs, 4, "CODE"@, sensitive(challenge.user_code, reveal))
        }),
{
}

/// A report in full tells its provider, its account's label as far as it is
/// revealed, its plan, when it was made and when the subscription ends, after what
/// leads it.
pub proof fn reports_are_headed(
    usage: SubscriptionUsage,
    reveal: bool,
    leading: Seq<PairView>,
)
    ensures
        ({
            let pairs = render::usage_pairs(usage, reveal, leading);
            let lead = leading.len() as int;
            &&& pairs.len() == lead + 5
            &&& pairs.take(lead) == leading
            &&& pairs_tell(pairs, lead, "PROVIDER"@, usage.provider@)
            &&& pairs_tell(
                pairs,
                lead + 1,
                "ACCOUNT_LABEL"@,
                sensitive(usage.account_label, reveal),
            )
            &&& pairs_tell(
                pairs,
                lead + 2,
                "PLAN"@,
                if usage.plan is Some {
                    usage.plan->0@
                } else {
                    Seq::empty()
                },
            )
            &&& pairs_tell(
                pairs,
                lead + 3,
                "OBSERVED_AT"@,
                clock::rfc3339(usage.observed_at.seconds, usage.observed_at.nanos),
            )
            &&& pairs_tell(
                pairs,
                lead + 4,
                "EXPIRES_AT"@,
                if usage.subscription_expires_at is Some {
                    clock::rfc3339(
                        usage.subscription_expires_at->0.seconds,
                        usage.subscription_expires_at->0.nanos,
                    )
                } else {
                    Seq::empty()
                },
            )
        }),
{
    let pairs = render::usage_pairs(usage, reveal, leading);
    assert(pairs.take(leading.len() as int) =~= leading);
}

/// The table of a report in full has a row for every measurement of every window,
/// in their order: the window, the measurement, what is used, the limit, the unit,
/// and when the window resets.
pub proof fn reports_list_every_measurement(
    first: Seq<UsageWindow>,
    second: Seq<UsageWindow>,
    only: UsageWindow,
    place: int,
)
    ensures
        render::usage_grid(first + second) == render::usage_grid(first) + render::usage_grid(
            second,
        ),
        render::usage_grid(seq![only]).len() == only.measurements@.len(),
        0 <= place < only.measurements@.len() ==> {
            let row = render::usage_grid(seq![only])[place];
            let measurement = only.measurements@[place];
            &&& row.len() == 6
            &&& shows(row[0], render::window_text(only.window))
            &&& shows(row[1], measurement.name@)
            &&& row[2].value == (CellValueView::Used {
                used: measurement.used,
                limit: measurement.limit,
            })
            &&& row[3].value == CellValueView::Limit(measurement.limit)
            &&& shows(row[4], render::unit_text(measurement.unit))
            &&& shows(
                row[5],
                if only.resets_at is Some {
                    clock::rfc3339(only.resets_at->0.seconds, only.resets_at->0.nanos)
                } else {
                    Seq::empty()
                },
            )
        },
    decreases second.len(),
{
    let one = seq![only];
    assert(one.drop_last() =~= Seq::<UsageWindow>::empty());
    assert(render::usage_grid(one.drop_last()) =~= Seq::<Seq<CellView>>::empty());
    assert(render::usage_grid(one) =~= render::window_grid(only, only.measurements@.len() as int));
    let whole = first + second;
    if second.len() > 0 {
        reports_list_every_measurement(first, second.drop_last(), only, place);
        assert(whole.drop_last() =~= first + second.drop_last());
        assert(whole.last() == second.last());
    } else {
        assert(whole =~= first);
    }
    assert(render::usage_grid(whole) =~= render::usage_grid(first) + render::usage_grid(second));
}

/// The columns of that table are headed by what stands in them.
pub proof fn report_tables_are_headed(usage: SubscriptionUsage)
    ensures
        render::usage_table(usage) == (BlockView::Table {
            columns: seq!["WINDOW"@, "MEASUREMENT"@, "USED"@, "LIMIT"@, "UNIT"@, "RESETS_AT"@],
            rows: render::usage_grid(usage.windows@),
        }),
{
}

/// A report in full is followed by what is missing: how many results are partial,
/// and, where details are wanted, what failed and why, failure by failure.
pub proof fn missing_parts_are_told(
    outcome: QueryOutcome<SubscriptionUsage>,
    diagnose: bool,
    place: int,
)
    ensures
        ({
            let blocks = render::missing_blocks(outcome, diagnose);
            match outcome {
                QueryOutcome::Complete { .. } => blocks.len() == 0,
                QueryOutcome::Partial { failures, .. } => {
                    &&& blocks.len() == if diagnose {
                        1 + failures@.len()
                    } else {
                        1
                    }
                    &&& blocks[0] == BlockView::Pairs(
                        seq![
                            PairView {
                                key: "WARNING"@,
                                cell: document::text_cell(
                                    text::decimal_digits(failures@.len()) + " partial result(s)"@,
                                    Style::Warning,
                                ),
                            },
                        ],
                    )
                    &&& diagnose && 0 <= place < failures@.len() ==> blocks[1 + place]
                        == BlockView::Pairs(
                        seq![
                            PairView {
                                key: "FAILURE"@,
                                cell: document::text_cell(
                                    failures@[place].scope@ + ": "@ + failures@[place].message@,
                                    Style::Warning,
                                ),
                            },
                        ],
                    )
                },
            }
        }),
{
    if let QueryOutcome::Partial { failures, .. } = outcome {
        let blocks = render::missing_blocks(outcome, diagnose);
        assert(blocks[0] == BlockView::Pairs(
            seq![
                PairView {
                    key: "WARNING"@,
                    cell: document::text_cell(
                        text::decimal_digits(failures@.len()) + " partial result(s)"@,
                        Style::Warning,
                    ),
                },
            ],
        ));
    }
}

/// The line with that text and style.
pub open spec fn line(told: Seq<char>, style: Style) -> BlockView {
    BlockView::Line { text: redact::cell_text(told), style }
}

/// A summary ends with its notes: that the snapshot is stale, that a limit was
/// reached, and how many items are missing, each where it holds, in this order;
/// and, where details are wanted, what failed, failure by failure.
pub proof fn notes_tell_what_holds(
    limit_reached: bool,
    outcome: QueryOutcome<SubscriptionUsage>,
    stale: bool,
    diagnose: bool,
    place: int,
)
    ensures
        ({
            let notes = render::note_blocks(limit_reached, outcome, stale, diagnose);
            let first: int = if stale {
                1
            } else {
                0
            };
            let second: int = first + if limit_reached {
                1int
            } else {
                0
            };
            &&& stale ==> notes[0] == line(
                "! stale snapshot; the daemon has not refreshed it"@,
                Style::Warning,
            )
            &&& limit_reached ==> notes[first] == line("! limit reached"@, Style::Error)
            &&& match outcome {
                QueryOutcome::Complete { .. } => notes.len() == second,
                QueryOutcome::Partial { failures, .. } => {
                    &&& notes.len() == second + 1 + (if diagnose {
                        failures@.len() as int
                    } else {
                        0
                    })
                    &&& diagnose ==> notes[second] == line(
                        "! "@ + text::decimal_digits(failures@.len()) + " item(s) unavailable"@,
                        Style::Warning,
                    )
                    &&& !diagnose ==> notes[second] == line(
                        "! "@ + text::decimal_digits(failures@.len())
                            + " item(s) unavailable (--raw for raw data, --diagnose for error details)"@,
                        Style::Warning,
                    )
                    &&& diagnose && 0 <= place < failures@.len() ==> notes[second + 1 + place]
                        == line(
                        "! "@ + (failures@[place].scope@ + ": "@ + failures@[place].message@),
                        Style::Warning,
                    )
                },
            }
        }),
{
}

/// A summary tells, in this order, when the subscription ends, its rows, when it
/// was made, and its notes; one whose rows are all filtered out tells the names
/// that filtered them; one without rows tells the report in full.
pub proof fn summaries_are_told(
    outcome: QueryOutcome<SubscriptionUsage>,
    stale: bool,
    reveal: bool,
    diagnose: bool,
    now: Timestamp,
    names: Seq<Seq<char>>,
    mode: filter::MetricFilterMode,
)
    ensures
        ({
            let usage = outcome.payload();
            let rows = summary::report_rows(usage.windows@);
            let shown = filter::rows_under(rows, names, mode);
            let notes = render::note_blocks(
                summary::any_limit_hit(usage.windows@),
                outcome,
                stale,
                diagnose,
            );
            let updated = line("updated "@ + clock::ago(usage.observed_at, now), Style::Dim);
            let blocks = render::summary_blocks(
                outcome,
                stale,
                reveal,
                diagnose,
                now,
                names,
                mode,
            );
            &&& shown.len() > 0 && rows.len() > 0 && usage.subscription_expires_at is None
                ==> blocks == seq![BlockView::Rows(shown), updated] + notes
            &&& shown.len() > 0 && rows.len() > 0 && usage.subscription_expires_at is Some
                ==> blocks == seq![
                line(
                    "expires "@ + clock::calendar_date(
                        usage.subscription_expires_at->0.seconds,
                        usage.subscription_expires_at->0.nanos,
                    ),
                    Style::Plain,
                ),
                BlockView::Rows(shown),
                updated,
            ] + notes
            &&& shown.len() == 0 && rows.len() > 0 ==> blocks == seq![
                updated,
                line(
                    "! no rows match the metric filter: "@ + text::joined(names, ", "@),
                    Style::Warning,
                ),
            ] + notes
            &&& rows.len() == 0 ==> blocks == seq![
                line("! no summarized metrics available; showing raw data"@, Style::Warning),
                BlockView::Pairs(render::usage_pairs(usage, reveal, Seq::empty())),
                render::usage_table(usage),
            ] + notes
        }),
{
    let usage = outcome.payload();
    let rows = summary::report_rows(usage.windows@);
    let shown = filter::rows_under(rows, names, mode);
    let updated = line("updated "@ + clock::ago(usage.observed_at, now), Style::Dim);
    if usage.subscription_expires_at is Some {
        let expiry = line(
            "expires "@ + clock::calendar_date(
                usage.subscription_expires_at->0.seconds,
                usage.subscription_expires_at->0.nanos,
            ),
            Style::Plain,
        );
        assert(seq![expiry] + seq![BlockView::Rows(shown), updated] =~= seq![
            expiry,
            BlockView::Rows(shown),
            updated,
        ]);
    } else {
        assert(Seq::<BlockView>::empty() + seq![BlockView::Rows(shown), updated] =~= seq![
            BlockView::Rows(shown),
            updated,
        ]);
    }
}

/// A section is headed by its provider, then its plan where one is named, then its
/// account where another has the same provider.
pub proof fn sections_are_headed(
    account_id: Seq<char>,
    usage: SubscriptionUsage,
    show_account: bool,
)
    ensures
        ({
            let heading = render::section_heading(account_id, usage, show_account);
            let provider = redact::cell_text(usage.provider@);
            let account = redact::cell_text(account_id);
            let planned = usage.plan is Some && text::trimmed(usage.plan->0@).len() > 0;
            let plan = redact::cell_text(text::trimmed(usage.plan->0@));
            &&& !planned && !show_account ==> heading == provider
            &&& !planned && show_account ==> heading == provider + " - "@ + account
            &&& planned && !show_account ==> heading == provider + " - "@ + plan
            &&& planned && show_account ==> heading == provider + " - "@ + plan + " - "@ + account
        }),
        render::raw_heading(account_id, usage.provider@, true) == redact::cell_text(usage.provider@)
            + " - "@ + redact::cell_text(account_id),
        render::raw_heading(account_id, usage.provider@, false) == redact::cell_text(
            usage.provider@,
        ),
{
}

/// A snapshot in full tells whether it is current or stale, before its report; and
/// every snapshot that has an error ends by saying so, without telling it.
pub proof fn snapshots_tell_their_state(
    snapshot: SnapshotPayload,
    show_account: bool,
    reveal: bool,
    raw: bool,
    diagnose: bool,
    choice: render::MetricFilterChoice,
    now: Timestamp,
)
    ensures
        ({
            let blocks = render::snapshot_blocks(
                snapshot,
                show_account,
                reveal,
                raw,
                diagnose,
                choice,
                now,
            );
            let usage = snapshot.usage.payload();
            &&& raw ==> blocks[0] == BlockView::Header(
                render::raw_heading(snapshot.account_id@, usage.provider@, show_account),
            )
            &&& !raw ==> blocks[0] == BlockView::Header(
                render::section_heading(snapshot.account_id@, usage, show_account),
            )
            &&& raw ==> (blocks[1] matches BlockView::Pairs(pairs) && pairs.len() == 6
                && pairs[0].key == "STATUS"@ && if snapshot.stale {
                pairs[0].cell == document::text_cell("stale"@, Style::Warning)
            } else {
                shows(pairs[0].cell, "current"@)
            })
            &&& raw ==> blocks[2] == render::usage_table(usage)
            &&& snapshot.last_error is Some ==> blocks.last() == BlockView::Pairs(
                seq![
                    PairView {
                        key: "LAST_ERROR"@,
                        cell: document::text_cell("[redacted]"@, Style::Error),
                    },
                ],
            )
        }),
{
}

proof fn places_share_their_provider(
    snapshots: Seq<SnapshotPayload>,
    provider: Seq<char>,
    count: int,
)
    requires
        0 <= count <= snapshots.len(),
    ensures
        forall|i: int|
            0 <= i < render::places_of(snapshots, provider, count).len() ==> {
                let place = #[trigger] render::places_of(snapshots, provider, count)[i];
                0 <= place < count && render::provider_of(snapshots[place]) == provider
            },
        forall|i: int, j: int|
            0 <= i < j < render::places_of(snapshots, provider, count).len()
                ==> #[trigger] render::places_of(snapshots, provider, count)[i]
                < #[trigger] render::places_of(snapshots, provider, count)[j],
    decreases count,
{
    if count > 0 {
        places_share_their_provider(snapshots, provider, count - 1);
        let before = render::places_of(snapshots, provider, count - 1);
        let places = render::places_of(snapshots, provider, count);
        assert forall|i: int| 0 <= i < places.len() implies 0 <= #[trigger] places[i] < count
            && render::provider_of(snapshots[places[i]]) == provider by {
            if i < before.len() {
                assert(places[i] == before[i]);
            }
        }
        assert forall|i: int, j: int| 0 <= i < j < places.len() implies #[trigger] places[i]
            < #[trigger] places[j] by {
            assert(places[i] == before[i]);
            if j < before.len() {
                assert(places[j] == before[j]);
            }
        }
    }
}

proof fn groups_stand_together(snapshots: Seq<SnapshotPayload>, count: int)
    requires
        0 <= count <= snapshots.len(),
    ensures
        ({
            let places = render::grouped_places(snapshots, count);
            &&& forall|i: int|
                0 <= i < places.len() ==> 0 <= #[trigger] places[i] < snapshots.len() && exists|
                    j: int,
                |
                    0 <= j < count && render::provider_of(#[trigger] snapshots[j])
                        == render::provider_of(snapshots[places[i]])
            &&& forall|i: int, j: int, k: int|
                0 <= i < j < k < places.len() && render::provider_of(
                    snapshots[#[trigger] places[i]],
                ) == render::provider_of(snapshots[#[trigger] places[k]]) ==> render::provider_of(
                    snapshots[#[trigger] places[j]],
                ) == render::provider_of(snapshots[places[i]])
            &&& forall|i: int, j: int|
                0 <= i < j < places.len() && render::provider_of(snapshots[#[trigger] places[i]])
                    == render::provider_of(snapshots[#[trigger] places[j]]) ==> places[i]
                    < places[j]
        }),
    decreases count,
{
    if count > 0 {
        groups_stand_together(snapshots, count - 1);
        let before = render::grouped_places(snapshots, count - 1);
        let places = render::grouped_places(snapshots, count);
        let provider = render::provider_of(snapshots[count - 1]);
        if render::first_of_provider(snapshots, count - 1) {
            let group = render::places_of(snapshots, provider, snapshots.len() as int);
            places_share_their_provider(snapshots, provider, snapshots.len() as int);
            assert(places == before + group);
            assert forall|i: int| 0 <= i < before.len() implies render::provider_of(
                snapshots[#[trigger] before[i]],
            ) != provider by {
                let j = choose|j: int|
                    0 <= j < count - 1 && render::provider_of(#[trigger] snapshots[j])
                        == render::provider_of(snapshots[before[i]]);
                assert(render::provider_of(snapshots[j]) != provider);
            }
            assert forall|i: int| 0 <= i < places.len() implies if i < before.len() {
                #[trigger] places[i] == before[i]
            } else {
                places[i] == group[i - before.len()]
            } by {}
            assert forall|i: int| 0 <= i < places.len() implies 0 <= #[trigger] places[i]
                < snapshots.len() && exists|j: int|
                0 <= j < count && render::provider_of(#[trigger] snapshots[j])
                    == render::provider_of(snapshots[places[i]]) by {
                if i < before.len() {
                    let j = choose|j: int|
                        0 <= j < count - 1 && render::provider_of(#[trigger] snapshots[j])
                            == render::provider_of(snapshots[before[i]]);
                    assert(render::provider_of(snapshots[j]) == render::provider_of(
                        snapshots[places[i]],
                    ));
                } else {
                    assert(render::provider_of(snapshots[count - 1]) == render::provider_of(
                        snapshots[places[i]],
                    ));
                }
            }
            assert forall|i: int, j: int, k: int|
                0 <= i < j < k < places.len() && render::provider_of(
                    snapshots[#[trigger] places[i]],
                ) == render::provider_of(
                    snapshots[#[trigger] places[k]],
                ) implies render::provider_of(snapshots[#[trigger] places[j]])
                == render::provider_of(snapshots[places[i]]) by {
                if k < before.len() {
                    assert(before[i] == places[i] && before[j] == places[j] && before[k]
                        == places[k]);
                } else if i < before.len() {
                    assert(render::provider_of(snapshots[before[i]]) != provider);
                    assert(places[k] == group[k - before.len()]);
                } else {
                    assert(places[i] == group[i - before.len()]);
                    assert(places[j] == group[j - before.len()]);
                }
            }
            assert forall|i: int, j: int|
                0 <= i < j < places.len() && render::provider_of(snapshots[#[trigger] places[i]])
                    == render::provider_of(snapshots[#[trigger] places[j]]) implies places[i]
                < places[j] by {
                if j < before.len() {
                    assert(before[i] == places[i] && before[j] == places[j]);
                } else if i < before.len() {
                    assert(render::provider_of(snapshots[before[i]]) != provider);
                    assert(places[j] == group[j - before.len()]);
                } else {
                    assert(places[i] == group[i - before.len()]);
                    assert(places[j] == group[j - before.len()]);
                }
            }
        } else {
            assert forall|i: int| 0 <= i < places.len() implies exists|j: int|
                0 <= j < count && render::provider_of(#[trigger] snapshots[j])
                    == render::provider_of(snapshots[#[trigger] places[i]]) by {
                let j = choose|j: int|
                    0 <= j < count - 1 && render::provider_of(#[trigger] snapshots[j])
                        == render::provider_of(snapshots[before[i]]);
                assert(render::provider_of(snapshots[j]) == render::provider_of(
                    snapshots[places[i]],
                ));
            }
        }
    }
}

/// Snapshots of one provider stand together, and among themselves in the order in
/// which they came.
pub proof fn snapshots_of_a_provider_stand_together(
    snapshots: Seq<SnapshotPayload>,
    first: int,
    between: int,
    last: int,
)
    requires
        0 <= first < between < last < render::grouped_places(
            snapshots,
            snapshots.len() as int,
        ).len(),
    ensures
        ({
            let places = render::grouped_places(snapshots, snapshots.len() as int);
            snapshots[places[first]].usage.payload().provider@
                == snapshots[places[last]].usage.payload().provider@ ==> places[first]
                < places[between] < places[last]
                && snapshots[places[between]].usage.payload().provider@
                == snapshots[places[first]].usage.payload().provider@
        }),
{
    groups_stand_together(snapshots, snapshots.len() as int);
    let places = render::grouped_places(snapshots, snapshots.len() as int);
    if render::provider_of(snapshots[places[first]]) == render::provider_of(
        snapshots[places[last]],
    ) {
        assert(render::provider_of(snapshots[places[between]]) == render::provider_of(
            snapshots[places[first]],
        ));
    }
}

/// An account is named in its heading exactly where another has the same provider.
pub proof fn an_account_is_named_where_its_provider_repeats(
    snapshots: Seq<SnapshotPayload>,
    left: int,
    right: int,
)
    requires
        0 <= left < right < snapshots.len(),
    ensures
        snapshots[left].usage.payload().provider@ == snapshots[right].usage.payload().provider@
            ==> render::provider_repeats(snapshots, snapshots[left].usage.payload().provider@),
        (forall|i: int|
            0 <= i < snapshots.len() && i != left ==> (
            #[trigger] snapshots[i]).usage.payload().provider@
                != snapshots[left].usage.payload().provider@) ==> !render::provider_repeats(
            snapshots,
            snapshots[left].usage.payload().provider@,
        ),
{
    let provider = snapshots[left].usage.payload().provider@;
    if snapshots[right].usage.payload().provider@ == provider {
        assert(render::provider_of(snapshots[left]) == provider && render::provider_of(
            snapshots[right],
        ) == provider);
    }
    if render::provider_repeats(snapshots, provider) {
        let (i, j) = choose|i: int, j: int|
            0 <= i < j < snapshots.len() && render::provider_of(#[trigger] snapshots[i]) == provider
                && render::provider_of(#[trigger] snapshots[j]) == provider;
        if i != left {
            assert(snapshots[i].usage.payload().provider@ == provider);
        } else {
            assert(snapshots[j].usage.payload().provider@ == provider);
        }
    }
}

/// The reason of an invalid sign-in goes to the error stream of a readable answer,
/// where details are wanted and it is safe; nothing else does.
pub proof fn reasons_go_to_the_error_stream(
    result: ControlResult,
    diagnose: bool,
    format: crate::cli::OutputFormat,
)
    ensures
        render::side_text(result, diagnose, format) == if diagnose && format
            == crate::cli::OutputFormat::Table && (result matches ControlResult::AuthState(
            AuthState::Invalid { reason, .. },
        ) && !crate::identity::unsafe_text(reason@)) {
            "detail: "@ + result->AuthState_0->reason@ + "\n"@
        } else {
            Seq::empty()
        },
{
}

/// Each answer is shown in its own form: a status, a code or a sign-in in pairs, a
/// list in a table, an account in pairs where its metrics were asked for and else
/// in a table, and an acknowledgement as `ok`.
pub proof fn answers_are_shown_in_their_form(
    result: ControlResult,
    reveal: bool,
    raw: bool,
    diagnose: bool,
    view: RenderView,
    now: Timestamp,
)
    ensures
        ({
            let blocks = render::human_blocks(result, reveal, raw, diagnose, view, now);
            match result {
                ControlResult::DaemonStatus(status) => blocks == seq![
                    BlockView::Pairs(render::status_pairs(status)),
                ],
                ControlResult::Providers(providers) => blocks == seq![
                    render::providers_table(providers@),
                ],
                ControlResult::Accounts(accounts) => blocks == seq![
                    render::accounts_table(accounts@, reveal),
                ],
                ControlResult::Account(account) => if view.account_with_metrics {
                    blocks == seq![BlockView::Pairs(render::account_pairs(account, reveal))]
                } else {
                    blocks == seq![render::changed_account_table(account, reveal)]
                },
                ControlResult::Devices(devices) => blocks == seq![
                    render::devices_table(devices@, now),
                ],
                ControlResult::PairCode(code) => blocks == seq![
                    BlockView::Pairs(render::pair_code_pairs(code)),
                ],
                ControlResult::AuthChallenge(challenge) => blocks == seq![
                    BlockView::Pairs(render::challenge_pairs(challenge, reveal)),
                ],
                ControlResult::AuthState(state) => blocks.len() == 1 && (blocks[0] matches
                    BlockView::Pairs(pairs) && pairs.len() == 1 && pairs_tell(
                    pairs,
                    0,
                    "AUTH"@,
                    render::state_text(state),
                )),
                ControlResult::Ack => blocks == seq![line("ok"@, Style::Plain)],
                ControlResult::Probe(payload) => if raw {
                    blocks[1] == render::usage_table(payload.usage.payload())
                } else {
                    blocks[0] == BlockView::Header(
                        render::section_heading(
                            payload.account_id@,
                            payload.usage.payload(),
                            false,
                        ),
                    )
                },
                _ => true,
            }
        }),
{
}

/// Only showing an account, or setting its metrics, shows its metrics.
pub proof fn metrics_are_shown_on_request(command: crate::cli::Command)
    ensures
        crate::dispatch::shows_metrics(command) <==> (command matches
            crate::cli::Command::Account { command } && (command is Show || command is Metrics)),
{
}

/// What is told of a daemon that does not run says whether its service is installed.
pub proof fn stopped_daemons_are_told(
    installed: bool,
    format: crate::cli::OutputFormat,
    result: render::StoppedService,
)
    requires
        render::stopped_service_is(installed, format, result),
    ensures
        result is Document <==> format == crate::cli::OutputFormat::Table,
        result matches render::StoppedService::Document(block) ==> (block@ matches
            BlockView::Pairs(pairs) && pairs.len() == 2 && pairs[0].key == "STATUS"@
            && pairs[0].cell == document::text_cell("stopped"@, Style::Error) && pairs_tell(
            pairs,
            1,
            "SERVICE"@,
            if installed {
                "installed"@
            } else {
                "not-installed"@
            },
        )),
        format == crate::cli::OutputFormat::Json ==> (result matches render::StoppedService::Json(
            json,
        ) && json@ == if installed {
            "{\"service\":\"installed\",\"status\":\"stopped\"}\n"@
        } else {
            "{\"service\":\"not_installed\",\"status\":\"stopped\"}\n"@
        }),
        format == crate::cli::OutputFormat::PrettyJson ==> (result matches
            render::StoppedService::Json(json) && json@ == if installed {
            "{\n  \"service\": \"installed\",\n  \"status\": \"stopped\"\n}\n"@
        } else {
            "{\n  \"service\": \"not_installed\",\n  \"status\": \"stopped\"\n}\n"@
        }),
{
}

} // verus!
