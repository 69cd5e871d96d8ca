//! What a command asks of the daemon.

use vstd::prelude::*;

use crate::cli;
use crate::cli::{
    AccountCommand, AuthCommand, AuthMethodArg, Cli, Command, DaemonCommand, DeviceCommand,
    OutputFormat,
};
use crate::dispatch;
use crate::dispatch::Step;
use crate::errors::ServiceAction;
use crate::identity;
use crate::laws::choices;
use crate::laws::summaries;
use crate::laws::texts;
use crate::protocol::{AuthMethod, ControlCommand, ControlRequest};
use crate::summary::filter;
use crate::text;
use crate::validate;

verus! {

/// A completed sign-in is asked for with all that was supplied: the provider, the
/// account, the flow, the redirect address, and the code that the environment
/// held.
pub proof fn sign_ins_are_completed_with_their_code(
    cli: Cli,
    code: Option<String>,
    environment: bool,
    step: Step,
    given: AuthCommand,
)
    requires
        dispatch::starts_with(cli, code, environment, step),
        cli.command == (Command::Auth { command: given }),
        given is Complete,
        step is Send,
    ensures
        step->Send_command matches ControlCommand::CompleteAuth { provider, account, request } && {
            &&& request.authorization_code == code
            &&& provider@ == given->Complete_provider@
            &&& account@ == given->Complete_account@
            &&& request.flow_id == given->flow_id
            &&& request.redirect_uri == given->redirect_uri
        },
{
}

/// Two different codes complete a sign-in by two different requests.
pub proof fn different_codes_make_different_requests(
    cli: Cli,
    code: Option<String>,
    other_code: Option<String>,
    environment: bool,
    step: Step,
    other_step: Step,
    request_id: Seq<char>,
    request: ControlRequest,
    other_request: ControlRequest,
)
    requires
        dispatch::starts_with(cli, code, environment, step),
        dispatch::starts_with(cli, other_code, environment, other_step),
        cli.command matches Command::Auth { command } && command is Complete,
        step is Send,
        other_step is Send,
        dispatch::carries(request, request_id, step->Send_command, step->diagnose),
        dispatch::carries(
            other_request,
            request_id,
            other_step->Send_command,
            other_step->diagnose,
        ),
        code != other_code,
    ensures
        request != other_request,
        request.command->CompleteAuth_request.authorization_code == code,
        other_request.command->CompleteAuth_request.authorization_code == other_code,
{
}

/// A request carries its number, the command, whether details are wanted, and the
/// version of the protocol, which is the first.
pub proof fn requests_carry_their_command(
    request: ControlRequest,
    request_id: Seq<char>,
    command: ControlCommand,
    diagnose: bool,
)
    requires
        dispatch::carries(request, request_id, command, diagnose),
    ensures
        request.version == 1,
        request.request_id@ == request_id,
        request.command == command,
        request.diagnostics == diagnose,
{
}

/// The same texts.
pub open spec fn same_text(left: Option<String>, right: Option<String>) -> bool {
    left is Some == right is Some && (left is Some ==> left->0@ == right->0@)
}

/// The commands ask for the same with the same parameters.
pub open spec fn same_demand(
    left: Command,
    left_code: Option<String>,
    right: Command,
    right_code: Option<String>,
) -> bool {
    match (left, right) {
        (Command::Daemon { .. }, Command::Daemon { .. }) => true,
        (Command::Provider { .. }, Command::Provider { .. }) => true,
        (Command::Device { command: first }, Command::Device { command: second }) => match (
            first,
            second,
        ) {
            (DeviceCommand::Pair, DeviceCommand::Pair) => true,
            (DeviceCommand::List, DeviceCommand::List) => true,
            (
                DeviceCommand::Revoke { device_id },
                DeviceCommand::Revoke { device_id: other },
            ) => device_id@ == other@,
            _ => false,
        },
        (Command::Account { command: first }, Command::Account { command: second }) => match (
            first,
            second,
        ) {
            (
                AccountCommand::Add { provider, label },
                AccountCommand::Add { provider: other, label: other_label },
            ) => provider@ == other@ && same_text(label, other_label),
            (AccountCommand::List, AccountCommand::List) => true,
            (
                AccountCommand::Show { account },
                AccountCommand::Show { account: other },
            ) => account@ == other@,
            (
                AccountCommand::Enable { account },
                AccountCommand::Enable { account: other },
            ) => account@ == other@,
            (
                AccountCommand::Disable { account },
                AccountCommand::Disable { account: other },
            ) => account@ == other@,
            (
                AccountCommand::Label { account, label },
                AccountCommand::Label { account: other, label: other_label },
            ) => account@ == other@ && same_text(label, other_label),
            (
                AccountCommand::Metrics { account, metrics },
                AccountCommand::Metrics { account: other, metrics: other_metrics },
            ) => account@ == other@ && forall|metric: Seq<char>| #[trigger]
                choices::named(filter::text_views(metrics@), metric) == choices::named(
                    filter::text_views(other_metrics@),
                    metric,
                ),
            (
                AccountCommand::Remove { account },
                AccountCommand::Remove { account: other },
            ) => account@ == other@,
            _ => false,
        },
        (Command::Auth { command: first }, Command::Auth { command: second }) => match (
            first,
            second,
        ) {
            (
                AuthCommand::Login { provider, account, method },
                AuthCommand::Login {
                    provider: other,
                    account: other_account,
                    method: other_method,
                },
            ) => same_text(provider, other) && same_text(account, other_account) && method
                == other_method,
            (
                AuthCommand::Status { provider, account },
                AuthCommand::Status { provider: other, account: other_account },
            ) => provider@ == other@ && account@ == other_account@,
            (
                AuthCommand::Complete { provider, account, flow_id, redirect_uri, .. },
                AuthCommand::Complete {
                    provider: other,
                    account: other_account,
                    flow_id: other_flow,
                    redirect_uri: other_uri,
                    ..
                },
            ) => provider@ == other@ && account@ == other_account@ && flow_id@ == other_flow@
                && same_text(redirect_uri, other_uri) && same_text(left_code, right_code),
            (
                AuthCommand::Logout { provider, account, account_label },
                AuthCommand::Logout {
                    provider: other,
                    account: other_account,
                    account_label: other_label,
                },
            ) => provider@ == other@ && account@ == other_account@ && same_text(
                account_label,
                other_label,
            ),
            _ => false,
        },
        (Command::Probe(first), Command::Probe(second)) => first.account@ == second.account@
            && first.wait == second.wait,
        (Command::Show(first), Command::Show(second)) => same_text(first.account, second.account),
        _ => false,
    }
}

/// What is asked of the daemon tells the command: two commands that make the same
/// request ask for the same, with the same parameters.
pub proof fn requests_tell_commands_apart(
    left: Command,
    left_code: Option<String>,
    right: Command,
    right_code: Option<String>,
    wire: ControlCommand,
)
    requires
        validate::wire_command(left, left_code, wire),
        validate::wire_command(right, right_code, wire),
        validate::dispatched(left),
        validate::dispatched(right),
        !(left is Tui),
        !(right is Tui),
        left matches Command::Account { command: AccountCommand::Metrics { metrics, .. } }
            ==> choices::fit(filter::text_views(metrics@)),
        right matches Command::Account { command: AccountCommand::Metrics { metrics, .. } }
            ==> choices::fit(filter::text_views(metrics@)),
    ensures
        same_demand(left, left_code, right, right_code),
{
    if let Command::Account { command: first } = left {
        if let Command::Account { command: second } = right {
            if let AccountCommand::Metrics { metrics, .. } = first {
                if let AccountCommand::Metrics { metrics: others, .. } = second {
                    let names = filter::text_views(metrics@);
                    let other_names = filter::text_views(others@);
                    summaries::filters_report_the_first_unfit_name(names, 0);
                    summaries::filters_report_the_first_unfit_name(other_names, 0);
                    assert(filter::normalized(names) == filter::normalized(other_names));
                    assert forall|metric: Seq<char>| #[trigger]
                        choices::named(names, metric) == choices::named(other_names, metric) by {
                        choices::filters_have_what_was_named(names, metric);
                        choices::filters_have_what_was_named(other_names, metric);
                    }
                }
            }
        }
    }
    if let Command::Auth { command: first } = left {
        if let Command::Auth { command: second } = right {
            if let AuthCommand::Login { method, .. } = first {
                if let AuthCommand::Login { method: other, .. } = second {
                    assert(validate::wire_method(method) == validate::wire_method(other));
                }
            }
        }
    }
}

/// What each command asks of the daemon, by the kind of its request and by what
/// the request names.
pub proof fn commands_make_their_requests(
    command: Command,
    code: Option<String>,
    wire: ControlCommand,
)
    requires
        validate::wire_command(command, code, wire),
    ensures
        command is Provider ==> wire is ListProviders,
        command is Daemon ==> wire is DaemonStatus,
        command matches Command::Probe(args) ==> wire == (ControlCommand::Probe {
            account_id: args.account,
            wait: args.wait,
        }),
        command matches Command::Show(args) ==> wire == (ControlCommand::Show {
            account_id: args.account,
        }),
        command matches Command::Device { command: DeviceCommand::Pair } ==> wire is CreatePairCode,
        command matches Command::Device { command: DeviceCommand::List } ==> wire is ListDevices,
        command matches Command::Device { command: DeviceCommand::Revoke { device_id } } ==> wire
            == (ControlCommand::RevokeDevice { device_id }),
        command matches Command::Account { command: AccountCommand::Enable { account } } ==> (
        wire matches ControlCommand::SetAccountEnabled { account: id, enabled: true } && id@
            == account@),
        command matches Command::Account { command: AccountCommand::Disable { account } } ==> (
        wire matches ControlCommand::SetAccountEnabled { account: id, enabled: false } && id@
            == account@),
        command matches Command::Account { command: AccountCommand::Remove { account } } ==> (
        wire matches ControlCommand::RemoveAccount { account: id } && id@ == account@),
        command matches Command::Account { command: AccountCommand::Show { account } } ==> (
        wire matches ControlCommand::ShowAccount { account: id } && id@ == account@),
        command matches Command::Account { command: AccountCommand::List } ==> wire
            is ListAccounts,
        command matches Command::Account { command: AccountCommand::Add { provider, label } } ==> (
        wire matches ControlCommand::AddAccount { provider: id, label: given } && id@ == provider@
            && given == label),
        command matches Command::Account {
            command: AccountCommand::Label { account, label },
        } ==> (wire matches ControlCommand::SetAccountLabel { account: id, label: given } && id@
            == account@ && given == label),
        command matches Command::Account {
            command: AccountCommand::Metrics { account, metrics },
        } ==> (wire matches ControlCommand::SetAccountMetrics { account: id, metrics: names } && id@
            == account@ && (choices::fit(filter::text_views(metrics@)) ==> forall|metric: Seq<char>|
            #[trigger]
            choices::named(filter::text_views(names@), metric) == choices::named(
                filter::text_views(metrics@),
                metric,
            ))),
        command matches Command::Auth {
            command: AuthCommand::Login { provider, account, method },
        } ==> (wire matches ControlCommand::StartAuth { provider: id, account: owner, request }
            && request.redirect_uri is None && request.method is Some == method is Some && (
        provider is Some && account is Some ==> id@ == provider->0@ && owner@ == account->0@)),
        command matches Command::Auth { command: AuthCommand::Status { provider, account } } ==> (
        wire matches ControlCommand::AuthStatus { provider: id, account: owner } && id@ == provider@
            && owner@ == account@),
        command matches Command::Auth {
            command: AuthCommand::Logout { provider, account, account_label },
        } ==> (wire matches ControlCommand::Logout { provider: id, account: owner, request } && id@
            == provider@ && owner@ == account@ && request.account_label == account_label),
{
    if let Command::Account { command: AccountCommand::Metrics { metrics, .. } } = command {
        let names = filter::text_views(metrics@);
        if choices::fit(names) {
            summaries::filters_report_the_first_unfit_name(names, 0);
            crate::summary::laws::accepted_names_are_valid(names);
            let kept = filter::normalized(names);
            crate::summary::laws::valid_names_are_accepted_unchanged(kept);
            assert forall|metric: Seq<char>| #[trigger]
                choices::named(kept, metric) == choices::named(names, metric) by {
                choices::filters_have_what_was_named(names, metric);
                choices::filters_have_what_was_named(kept, metric);
            }
        }
    }
}

/// Each way to sign in is asked for as itself.
pub proof fn methods_are_asked_for_as_themselves(method: AuthMethodArg)
    ensures
        match cli::method_of(method) {
            AuthMethod::BrowserOAuth => method == AuthMethodArg::BrowserOauth,
            AuthMethod::DeviceCode => method == AuthMethodArg::DeviceCode,
            AuthMethod::ApiToken => method == AuthMethodArg::ApiToken,
            AuthMethod::SessionImport => method == AuthMethodArg::SessionImport,
            AuthMethod::Other(_) => false,
        },
{
}

/// What a safe command does first: the service is managed as its name says, the
/// daemon runs in the foreground, the view opens, a sign-in without an account
/// becomes a conversation, and all else is asked of the daemon, with details only
/// where they were wanted and the command signs in, probes or shows.
pub proof fn commands_take_their_step(
    cli: Cli,
    code: Option<String>,
    environment: bool,
    step: Step,
)
    requires
        dispatch::starts_with(cli, code, environment, step),
        validate::unsafe_parameter(cli.command, code) is None,
        dispatch::names_accepted(cli.command),
    ensures
        match cli.command {
            Command::Daemon { command: DaemonCommand::Install } => step == Step::Manage(
                ServiceAction::Install,
            ),
            Command::Daemon { command: DaemonCommand::Start } => step == Step::Manage(
                ServiceAction::Start,
            ),
            Command::Daemon { command: DaemonCommand::Stop } => step == Step::Manage(
                ServiceAction::Stop,
            ),
            Command::Daemon { command: DaemonCommand::Uninstall } => step == Step::Manage(
                ServiceAction::Uninstall,
            ),
            Command::Daemon { command: DaemonCommand::Run } => step is RunDaemon,
            Command::Tui(args) => step == Step::OpenView(args),
            Command::Auth {
                command: AuthCommand::Login { provider, account: None, method },
            } => step == (Step::Login { provider, method }),
            _ => step matches Step::Send { diagnose, .. } && diagnose == ((cli.diagnose
                || environment) && (cli.command is Auth || cli.command is Probe
                || cli.command is Show)),
        },
        step matches Step::Send { command, .. } ==> validate::wire_command(
            cli.command,
            code,
            command,
        ),
{
}

/// Requests of one process have different numbers, and so have those of two.
pub proof fn request_numbers_differ(process: u32, sequence: u64, other: u32, later: u64)
    ensures
        text::has_prefix(dispatch::request_id(process, sequence), "cli-"@),
        dispatch::request_id(process, sequence) == dispatch::request_id(other, later) ==> process
            == other && sequence == later,
{
    reveal_strlit("cli-");
    reveal_strlit("-");
    let first = dispatch::request_id(process, sequence);
    let second = dispatch::request_id(other, later);
    let left = text::decimal_digits(process as nat);
    let right = text::decimal_digits(other as nat);
    let left_end = text::decimal_digits(sequence as nat);
    let right_end = text::decimal_digits(later as nat);
    texts::digits_say_the_number(process as nat);
    texts::digits_say_the_number(other as nat);
    texts::digits_say_the_number(sequence as nat);
    texts::digits_say_the_number(later as nat);
    assert(first.take(4) =~= "cli-"@);
    if first == second {
        assert(first[4 + left.len() as int] == '-');
        assert(second[4 + right.len() as int] == '-');
        if left.len() < right.len() {
            assert(second[4 + left.len() as int] == right[left.len() as int]);
        }
        if right.len() < left.len() {
            assert(first[4 + right.len() as int] == left[right.len() as int]);
        }
        assert(left.len() == right.len());
        assert(left =~= first.subrange(4, 4 + left.len() as int));
        assert(right =~= second.subrange(4, 4 + right.len() as int));
        assert(left_end =~= first.skip(5 + left.len() as int));
        assert(right_end =~= second.skip(5 + right.len() as int));
        assert(texts::number(left) == texts::number(right));
        assert(texts::number(left_end) == texts::number(right_end));
    }
}

/// The argument has nothing to do with the output format.
pub open spec fn no_format(argument: Seq<char>) -> bool {
    argument != "--"@ && argument != "--output"@ && !text::has_prefix(argument, "--output="@)
}

proof fn formats_are_looked_for_further_on(arguments: Seq<String>, from: int, to: int)
    requires
        0 <= from <= to <= arguments.len(),
        forall|i: int| from <= i < to ==> no_format((#[trigger] arguments[i])@),
    ensures
        cli::requested_format(arguments, from) == cli::requested_format(arguments, to),
    decreases to - from,
{
    if from < to {
        formats_are_looked_for_further_on(arguments, from + 1, to);
        assert(no_format(arguments[from]@));
    }
}

/// The format of an error is the first that the arguments name, before `--`: as
/// the argument behind `--output`, or in the same argument behind an equals sign;
/// and a table where none is named.
pub proof fn the_first_named_format_is_taken(arguments: Seq<String>, place: int)
    requires
        1 <= place <= arguments.len(),
        forall|i: int| 1 <= i < place ==> no_format((#[trigger] arguments[i])@),
    ensures
        place == arguments.len() ==> cli::requested_format(arguments, 1) == OutputFormat::Table,
        place < arguments.len() && arguments[place]@ == "--"@ ==> cli::requested_format(
            arguments,
            1,
        ) == OutputFormat::Table,
        place + 1 < arguments.len() && arguments[place]@ == "--output"@ ==> {
            let word = arguments[place + 1]@;
            &&& word == "json"@ ==> cli::requested_format(arguments, 1) == OutputFormat::Json
            &&& word == "pretty-json"@ ==> cli::requested_format(arguments, 1)
                == OutputFormat::PrettyJson
            &&& word == "table"@ ==> cli::requested_format(arguments, 1) == OutputFormat::Table
        },
        place < arguments.len() && arguments[place]@ == "--output=json"@
            ==> cli::requested_format(arguments, 1) == OutputFormat::Json,
        place < arguments.len() && arguments[place]@ == "--output=pretty-json"@
            ==> cli::requested_format(arguments, 1) == OutputFormat::PrettyJson,
        place < arguments.len() && arguments[place]@ == "--output=table"@
            ==> cli::requested_format(arguments, 1) == OutputFormat::Table,
{
    formats_are_looked_for_further_on(arguments, 1, place);
    reveal_strlit("--");
    reveal_strlit("--output");
    reveal_strlit("--output=");
    reveal_strlit("--output=json");
    reveal_strlit("--output=pretty-json");
    reveal_strlit("--output=table");
    reveal_strlit("json");
    reveal_strlit("pretty-json");
    reveal_strlit("table");
    assert("json"@.len() == 4 && "pretty-json"@.len() == 11 && "table"@.len() == 5);
    assert("--"@.len() == 2 && "--output"@.len() == 8);
    assert("--output=json"@ =~= "--output="@ + "json"@);
    assert("--output=pretty-json"@ =~= "--output="@ + "pretty-json"@);
    assert("--output=table"@ =~= "--output="@ + "table"@);
    texts::prefixes_and_suffixes_come_off("--output=json"@, "--output="@, "json"@);
    texts::prefixes_and_suffixes_come_off("--output=pretty-json"@, "--output="@, "pretty-json"@);
    texts::prefixes_and_suffixes_come_off("--output=table"@, "--output="@, "table"@);
}

proof fn blame_moves_on(arguments: Seq<String>, from: int, to: int, terminated: bool)
    requires
        1 <= from <= to <= arguments.len(),
        forall|i: int|
            from <= i < to ==> (#[trigger] arguments[i])@ != "--"@ && !identity::unsafe_text(
                arguments[i]@,
            ),
    ensures
        cli::blame_from(arguments, from, terminated) == cli::blame_from(arguments, to, terminated),
    decreases to - from,
{
    if from < to {
        assert(arguments[from]@ != "--"@);
        blame_moves_on(arguments, from + 1, to, terminated);
    }
}

proof fn blame_passes_safe_arguments(arguments: Seq<String>, from: int, terminated: bool)
    requires
        1 <= from <= arguments.len(),
        forall|i: int|
            from <= i < arguments.len() ==> !identity::unsafe_text((#[trigger] arguments[i])@),
    ensures
        cli::blame_from(arguments, from, terminated) is None,
    decreases arguments.len() - from,
{
    if from < arguments.len() {
        assert(!identity::unsafe_text(arguments[from]@));
        blame_passes_safe_arguments(arguments, from + 1, true);
        blame_passes_safe_arguments(arguments, from + 1, terminated);
    }
}

/// An option that takes a value.
pub open spec fn takes_a_value(flag: Seq<char>) -> bool {
    seq![
        "--label"@,
        "--account"@,
        "--account-label"@,
        "--redirect-uri"@,
        "--authorization-code-env"@,
        "--metric"@,
        "--method"@,
        "--output"@,
        "--color"@,
    ].contains(flag)
}

pub proof fn value_options_take_a_value(flag: Seq<char>)
    ensures
        cli::value_option(flag) == takes_a_value(flag),
{
    let flags = seq![
        "--label"@,
        "--account"@,
        "--account-label"@,
        "--redirect-uri"@,
        "--authorization-code-env"@,
        "--metric"@,
        "--method"@,
        "--output"@,
        "--color"@,
    ];
    assert(flags[0] == "--label"@ && flags[1] == "--account"@ && flags[2] == "--account-label"@
        && flags[3] == "--redirect-uri"@ && flags[4] == "--authorization-code-env"@ && flags[5]
        == "--metric"@ && flags[6] == "--method"@ && flags[7] == "--output"@ && flags[8]
        == "--color"@);
    if takes_a_value(flag) {
        let i = choose|i: int| 0 <= i < flags.len() && flags[i] == flag;
        assert(0 <= i < 9);
    }
}

proof fn flags_end_at_the_equals_sign(flag: Seq<char>, value: Seq<char>)
    requires
        forall|i: int| 0 <= i < flag.len() ==> #[trigger] flag[i] != '=',
    ensures
        cli::before_equals(flag + seq!['='] + value) == flag,
        cli::before_equals(flag) == flag,
    decreases flag.len(),
{
    let whole = flag + seq!['='] + value;
    if flag.len() > 0 {
        let rest = flag.skip(1);
        assert forall|i: int| 0 <= i < rest.len() implies #[trigger] rest[i] != '=' by {
            assert(rest[i] == flag[i + 1]);
        }
        flags_end_at_the_equals_sign(rest, value);
        assert(whole.skip(1) =~= rest + seq!['='] + value);
        assert(whole[0] == flag[0]);
        assert(seq![flag[0]] + rest =~= flag);
    } else {
        assert(whole[0] == '=');
    }
}

/// An obscured argument is blamed on the option that it is the value of, where
/// that stands before it or is written in front of an equals sign; any other, and
/// every one behind `--`, is just an argument. The first is blamed, and none where
/// all are safe.
pub proof fn the_first_obscured_argument_is_blamed(
    arguments: Seq<String>,
    place: int,
    flag: Seq<char>,
    value: Seq<char>,
)
    requires
        1 <= place <= arguments.len(),
        forall|i: int|
            1 <= i < place ==> (#[trigger] arguments[i])@ != "--"@ && !identity::unsafe_text(
                arguments[i]@,
            ),
    ensures
        (forall|i: int|
            1 <= i < arguments.len() ==> !identity::unsafe_text((#[trigger] arguments[i])@))
            ==> cli::blame_from(arguments, 1, false) is None,
        place < arguments.len() && identity::unsafe_text(arguments[place]@) ==> {
            let argument = arguments[place]@;
            let blamed = cli::blame_from(arguments, 1, false);
            &&& blamed is Some
            &&& !text::has_prefix(argument, "--"@) && takes_a_value(arguments[place - 1]@)
                ==> blamed == Some(arguments[place - 1]@)
            &&& !text::has_prefix(argument, "--"@) && !takes_a_value(arguments[place - 1]@)
                ==> blamed == Some("argument"@)
            &&& text::has_prefix(argument, "--"@) && argument == flag + seq!['='] + value && (
            forall|i: int| 0 <= i < flag.len() ==> #[trigger] flag[i] != '=') ==> blamed == Some(
                if takes_a_value(flag) {
                    flag
                } else {
                    "argument"@
                },
            )
        },
        place + 1 < arguments.len() && arguments[place]@ == "--"@ && identity::unsafe_text(
            arguments[place + 1]@,
        ) ==> cli::blame_from(arguments, 1, false) == Some("argument"@),
{
    blame_moves_on(arguments, 1, place, false);
    if forall|i: int|
        1 <= i < arguments.len() ==> !identity::unsafe_text((#[trigger] arguments[i])@) {
        blame_passes_safe_arguments(arguments, 1, false);
    }
    if place < arguments.len() && identity::unsafe_text(arguments[place]@) {
        reveal_strlit("--");
        assert(arguments[place]@ != "--"@) by {
            if arguments[place]@ == "--"@ {
                let i = choose|i: int|
                    0 <= i < "--"@.len() && identity::unsafe_character(#[trigger] "--"@[i]);
                assert("--"@[i] == '-');
            }
        }
        value_options_take_a_value(arguments[place - 1]@);
        value_options_take_a_value(flag);
        if forall|i: int| 0 <= i < flag.len() ==> #[trigger] flag[i] != '=' {
            flags_end_at_the_equals_sign(flag, value);
        }
    }
    if place + 1 < arguments.len() && arguments[place]@ == "--"@ && identity::unsafe_text(
        arguments[place + 1]@,
    ) {
        reveal_strlit("--");
        assert(cli::blame_from(arguments, place, false) == cli::blame_from(
            arguments,
            place + 1,
            true,
        ));
        assert(arguments[place + 1]@ != "--"@) by {
            if arguments[place + 1]@ == "--"@ {
                let i = choose|i: int|
                    0 <= i < "--"@.len() && identity::unsafe_character(#[trigger] "--"@[i]);
                assert("--"@[i] == '-');
            }
        }
    }
}

/// A parameter of a command: its text, and what it is called.
pub struct Parameter {
    pub text: Seq<char>,
    pub called: Seq<char>,
}

/// A parameter, and none where it was left out.
pub open spec fn optional(given: Option<String>, called: Seq<char>) -> Seq<Parameter> {
    match given {
        Some(given) => seq![Parameter { text: given@, called }],
        None => Seq::empty(),
    }
}

/// The parameters of a list, all called the same.
pub open spec fn several(given: Seq<String>, called: Seq<char>) -> Seq<Parameter> {
    given.map_values(|text: String| Parameter { text: text@, called })
}

/// What a command was given, in the order of its usage text.
pub open spec fn parameters(command: Command, code: Option<String>) -> Seq<Parameter> {
    match command {
        Command::Daemon { .. } => Seq::empty(),
        Command::Provider { .. } => Seq::empty(),
        Command::Tui(_) => Seq::empty(),
        Command::Device { command } => match command {
            DeviceCommand::Revoke { device_id } => seq![
                Parameter { text: device_id@, called: "DEVICE_ID"@ },
            ],
            _ => Seq::empty(),
        },
        Command::Account { command } => match command {
            AccountCommand::Add { provider, label } => seq![
                Parameter { text: provider@, called: "PROVIDER_ID"@ },
            ] + optional(label, "--label"@),
            AccountCommand::List => Seq::empty(),
            AccountCommand::Show { account } => seq![
                Parameter { text: account@, called: "ACCOUNT_ID"@ },
            ],
            AccountCommand::Enable { account } => seq![
                Parameter { text: account@, called: "ACCOUNT_ID"@ },
            ],
            AccountCommand::Disable { account } => seq![
                Parameter { text: account@, called: "ACCOUNT_ID"@ },
            ],
            AccountCommand::Remove { account } => seq![
                Parameter { text: account@, called: "ACCOUNT_ID"@ },
            ],
            AccountCommand::Label { account, label } => seq![
                Parameter { text: account@, called: "ACCOUNT_ID"@ },
            ] + optional(label, "ACCOUNT_LABEL"@),
            AccountCommand::Metrics { account, metrics } => seq![
                Parameter { text: account@, called: "ACCOUNT_ID"@ },
            ] + several(metrics@, "METRIC"@),
        },
        Command::Auth { command } => match command {
            AuthCommand::Login { provider, account, .. } => optional(provider, "PROVIDER_ID"@)
                + optional(account, "--account"@),
            AuthCommand::Status { provider, account } => seq![
                Parameter { text: provider@, called: "PROVIDER_ID"@ },
                Parameter { text: account@, called: "--account"@ },
            ],
            AuthCommand::Complete {
                provider,
                account,
                flow_id,
                redirect_uri,
                authorization_code_env,
            } => seq![
                Parameter { text: provider@, called: "PROVIDER_ID"@ },
                Parameter { text: account@, called: "--account"@ },
                Parameter { text: flow_id@, called: "FLOW_ID"@ },
            ] + optional(redirect_uri, "--redirect-uri"@) + seq![
                Parameter { text: authorization_code_env@, called: "--authorization-code-env"@ },
            ] + optional(code, "authorization_code_env"@),
            AuthCommand::Logout { provider, account, account_label } => seq![
                Parameter { text: provider@, called: "PROVIDER_ID"@ },
                Parameter { text: account@, called: "--account"@ },
            ] + optional(account_label, "--account-label"@),
        },
        Command::Probe(args) => seq![Parameter { text: args.account@, called: "ACCOUNT_ID"@ }],
        Command::Show(args) => optional(args.account, "ACCOUNT_ID"@) + several(
            args.metric@,
            "--metric"@,
        ),
    }
}

/// What the first obscured parameter of some is called.
pub open spec fn first_obscured(given: Seq<Parameter>) -> Option<Seq<char>>
    decreases given.len(),
{
    if given.len() == 0 {
        None
    } else if identity::unsafe_text(given[0].text) {
        Some(given[0].called)
    } else {
        first_obscured(given.skip(1))
    }
}

proof fn the_first_of_two(first: Seq<Parameter>, second: Seq<Parameter>)
    ensures
        first_obscured(first + second) == match first_obscured(first) {
            Some(called) => Some(called),
            None => first_obscured(second),
        },
    decreases first.len(),
{
    let whole = first + second;
    if first.len() > 0 {
        assert(whole[0] == first[0]);
        the_first_of_two(first.skip(1), second);
        assert(whole.skip(1) =~= first.skip(1) + second);
    } else {
        assert(whole =~= second);
    }
}

proof fn the_only_one(only: Parameter)
    ensures
        first_obscured(seq![only]) == if identity::unsafe_text(only.text) {
            Some(only.called)
        } else {
            None
        },
{
    assert(seq![only].skip(1) =~= Seq::<Parameter>::empty());
    assert(first_obscured(seq![only].skip(1)) is None);
}

proof fn the_optional_one(given: Option<String>, called: Seq<char>)
    ensures
        first_obscured(optional(given, called)) == validate::option_label(given, called),
{
    if let Some(text) = given {
        the_only_one(Parameter { text: text@, called });
    }
}

proof fn some_of_several(given: Seq<String>, called: Seq<char>)
    ensures
        first_obscured(several(given, called)) == validate::list_label(given, called),
    decreases given.len(),
{
    let all = several(given, called);
    if given.len() > 0 {
        let rest = given.skip(1);
        some_of_several(rest, called);
        assert(all.skip(1) =~= several(rest, called));
        if identity::unsafe_text(given[0]@) {
            assert(crate::inspect::any_unsafe(given));
        } else if crate::inspect::any_unsafe(given) {
            let i = choose|i: int|
                0 <= i < given.len() && identity::unsafe_text((#[trigger] given[i])@);
            assert(rest[i - 1] == given[i]);
            assert(crate::inspect::any_unsafe(rest));
        } else if crate::inspect::any_unsafe(rest) {
            let i = choose|i: int|
                0 <= i < rest.len() && identity::unsafe_text((#[trigger] rest[i])@);
            assert(rest[i] == given[i + 1]);
        }
    }
}

/// A command is refused for the first of its parameters that is obscured, under
/// the name that its usage text gives it, and is safe where none is.
pub proof fn obscured_parameters_are_named(command: Command, code: Option<String>)
    ensures
        validate::unsafe_parameter(command, code) == first_obscured(parameters(command, code)),
{
    match command {
        Command::Daemon { .. } => {},
        Command::Provider { .. } => {},
        Command::Tui(_) => {},
        Command::Device { command } => {
            if let DeviceCommand::Revoke { device_id } = command {
                the_only_one(Parameter { text: device_id@, called: "DEVICE_ID"@ });
            }
        },
        Command::Account { command } => {
            match command {
                AccountCommand::Add { provider, label } => {
                    let first = Parameter { text: provider@, called: "PROVIDER_ID"@ };
                    the_only_one(first);
                    the_optional_one(label, "--label"@);
                    the_first_of_two(seq![first], optional(label, "--label"@));
                },
                AccountCommand::List => {},
                AccountCommand::Label { account, label } => {
                    let first = Parameter { text: account@, called: "ACCOUNT_ID"@ };
                    the_only_one(first);
                    the_optional_one(label, "ACCOUNT_LABEL"@);
                    the_first_of_two(seq![first], optional(label, "ACCOUNT_LABEL"@));
                },
                AccountCommand::Metrics { account, metrics } => {
                    let first = Parameter { text: account@, called: "ACCOUNT_ID"@ };
                    the_only_one(first);
                    some_of_several(metrics@, "METRIC"@);
                    the_first_of_two(seq![first], several(metrics@, "METRIC"@));
                },
                AccountCommand::Show { account } => {
                    the_only_one(Parameter { text: account@, called: "ACCOUNT_ID"@ });
                },
                AccountCommand::Enable { account } => {
                    the_only_one(Parameter { text: account@, called: "ACCOUNT_ID"@ });
                },
                AccountCommand::Disable { account } => {
                    the_only_one(Parameter { text: account@, called: "ACCOUNT_ID"@ });
                },
                AccountCommand::Remove { account } => {
                    the_only_one(Parameter { text: account@, called: "ACCOUNT_ID"@ });
                },
            }
        },
        Command::Auth { command } => {
            match command {
                AuthCommand::Login { provider, account, .. } => {
                    the_optional_one(provider, "PROVIDER_ID"@);
                    the_optional_one(account, "--account"@);
                    the_first_of_two(
                        optional(provider, "PROVIDER_ID"@),
                        optional(account, "--account"@),
                    );
                },
                AuthCommand::Status { provider, account } => {
                    let first = Parameter { text: provider@, called: "PROVIDER_ID"@ };
                    let second = Parameter { text: account@, called: "--account"@ };
                    the_only_one(first);
                    the_only_one(second);
                    the_first_of_two(seq![first], seq![second]);
                    assert(seq![first] + seq![second] =~= seq![first, second]);
                },
                AuthCommand::Complete {
                    provider,
                    account,
                    flow_id,
                    redirect_uri,
                    authorization_code_env,
                } => {
                    let first = Parameter { text: provider@, called: "PROVIDER_ID"@ };
                    let second = Parameter { text: account@, called: "--account"@ };
                    let third = Parameter { text: flow_id@, called: "FLOW_ID"@ };
                    let fourth = optional(redirect_uri, "--redirect-uri"@);
                    let fifth = Parameter {
                        text: authorization_code_env@,
                        called: "--authorization-code-env"@,
                    };
                    let sixth = optional(code, "authorization_code_env"@);
                    the_only_one(first);
                    the_only_one(second);
                    the_only_one(third);
                    the_optional_one(redirect_uri, "--redirect-uri"@);
                    the_only_one(fifth);
                    the_optional_one(code, "authorization_code_env"@);
                    the_first_of_two(seq![first], seq![second]);
                    assert(seq![first] + seq![second] =~= seq![first, second]);
                    the_first_of_two(seq![first, second], seq![third]);
                    assert(seq![first, second] + seq![third] =~= seq![first, second, third]);
                    the_first_of_two(seq![first, second, third], fourth);
                    the_first_of_two(seq![first, second, third] + fourth, seq![fifth]);
                    the_first_of_two(seq![first, second, third] + fourth + seq![fifth], sixth);
                },
                AuthCommand::Logout { provider, account, account_label } => {
                    let first = Parameter { text: provider@, called: "PROVIDER_ID"@ };
                    let second = Parameter { text: account@, called: "--account"@ };
                    let third = optional(account_label, "--account-label"@);
                    the_only_one(first);
                    the_only_one(second);
                    the_optional_one(account_label, "--account-label"@);
                    the_first_of_two(seq![first], seq![second]);
                    assert(seq![first] + seq![second] =~= seq![first, second]);
                    the_first_of_two(seq![first, second], third);
                },
            }
        },
        Command::Probe(args) => {
            the_only_one(Parameter { text: args.account@, called: "ACCOUNT_ID"@ });
        },
        Command::Show(args) => {
            the_optional_one(args.account, "ACCOUNT_ID"@);
            some_of_several(args.metric@, "--metric"@);
            the_first_of_two(
                optional(args.account, "ACCOUNT_ID"@),
                several(args.metric@, "--metric"@),
            );
        },
    }
}

/// A free text is taken as it is, and refused where it is obscured; an option that
/// takes a value goes by its own name.
pub proof fn arguments_are_taken_as_they_are(
    value: &str,
    taken: Result<String, String>,
    named: Option<&'static str>,
)
    requires
        cli::free_text_taken(value, taken),
        cli::value_flag_named(value, named),
    ensures
        taken is Ok <==> !identity::unsafe_text(value@),
        taken matches Ok(given) ==> given@ == value@,
        taken matches Err(message) ==> message@ == "contains disallowed control characters"@,
        named is Some <==> takes_a_value(value@),
        named matches Some(name) ==> name@ == value@,
{
    value_options_take_a_value(value@);
}

} // verus!
