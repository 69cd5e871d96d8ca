//! The command line: what a person can ask for, and what the arguments say
//! before they are parsed.

use vstd::prelude::*;

use crate::identity;
use crate::protocol::AuthMethod;
use crate::text;

verus! {

/// How results are printed.
#[derive(Clone, Copy, Debug, PartialEq, Eq, Structural)]
pub enum OutputFormat {
    Table,
    Json,
    PrettyJson,
}

impl Default for OutputFormat {
    fn default() -> (result: Self)
        ensures
            result == OutputFormat::Table,
    {
        OutputFormat::Table
    }
}

/// When output is colored.
#[derive(Clone, Copy, Debug, PartialEq, Eq, Structural)]
pub enum ColorMode {
    Auto,
    Always,
    Never,
}

impl Default for ColorMode {
    fn default() -> (result: Self)
        ensures
            result == ColorMode::Auto,
    {
        ColorMode::Auto
    }
}

/// One invocation.
#[derive(Debug)]
pub struct Cli {
    pub output: OutputFormat,
    pub color: ColorMode,
    pub reveal: bool,
    pub raw: bool,
    pub diagnose: bool,
    pub command: Command,
}

/// What the invocation asks for.
#[derive(Debug)]
#[allow(inconsistent_fields)]
pub enum Command {
    Daemon { command: DaemonCommand },
    Provider { command: ProviderCommand },
    Account { command: AccountCommand },
    Auth { command: AuthCommand },
    Probe(ProbeArgs),
    Show(ShowArgs),
    Device { command: DeviceCommand },
    Tui(TuiArgs),
}

/// What to do with paired devices.
#[derive(Debug)]
pub enum DeviceCommand {
    Pair,
    List,
    Revoke { device_id: String },
}

/// What to do with the daemon.
#[derive(Clone, Copy, Debug, PartialEq, Eq, Structural)]
pub enum DaemonCommand {
    Install,
    Start,
    Stop,
    Run,
    Status,
    Uninstall,
}

/// What to do with providers.
#[derive(Clone, Copy, Debug, PartialEq, Eq, Structural)]
pub enum ProviderCommand {
    List,
}

/// What to do with accounts.
#[derive(Debug)]
#[allow(inconsistent_fields)]
pub enum AccountCommand {
    Add { provider: String, label: Option<String> },
    List,
    Show { account: String },
    Enable { account: String },
    Disable { account: String },
    Label { account: String, label: Option<String> },
    Metrics { account: String, metrics: Vec<String> },
    Remove { account: String },
}

/// The sign-in methods that can be asked for by name.
#[derive(Clone, Copy, Debug, PartialEq, Eq, Structural)]
pub enum AuthMethodArg {
    BrowserOauth,
    DeviceCode,
    ApiToken,
    SessionImport,
}

/// The sign-in method a name stands for.
pub open spec fn method_of(value: AuthMethodArg) -> AuthMethod {
    match value {
        AuthMethodArg::BrowserOauth => AuthMethod::BrowserOAuth,
        AuthMethodArg::DeviceCode => AuthMethod::DeviceCode,
        AuthMethodArg::ApiToken => AuthMethod::ApiToken,
        AuthMethodArg::SessionImport => AuthMethod::SessionImport,
    }
}

impl From<AuthMethodArg> for AuthMethod {
    fn from(value: AuthMethodArg) -> (result: Self) {
        match value {
            AuthMethodArg::BrowserOauth => AuthMethod::BrowserOAuth,
            AuthMethodArg::DeviceCode => AuthMethod::DeviceCode,
            AuthMethodArg::ApiToken => AuthMethod::ApiToken,
            AuthMethodArg::SessionImport => AuthMethod::SessionImport,
        }
    }
}

impl vstd::std_specs::convert::FromSpecImpl<AuthMethodArg> for AuthMethod {
    open spec fn obeys_from_spec() -> bool {
        true
    }

    open spec fn from_spec(value: AuthMethodArg) -> AuthMethod {
        method_of(value)
    }
}

/// What to do with sign-ins.
#[derive(Debug)]
#[allow(inconsistent_fields)]
pub enum AuthCommand {
    Login { provider: Option<String>, account: Option<String>, method: Option<AuthMethodArg> },
    Complete {
        provider: String,
        account: String,
        flow_id: String,
        redirect_uri: Option<String>,
        authorization_code_env: String,
    },
    Status { provider: String, account: String },
    Logout { provider: String, account: String, account_label: Option<String> },
}

/// Query a provider now and persist a usage snapshot.
#[derive(Debug)]
pub struct ProbeArgs {
    pub account: String,
    pub wait: bool,
}

/// Print persisted usage snapshots without calling the provider.
#[derive(Debug)]
pub struct ShowArgs {
    pub account: Option<String>,
    pub all: bool,
    pub metric: Vec<String>,
    pub no_metric_filter: bool,
}

/// Open the full-screen view.
#[derive(Clone, Copy, Debug, PartialEq, Eq, Structural)]
pub struct TuiArgs {
    pub vertical: bool,
}

impl Default for TuiArgs {
    fn default() -> (result: Self)
        ensures
            !result.vertical,
    {
        TuiArgs { vertical: false }
    }
}

/// The argument, or why it is not taken.
pub open spec fn free_text_taken(
    value: &str,
    result: Result<String, String>,
) -> bool {
    match result {
        Ok(text) => !identity::unsafe_text(value@) && text@ == value@,
        Err(message) => identity::unsafe_text(value@) && message@
            == "contains disallowed control characters"@,
    }
}

/// Accepts a free-text argument that holds no control or bidirectional
/// characters.
pub fn free_text_argument(value: &str) -> (result: Result<String, String>)
    ensures
        free_text_taken(value, result),
{
    if identity::has_unsafe_character(value) {
        return Err("contains disallowed control characters".to_owned());
    }
    Ok(value.to_owned())
}

/// The output format a word names.
pub open spec fn named_format(word: Seq<char>) -> Option<OutputFormat> {
    if word == "json"@ {
        Some(OutputFormat::Json)
    } else if word == "pretty-json"@ {
        Some(OutputFormat::PrettyJson)
    } else if word == "table"@ {
        Some(OutputFormat::Table)
    } else {
        None
    }
}

fn format_named(word: &str) -> (result: Option<OutputFormat>)
    ensures
        result == named_format(word@),
{
    if text::same_text(word, "json") {
        Some(OutputFormat::Json)
    } else if text::same_text(word, "pretty-json") {
        Some(OutputFormat::PrettyJson)
    } else if text::same_text(word, "table") {
        Some(OutputFormat::Table)
    } else {
        None
    }
}

/// The format that the arguments from `place` on ask for: the first
/// `--output` option, up to the option terminator, that names one.
pub open spec fn requested_format(arguments: Seq<String>, place: int) -> OutputFormat
    decreases arguments.len() + 1 - place,
{
    if place < 0 || place >= arguments.len() || arguments[place]@ == "--"@ {
        OutputFormat::Table
    } else if arguments[place]@ == "--output"@ {
        if place + 1 < arguments.len() && named_format(arguments[place + 1]@) is Some {
            named_format(arguments[place + 1]@)->0
        } else {
            requested_format(arguments, place + 2)
        }
    } else if text::has_prefix(arguments[place]@, "--output="@) && named_format(
        text::without_prefix(arguments[place]@, "--output="@),
    ) is Some {
        named_format(text::without_prefix(arguments[place]@, "--output="@))->0
    } else {
        requested_format(arguments, place + 1)
    }
}

/// The format that arguments which may not parse ask for; the first one is the
/// program's name.
pub fn infer_output_format(arguments: &Vec<String>) -> (result: OutputFormat)
    ensures
        result == requested_format(arguments@, 1),
{
    let mut index: usize = 1;
    while index < arguments.len()
        invariant
            1 <= index,
            index > arguments@.len() ==> arguments@.len() <= 1 || index == arguments@.len() + 1,
            requested_format(arguments@, index as int) == requested_format(arguments@, 1),
        decreases arguments@.len() + 1 - index,
    {
        let argument = arguments[index].as_str();
        if text::same_text(argument, "--") {
            return OutputFormat::Table;
        }
        if text::same_text(argument, "--output") {
            if index + 1 < arguments.len() {
                if let Some(format) = format_named(arguments[index + 1].as_str()) {
                    return format;
                }
                index = index + 2;
            } else {
                assert(requested_format(arguments@, index + 2) == OutputFormat::Table);
                return OutputFormat::Table;
            }
        } else {
            if text::starts_with(argument, "--output=") {
                if let Some(format) = format_named(text::trim_prefix(argument, "--output=")) {
                    return format;
                }
            }
            index = index + 1;
        }
    }
    OutputFormat::Table
}

/// The option that takes a value and goes by that name.
pub open spec fn value_option(flag: Seq<char>) -> bool {
    ||| flag == "--label"@
    ||| flag == "--account"@
    ||| flag == "--account-label"@
    ||| flag == "--redirect-uri"@
    ||| flag == "--authorization-code-env"@
    ||| flag == "--metric"@
    ||| flag == "--method"@
    ||| flag == "--output"@
    ||| flag == "--color"@
}

/// The name of an option that takes a value.
pub open spec fn value_flag_named(
    flag: &str,
    result: Option<&'static str>,
) -> bool {
    match result {
        Some(label) => value_option(flag@) && label@ == flag@,
        None => !value_option(flag@),
    }
}

/// The option's name, for a flag that is an option which takes a value.
pub fn known_value_flag_label(flag: &str) -> (result: Option<&'static str>)
    ensures
        value_flag_named(flag, result),
{
    if text::same_text(flag, "--label") {
        Some("--label")
    } else if text::same_text(flag, "--account") {
        Some("--account")
    } else if text::same_text(flag, "--account-label") {
        Some("--account-label")
    } else if text::same_text(flag, "--redirect-uri") {
        Some("--redirect-uri")
    } else if text::same_text(flag, "--authorization-code-env") {
        Some("--authorization-code-env")
    } else if text::same_text(flag, "--metric") {
        Some("--metric")
    } else if text::same_text(flag, "--method") {
        Some("--method")
    } else if text::same_text(flag, "--output") {
        Some("--output")
    } else if text::same_text(flag, "--color") {
        Some("--color")
    } else {
        None
    }
}

/// The text up to its first `=`, or all of it.
pub open spec fn before_equals(argument: Seq<char>) -> Seq<char>
    decreases argument.len(),
{
    if argument.len() == 0 || argument[0] == '=' {
        Seq::empty()
    } else {
        seq![argument[0]] + before_equals(argument.skip(1))
    }
}

fn flag_name(argument: &str) -> (result: String)
    ensures
        result@ == before_equals(argument@),
{
    let all: Vec<char> = text::characters(argument);
    let mut index: usize = 0;
    assert(all@.take(0) + before_equals(all@.skip(0)) == before_equals(all@)) by {
        assert(all@.skip(0) == all@);
    }
    while index < all.len() && all[index] != '='
        invariant
            index <= all@.len(),
            all@ == argument@,
            all@.take(index as int) + before_equals(all@.skip(index as int)) == before_equals(all@),
        decreases all.len() - index,
    {
        assert(all@.skip(index as int).skip(1) == all@.skip(index + 1));
        assert(all@.take(index + 1) == all@.take(index as int) + seq![all@[index as int]]);
        assert(all@.take(index as int) + (seq![all@[index as int]] + before_equals(
            all@.skip(index + 1),
        )) == all@.take(index + 1) + before_equals(all@.skip(index + 1)));
        index = index + 1;
    }
    assert(before_equals(all@.skip(index as int)) == Seq::<char>::empty());
    assert(all@.subrange(0, index as int) == all@.take(index as int));
    text::text_between(&all, 0, index)
}

/// What to call the argument at `place`, which holds an unsafe character: the
/// option it belongs to where that is known, or just an argument.
pub open spec fn blamed_parameter(arguments: Seq<String>, place: int, terminated: bool) -> Seq<
    char,
> {
    let argument = arguments[place]@;
    let owner = if text::has_prefix(argument, "--"@) {
        before_equals(argument)
    } else {
        arguments[place - 1]@
    };
    if !terminated && value_option(owner) {
        owner
    } else {
        "argument"@
    }
}

/// What to blame for the first unsafe character from `place` on.
pub open spec fn blame_from(arguments: Seq<String>, place: int, terminated: bool) -> Option<
    Seq<char>,
>
    decreases arguments.len() - place,
{
    if place < 1 || place >= arguments.len() {
        None
    } else if arguments[place]@ == "--"@ {
        blame_from(arguments, place + 1, true)
    } else if identity::unsafe_text(arguments[place]@) {
        Some(blamed_parameter(arguments, place, terminated))
    } else {
        blame_from(arguments, place + 1, terminated)
    }
}

/// Names the option, or just an argument, that holds the first unsafe
/// character of a command line which did not parse.
pub fn unsafe_control_in_raw_arguments(arguments: &Vec<String>) -> (result: Option<&'static str>)
    ensures
        match result {
            Some(parameter) => blame_from(arguments@, 1, false) == Some(parameter@),
            None => blame_from(arguments@, 1, false) is None,
        },
{
    let mut terminated = false;
    let mut index: usize = 1;
    while index < arguments.len()
        invariant
            1 <= index,
            blame_from(arguments@, index as int, terminated) == blame_from(arguments@, 1, false),
        decreases arguments@.len() - index,
    {
        let argument = arguments[index].as_str();
        if text::same_text(argument, "--") {
            terminated = true;
        } else if identity::has_unsafe_character(argument) {
            if terminated {
                return Some("argument");
            }
            let label = if text::starts_with(argument, "--") {
                known_value_flag_label(flag_name(argument).as_str())
            } else {
                known_value_flag_label(arguments[index - 1].as_str())
            };
            return match label {
                Some(label) => Some(label),
                None => Some("argument"),
            };
        }
        index = index + 1;
    }
    None
}

} // verus!
