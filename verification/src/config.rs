//! The configuration document: its tables checked key by key and turned into
//! monitor descriptions.
use crate::datum::{distinct, first_unknown, lookup, text_of, value_to_string, Datum, Table};
use crate::order::reversed;
use crate::pattern::{compile_multiline, multiline, pattern_source};
use crate::report::{map_to_readable_syntax_err, syntax_report};
use std::time::Duration;
use vstd::prelude::*;

verus! {

/// What a monitor runs for each match.
#[derive(Clone, Debug, PartialEq, Eq)]
pub enum Exec {
    /// A command line for the system shell.
    Shell(String),
    /// A program and its arguments, started directly.
    Spawn(Vec<String>),
}

pub enum ExecView {
    Shell(Seq<char>),
    Spawn(Seq<Seq<char>>),
}

impl View for Exec {
    type V = ExecView;

    open spec fn view(&self) -> ExecView {
        match self {
            Exec::Shell(line) => ExecView::Shell(line@),
            Exec::Spawn(args) => ExecView::Spawn(args.deep_view()),
        }
    }
}

/// One monitor, as configured. Made once from a checked table, then only read.
#[derive(Debug)]
pub struct MonitorConfig {
    pub name: String,
    /// Whether the monitor may write shared variables: it declares `set`,
    /// `push`, or an `exec` in array form.
    pub mutates_globals: bool,
    pub every: Option<Duration>,
    pub log: Option<String>,
    pub cooldown: Option<Duration>,
    pub match_log: Option<regex::Regex>,
    /// What to run for each match (the `exec` key).
    pub command: Option<Exec>,
    pub set: Table,
    pub push: Table,
}

#[derive(Debug)]
pub struct Config {
    pub monitors: Vec<MonitorConfig>,
    pub variables: Table,
}

/// Why a monitor's table was turned down.
#[derive(Clone, Debug, PartialEq, Eq)]
pub enum MonitorError {
    EveryNotString,
    EveryInvalid(String),
    LogNotString,
    CooldownNotString,
    CooldownInvalid(String),
    MatchLogNotString,
    MatchLogInvalid(String),
    SetNotTable,
    PushNotTable,
    ExecEmpty,
    /// An item of the `exec` array has no text: TOML cannot write it.
    ExecNotText,
    ExecNotCommand,
    InvalidKey(String),
}

pub enum MonitorErrorView {
    EveryNotString,
    EveryInvalid(Seq<char>),
    LogNotString,
    CooldownNotString,
    CooldownInvalid(Seq<char>),
    MatchLogNotString,
    MatchLogInvalid(Seq<char>),
    SetNotTable,
    PushNotTable,
    ExecEmpty,
    ExecNotText,
    ExecNotCommand,
    InvalidKey(Seq<char>),
}

impl View for MonitorError {
    type V = MonitorErrorView;

    open spec fn view(&self) -> MonitorErrorView {
        match self {
            MonitorError::EveryNotString => MonitorErrorView::EveryNotString,
            MonitorError::EveryInvalid(why) => MonitorErrorView::EveryInvalid(why@),
            MonitorError::LogNotString => MonitorErrorView::LogNotString,
            MonitorError::CooldownNotString => MonitorErrorView::CooldownNotString,
            MonitorError::CooldownInvalid(why) => MonitorErrorView::CooldownInvalid(why@),
            MonitorError::MatchLogNotString => MonitorErrorView::MatchLogNotString,
            MonitorError::MatchLogInvalid(why) => MonitorErrorView::MatchLogInvalid(why@),
            MonitorError::SetNotTable => MonitorErrorView::SetNotTable,
            MonitorError::PushNotTable => MonitorErrorView::PushNotTable,
            MonitorError::ExecEmpty => MonitorErrorView::ExecEmpty,
            MonitorError::ExecNotText => MonitorErrorView::ExecNotText,
            MonitorError::ExecNotCommand => MonitorErrorView::ExecNotCommand,
            MonitorError::InvalidKey(key) => MonitorErrorView::InvalidKey(key@),
        }
    }
}

impl MonitorErrorView {
    /// The error in words.
    pub open spec fn message(self) -> Seq<char> {
        match self {
            MonitorErrorView::EveryNotString => "Key `every` must be a string."@,
            MonitorErrorView::EveryInvalid(why) => "Key `every`:\n"@ + why,
            MonitorErrorView::LogNotString => "Key `log` must be a string."@,
            MonitorErrorView::CooldownNotString => "Key `cooldown` must be a string."@,
            MonitorErrorView::CooldownInvalid(why) => "Invalid cooldown:\n"@ + why,
            MonitorErrorView::MatchLogNotString => "Key `match_log` must be a string."@,
            MonitorErrorView::MatchLogInvalid(why) => "Failed to parse match_log: "@ + why,
            MonitorErrorView::SetNotTable => "Key `set` must be a table."@,
            MonitorErrorView::PushNotTable => "Key `push` must be a table."@,
            MonitorErrorView::ExecEmpty => "Key `exec` must not be empty."@,
            MonitorErrorView::ExecNotText => "Key `exec` holds a value that cannot be written."@,
            MonitorErrorView::ExecNotCommand => "Key `exec` must be a string or an array of strings."@,
            MonitorErrorView::InvalidKey(key) => "Invalid key `"@ + key + "`"@,
        }
    }
}

impl MonitorError {
    /// The error in words.
    pub fn message(&self) -> (text: String)
        ensures
            text@ == self@.message(),
    {
        match self {
            MonitorError::EveryNotString => "Key `every` must be a string.".to_owned(),
            MonitorError::EveryInvalid(why) => "Key `every`:\n".to_owned().concat(why.as_str()),
            MonitorError::LogNotString => "Key `log` must be a string.".to_owned(),
            MonitorError::CooldownNotString => "Key `cooldown` must be a string.".to_owned(),
            MonitorError::CooldownInvalid(why) => "Invalid cooldown:\n".to_owned().concat(
                why.as_str(),
            ),
            MonitorError::MatchLogNotString => "Key `match_log` must be a string.".to_owned(),
            MonitorError::MatchLogInvalid(why) => "Failed to parse match_log: ".to_owned().concat(
                why.as_str(),
            ),
            MonitorError::SetNotTable => "Key `set` must be a table.".to_owned(),
            MonitorError::PushNotTable => "Key `push` must be a table.".to_owned(),
            MonitorError::ExecEmpty => "Key `exec` must not be empty.".to_owned(),
            MonitorError::ExecNotText => "Key `exec` holds a value that cannot be written.".to_owned(),
            MonitorError::ExecNotCommand => "Key `exec` must be a string or an array of strings.".to_owned(),
            MonitorError::InvalidKey(key) => "Invalid key `".to_owned().concat(
                key.as_str(),
            ).concat("`"),
        }
    }
}

/// Why a configuration document was turned down.
#[derive(Clone, Debug, PartialEq, Eq)]
pub enum ConfigError {
    /// The document is not well-formed TOML: the report, with the place.
    Syntax(String),
    VarNotTable,
    NoMonitors,
    MonitorsNotTable,
    /// The entry of this name under `monitor` is not a table.
    MonitorNotTable(String),
    /// The monitor of this name was turned down.
    Monitor(String, MonitorError),
    InvalidKey(String),
}

pub enum ConfigErrorView {
    Syntax(Seq<char>),
    VarNotTable,
    NoMonitors,
    MonitorsNotTable,
    MonitorNotTable(Seq<char>),
    Monitor(Seq<char>, MonitorErrorView),
    InvalidKey(Seq<char>),
}

impl View for ConfigError {
    type V = ConfigErrorView;

    open spec fn view(&self) -> ConfigErrorView {
        match self {
            ConfigError::Syntax(report) => ConfigErrorView::Syntax(report@),
            ConfigError::VarNotTable => ConfigErrorView::VarNotTable,
            ConfigError::NoMonitors => ConfigErrorView::NoMonitors,
            ConfigError::MonitorsNotTable => ConfigErrorView::MonitorsNotTable,
            ConfigError::MonitorNotTable(name) => ConfigErrorView::MonitorNotTable(name@),
            ConfigError::Monitor(name, error) => ConfigErrorView::Monitor(name@, error@),
            ConfigError::InvalidKey(key) => ConfigErrorView::InvalidKey(key@),
        }
    }
}

impl ConfigErrorView {
    /// The error in words.
    pub open spec fn message(self) -> Seq<char> {
        match self {
            ConfigErrorView::Syntax(report) => report,
            ConfigErrorView::VarNotTable => "Key `var` must be a table."@,
            ConfigErrorView::NoMonitors => "No monitors found!"@,
            ConfigErrorView::MonitorsNotTable => "Key `monitor` must be a table."@,
            ConfigErrorView::MonitorNotTable(name) => "Key `monitor."@ + name
                + "` must be a table."@,
            ConfigErrorView::Monitor(name, error) => "Monitor `"@ + name + "`: "@
                + error.message(),
            ConfigErrorView::InvalidKey(key) => "Invalid key `"@ + key + "`"@,
        }
    }
}

impl ConfigError {
    /// The error in words.
    pub fn message(&self) -> (text: String)
        ensures
            text@ == self@.message(),
    {
        match self {
            ConfigError::Syntax(report) => report.clone(),
            ConfigError::VarNotTable => "Key `var` must be a table.".to_owned(),
            ConfigError::NoMonitors => "No monitors found!".to_owned(),
            ConfigError::MonitorsNotTable => "Key `monitor` must be a table.".to_owned(),
            ConfigError::MonitorNotTable(name) => "Key `monitor.".to_owned().concat(
                name.as_str(),
            ).concat("` must be a table."),
            ConfigError::Monitor(name, error) => {
                let detail = error.message();
                "Monitor `".to_owned().concat(name.as_str()).concat("`: ").concat(detail.as_str())
            },
            ConfigError::InvalidKey(key) => "Invalid key `".to_owned().concat(
                key.as_str(),
            ).concat("`"),
        }
    }
}

/// What `duration_str::parse` makes of a text: the duration it stands for, or
/// the text of the error.
pub uninterp spec fn duration_parsed(text: Seq<char>) -> Result<Duration, Seq<char>>;

/// Calls `duration_str::parse`, which reads a number with a unit and further
/// terms joined by `+` or `*`, and depends on the text alone. An error comes
/// back as its text. The contract only names the result.
#[verifier::external_body]
fn parse_duration(text: &str) -> (parsed: Result<Duration, String>)
    ensures
        parsed matches Ok(span) ==> duration_parsed(text@) is Ok && duration_parsed(text@)->Ok_0
            == span,
        parsed matches Err(why) ==> duration_parsed(text@) is Err && duration_parsed(text@)->Err_0
            == why@,
{
    duration_str::parse(text).map_err(|e| e.to_string())
}

/// The keys that a monitor's table may hold.
pub open spec fn monitor_keys() -> Seq<Seq<char>> {
    seq!["every"@, "log"@, "cooldown"@, "match_log"@, "set"@, "push"@, "exec"@]
}

proof fn lemma_monitor_keys_distinct()
    ensures
        distinct(monitor_keys()),
{
    reveal_strlit("every");
    reveal_strlit("log");
    reveal_strlit("cooldown");
    reveal_strlit("match_log");
    reveal_strlit("set");
    reveal_strlit("push");
    reveal_strlit("exec");
    let keys = monitor_keys();
    assert(keys[1][0] != keys[4][0]);
    assert(keys[5][0] != keys[6][0]);
    assert(keys[0].len() == 5 && keys[1].len() == 3 && keys[2].len() == 8 && keys[3].len() == 9
        && keys[4].len() == 3 && keys[5].len() == 4 && keys[6].len() == 4);
}

fn monitor_key_list() -> (keys: Vec<String>)
    ensures
        keys.deep_view() == monitor_keys(),
{
    let mut keys: Vec<String> = Vec::new();
    keys.push("every".to_owned());
    keys.push("log".to_owned());
    keys.push("cooldown".to_owned());
    keys.push("match_log".to_owned());
    keys.push("set".to_owned());
    keys.push("push".to_owned());
    keys.push("exec".to_owned());
    assert(keys.deep_view() =~= monitor_keys());
    keys
}

/// The text of a value that is a string.
pub open spec fn string_of(found: Option<Datum>) -> Option<Seq<char>> {
    match found {
        Some(Datum::String(text)) => Some(text@),
        _ => None,
    }
}

/// There is a value and it is no string.
pub open spec fn not_string(found: Option<Datum>) -> bool {
    found is Some && string_of(found) is None
}

/// There is a value and it is no table.
pub open spec fn not_table(found: Option<Datum>) -> bool {
    found matches Some(value) && !(value is Table)
}

/// The duration that a string value stands for.
pub open spec fn duration_of(found: Option<Datum>) -> Option<Duration> {
    match string_of(found) {
        Some(text) => match duration_parsed(text) {
            Ok(span) => Some(span),
            Err(_) => None,
        },
        None => None,
    }
}

/// Why a string value stands for no duration.
pub open spec fn duration_fault(found: Option<Datum>) -> Option<Seq<char>> {
    match string_of(found) {
        Some(text) => match duration_parsed(text) {
            Ok(_) => None,
            Err(why) => Some(why),
        },
        None => None,
    }
}

/// Every item has a text.
pub open spec fn all_written(items: Seq<Datum>) -> bool {
    forall|i: int| 0 <= i < items.len() ==> (#[trigger] text_of(items[i])) is Some
}

/// The texts of the items, in their order.
pub open spec fn texts_of(items: Seq<Datum>) -> Seq<Seq<char>> {
    Seq::new(items.len(), |i: int| text_of(items[i])->0)
}

/// The first thing wrong with a monitor's table, going through the keys in
/// the order `every`, `log`, `cooldown`, `match_log`, `set`, `push`, `exec`,
/// then any key that is none of these. `rejected` is the compiler's complaint
/// about the pattern, if it made one.
pub open spec fn monitor_error(table: Seq<(String, Datum)>, rejected: Option<Seq<char>>) -> Option<
    MonitorErrorView,
> {
    let every = lookup(table, "every"@);
    let log = lookup(table, "log"@);
    let cooldown = lookup(table, "cooldown"@);
    let match_log = lookup(table, "match_log"@);
    let set = lookup(table, "set"@);
    let push = lookup(table, "push"@);
    let command = lookup(table, "exec"@);
    if not_string(every) {
        Some(MonitorErrorView::EveryNotString)
    } else if duration_fault(every) is Some {
        Some(MonitorErrorView::EveryInvalid(duration_fault(every)->0))
    } else if not_string(log) {
        Some(MonitorErrorView::LogNotString)
    } else if not_string(cooldown) {
        Some(MonitorErrorView::CooldownNotString)
    } else if duration_fault(cooldown) is Some {
        Some(MonitorErrorView::CooldownInvalid(duration_fault(cooldown)->0))
    } else if not_string(match_log) {
        Some(MonitorErrorView::MatchLogNotString)
    } else if match_log is Some && rejected is Some {
        Some(MonitorErrorView::MatchLogInvalid(rejected->0))
    } else if not_table(set) {
        Some(MonitorErrorView::SetNotTable)
    } else if not_table(push) {
        Some(MonitorErrorView::PushNotTable)
    } else if command matches Some(Datum::Array(items)) && items.len() == 0 {
        Some(MonitorErrorView::ExecEmpty)
    } else if command matches Some(Datum::Array(items)) && !all_written(items@) {
        Some(MonitorErrorView::ExecNotText)
    } else if command matches Some(value) && !(value is String || value is Array) {
        Some(MonitorErrorView::ExecNotCommand)
    } else if first_unknown(table, monitor_keys()) is Some {
        Some(MonitorErrorView::InvalidKey(first_unknown(table, monitor_keys())->0))
    } else {
        None
    }
}

/// What the `exec` key asks to run: a string is a shell command line, an
/// array the program and its arguments, each item turned into its text.
pub open spec fn command_of(table: Seq<(String, Datum)>) -> Option<ExecView> {
    match lookup(table, "exec"@) {
        Some(Datum::String(line)) => Some(ExecView::Shell(line@)),
        Some(Datum::Array(items)) => Some(ExecView::Spawn(texts_of(items@))),
        _ => None,
    }
}

/// The table under a key, or an empty one where the key is absent.
pub open spec fn holds_table(found: Option<Datum>, held: Table) -> bool {
    match found {
        Some(Datum::Table(table)) => held == table,
        _ => held.entries@.len() == 0,
    }
}

pub open spec fn option_text(text: Option<String>) -> Option<Seq<char>> {
    match text {
        Some(text) => Some(text@),
        None => None,
    }
}

pub open spec fn option_command(command: Option<Exec>) -> Option<ExecView> {
    match command {
        Some(command) => Some(command@),
        None => None,
    }
}

/// The regex that the compiler handed over, if it handed one.
pub open spec fn accepted_by(compiled: Option<Result<regex::Regex, String>>) -> Option<
    regex::Regex,
> {
    match compiled {
        Some(Ok(re)) => Some(re),
        _ => None,
    }
}

/// The compiler's complaint, if it made one.
pub open spec fn rejected_by(compiled: Option<Result<regex::Regex, String>>) -> Option<Seq<char>> {
    match compiled {
        Some(Err(why)) => Some(why@),
        _ => None,
    }
}

/// A monitor description says what its table says.
pub open spec fn monitor_accepts(
    config: MonitorConfig,
    name: String,
    table: Seq<(String, Datum)>,
    pattern: Option<regex::Regex>,
) -> bool {
    &&& config.name == name
    &&& config.every == duration_of(lookup(table, "every"@))
    &&& option_text(config.log) == string_of(lookup(table, "log"@))
    &&& config.cooldown == duration_of(lookup(table, "cooldown"@))
    &&& config.match_log == if lookup(table, "match_log"@) is Some {
        pattern
    } else {
        None
    }
    &&& holds_table(lookup(table, "set"@), config.set)
    &&& holds_table(lookup(table, "push"@), config.push)
    &&& option_command(config.command) == command_of(table)
    &&& config.mutates_globals == (lookup(table, "set"@) is Some || lookup(table, "push"@) is Some
        || lookup(table, "exec"@) matches Some(Datum::Array(_)))
}

/// What comes of a monitor's table, given what the pattern compiler said.
pub open spec fn monitor_result(
    result: Result<MonitorConfig, MonitorError>,
    name: String,
    table: Seq<(String, Datum)>,
    compiled: Option<Result<regex::Regex, String>>,
) -> bool {
    match result {
        Ok(config) => monitor_error(table, rejected_by(compiled)) is None && monitor_accepts(
            config,
            name,
            table,
            accepted_by(compiled),
        ),
        Err(error) => monitor_error(table, rejected_by(compiled)) == Some(error@),
    }
}

/// Turns the items of an `exec` array into the texts of an argument list;
/// there is none where an item cannot be written.
fn argument_list(items: Vec<Datum>) -> (args: Option<Vec<String>>)
    ensures
        args is Some <==> all_written(items@),
        args matches Some(list) ==> list.deep_view() == texts_of(items@),
{
    let ghost all = items@;
    let mut rest = reversed(items);
    let mut args: Vec<String> = Vec::new();
    while rest.len() > 0
        invariant
            all == items@,
            rest@ == all.reverse().take(rest.len() as int),
            rest.len() <= all.len(),
            args.len() == all.len() - rest.len(),
            forall|k: int|
                0 <= k < args.len() ==> text_of(all[k]) == Some((#[trigger] args[k])@),
        decreases rest.len(),
    {
        let ghost at = args.len() as int;
        let item = rest.pop().unwrap();
        assert(item == all[at]);
        match value_to_string(item) {
            Some(text) => {
                args.push(text);
            },
            None => {
                assert(text_of(all[at]) is None);
                assert(!all_written(all));
                return None;
            },
        }
    }
    assert forall|i: int| 0 <= i < all.len() implies (#[trigger] text_of(all[i])) is Some by {
        assert(text_of(all[i]) == Some(args[i]@));
    }
    assert(args.deep_view() =~= texts_of(all));
    Some(args)
}

/// Checks a monitor's table key by key and makes the monitor of it. The
/// pattern under `match_log` has gone to the compiler beforehand: `compiled`
/// is what came back.
pub fn assemble_monitor(
    name: String,
    monitor_table: Table,
    compiled: Option<Result<regex::Regex, String>>,
) -> (result: Result<MonitorConfig, MonitorError>)
    requires
        string_of(lookup(monitor_table.entries@, "match_log"@)) is Some ==> compiled is Some,
    ensures
        monitor_result(result, name, monitor_table.entries@, compiled),
{
    let ghost table = monitor_table.entries@;
    let keys = monitor_key_list();
    proof {
        lemma_monitor_keys_distinct();
    }
    let (mut found, unknown) = monitor_table.extract(&keys);
    assert(keys.deep_view()[0] == keys[0]@ && keys.deep_view()[1] == keys[1]@
        && keys.deep_view()[2] == keys[2]@ && keys.deep_view()[3] == keys[3]@
        && keys.deep_view()[4] == keys[4]@ && keys.deep_view()[5] == keys[5]@
        && keys.deep_view()[6] == keys[6]@);
    assert(found[0] == lookup(table, "every"@) && found[1] == lookup(table, "log"@) && found[2]
        == lookup(table, "cooldown"@) && found[3] == lookup(table, "match_log"@) && found[4]
        == lookup(table, "set"@) && found[5] == lookup(table, "push"@) && found[6] == lookup(
        table,
        "exec"@,
    ));
    let command_found = found.pop().unwrap();
    let push_found = found.pop().unwrap();
    let set_found = found.pop().unwrap();
    let match_log_found = found.pop().unwrap();
    let cooldown_found = found.pop().unwrap();
    let log_found = found.pop().unwrap();
    let every_found = found.pop().unwrap();

    let every = match every_found {
        None => None,
        Some(Datum::String(text)) => match parse_duration(text.as_str()) {
            Ok(span) => Some(span),
            Err(why) => {
                return Err(MonitorError::EveryInvalid(why));
            },
        },
        Some(_) => {
            return Err(MonitorError::EveryNotString);
        },
    };
    let log = match log_found {
        None => None,
        Some(Datum::String(path)) => Some(path),
        Some(_) => {
            return Err(MonitorError::LogNotString);
        },
    };
    let cooldown = match cooldown_found {
        None => None,
        Some(Datum::String(text)) => match parse_duration(text.as_str()) {
            Ok(span) => Some(span),
            Err(why) => {
                return Err(MonitorError::CooldownInvalid(why));
            },
        },
        Some(_) => {
            return Err(MonitorError::CooldownNotString);
        },
    };
    let match_log = match match_log_found {
        None => None,
        Some(Datum::String(_)) => match compiled {
            Some(Ok(re)) => Some(re),
            Some(Err(why)) => {
                return Err(MonitorError::MatchLogInvalid(why));
            },
            None => None,
        },
        Some(_) => {
            return Err(MonitorError::MatchLogNotString);
        },
    };
    let mut mutates_globals = false;
    let set = match set_found {
        None => Table::new(),
        Some(Datum::Table(table)) => {
            mutates_globals = true;
            table
        },
        Some(_) => {
            return Err(MonitorError::SetNotTable);
        },
    };
    let push = match push_found {
        None => Table::new(),
        Some(Datum::Table(table)) => {
            mutates_globals = true;
            table
        },
        Some(_) => {
            return Err(MonitorError::PushNotTable);
        },
    };
    let command = match command_found {
        None => None,
        Some(Datum::String(line)) => Some(Exec::Shell(line)),
        Some(Datum::Array(items)) => {
            if items.len() == 0 {
                return Err(MonitorError::ExecEmpty);
            }
            match argument_list(items) {
                Some(args) => {
                    mutates_globals = true;
                    Some(Exec::Spawn(args))
                },
                None => {
                    return Err(MonitorError::ExecNotText);
                },
            }
        },
        Some(_) => {
            return Err(MonitorError::ExecNotCommand);
        },
    };
    match unknown {
        Some(key) => {
            return Err(MonitorError::InvalidKey(key));
        },
        None => {},
    }
    Ok(MonitorConfig { name, mutates_globals, every, log, cooldown, match_log, command, set, push })
}

/// How the compiler was asked: with the pattern under `match_log` in
/// multi-line mode where that is a string, and not at all otherwise.
pub open spec fn pattern_attempt(
    table: Seq<(String, Datum)>,
    compiled: Option<Result<regex::Regex, String>>,
) -> bool {
    match string_of(lookup(table, "match_log"@)) {
        Some(pattern) => compiled is Some && (compiled matches Some(Ok(re)) ==> pattern_source(re)
            == multiline(pattern)),
        None => compiled is None,
    }
}

/// Checks a monitor's table and makes the monitor of it. Whether the pattern
/// under `match_log` compiles is the regex compiler's word: the result is
/// what `monitor_result` gives for whatever it said.
pub fn parse_monitor_config(name: String, monitor_table: Table) -> (result: Result<
    MonitorConfig,
    MonitorError,
>)
    ensures
        exists|compiled: Option<Result<regex::Regex, String>>|
            pattern_attempt(monitor_table.entries@, compiled) && #[trigger] monitor_result(
                result,
                name,
                monitor_table.entries@,
                compiled,
            ),
        lookup(monitor_table.entries@, "match_log"@) is None ==> monitor_result(
            result,
            name,
            monitor_table.entries@,
            None,
        ),
{
    let compiled = match monitor_table.get("match_log") {
        Some(Datum::String(pattern)) => Some(compile_multiline(pattern.as_str())),
        _ => None,
    };
    let ghost attempt = compiled;
    let result = assemble_monitor(name, monitor_table, compiled);
    assert(pattern_attempt(monitor_table.entries@, attempt));
    result
}

/// The keys that the document may hold at its top.
pub open spec fn root_keys() -> Seq<Seq<char>> {
    seq!["var"@, "monitor"@]
}

fn root_key_list() -> (keys: Vec<String>)
    ensures
        keys.deep_view() == root_keys(),
        distinct(root_keys()),
{
    let mut keys: Vec<String> = Vec::new();
    keys.push("var".to_owned());
    keys.push("monitor".to_owned());
    proof {
        reveal_strlit("var");
        reveal_strlit("monitor");
        assert(root_keys()[0].len() == 3 && root_keys()[1].len() == 7);
        assert(keys.deep_view() =~= root_keys());
    }
    keys
}

/// What the regex compiler was asked, and said, for each monitor in turn.
pub type Attempts = Seq<Option<Result<regex::Regex, String>>>;

/// The compiler was asked about this entry's pattern as `pattern_attempt` says.
pub open spec fn attempted(
    entry: (String, Datum),
    attempt: Option<Result<regex::Regex, String>>,
) -> bool {
    match entry.1 {
        Datum::Table(table) => pattern_attempt(table.entries@, attempt),
        _ => attempt is None,
    }
}

/// What is wrong with one entry under `monitor`, taken alone.
pub open spec fn monitor_fault(
    entry: (String, Datum),
    attempt: Option<Result<regex::Regex, String>>,
) -> Option<ConfigErrorView> {
    match entry.1 {
        Datum::Table(table) => match monitor_error(table.entries@, rejected_by(attempt)) {
            Some(error) => Some(ConfigErrorView::Monitor(entry.0@, error)),
            None => None,
        },
        _ => Some(ConfigErrorView::MonitorNotTable(entry.0@)),
    }
}

/// The first `upto` entries under `monitor` were gone through and are in order.
pub open spec fn monitors_pass(entries: Seq<(String, Datum)>, attempts: Attempts, upto: int) -> bool {
    forall|j: int|
        0 <= j < upto ==> attempted(#[trigger] entries[j], attempts[j]) && monitor_fault(
            entries[j],
            attempts[j],
        ) is None
}

/// A monitor says what its entry says.
pub open spec fn monitor_made(
    config: MonitorConfig,
    entry: (String, Datum),
    attempt: Option<Result<regex::Regex, String>>,
) -> bool {
    entry.1 matches Datum::Table(table) && monitor_accepts(
        config,
        entry.0,
        table.entries@,
        accepted_by(attempt),
    )
}

/// What comes of the entries under `monitor`: the first entry at fault, in
/// table order, gives the error; with none at fault there is one monitor for
/// each entry, in the same order.
pub open spec fn monitors_result(
    result: Result<Vec<MonitorConfig>, ConfigError>,
    entries: Seq<(String, Datum)>,
    attempts: Attempts,
) -> bool {
    match result {
        Err(error) => exists|i: int|
            0 <= i < entries.len() && monitors_pass(entries, attempts, i) && attempted(
                #[trigger] entries[i],
                attempts[i],
            ) && monitor_fault(entries[i], attempts[i]) == Some(error@),
        Ok(monitors) => monitors_pass(entries, attempts, entries.len() as int) && monitors.len()
            == entries.len() && forall|i: int|
            0 <= i < entries.len() ==> monitor_made(#[trigger] monitors[i], entries[i], attempts[i]),
    }
}

/// Makes the monitors of the entries under `monitor`, in table order, and
/// stops at the first entry that is no table or is turned down.
pub fn parse_monitors(monitors_table: Table) -> (result: Result<Vec<MonitorConfig>, ConfigError>)
    ensures
        exists|attempts: Attempts| #[trigger]
            monitors_result(result, monitors_table.entries@, attempts),
{
    let ghost entries = monitors_table.entries@;
    let mut rest = reversed(monitors_table.entries);
    let mut monitors: Vec<MonitorConfig> = Vec::new();
    let ghost mut attempts: Attempts = Seq::empty();
    while rest.len() > 0
        invariant
            entries == monitors_table.entries@,
            rest@ == entries.reverse().take(rest.len() as int),
            rest.len() <= entries.len(),
            monitors.len() == entries.len() - rest.len(),
            attempts.len() == monitors.len(),
            monitors_pass(entries, attempts, monitors.len() as int),
            forall|i: int|
                0 <= i < monitors.len() ==> monitor_made(
                    #[trigger] monitors[i],
                    entries[i],
                    attempts[i],
                ),
        decreases rest.len(),
    {
        let ghost at = monitors.len() as int;
        let entry = rest.pop().unwrap();
        assert(entry == entries[at]);
        let name = entry.0;
        match entry.1 {
            Datum::Table(table) => {
                let made = parse_monitor_config(name.clone(), table);
                let ghost attempt = choose|compiled: Option<Result<regex::Regex, String>>|
                    pattern_attempt(table.entries@, compiled) && #[trigger] monitor_result(
                        made,
                        name,
                        table.entries@,
                        compiled,
                    );
                let ghost before = attempts;
                proof {
                    attempts = attempts.push(attempt);
                    assert forall|j: int| 0 <= j < at implies attempts[j] == before[j] by {}
                    assert(attempts[at] == attempt);
                }
                match made {
                    Ok(config) => {
                        monitors.push(config);
                    },
                    Err(error) => {
                        let failure = Err(ConfigError::Monitor(name, error));
                        proof {
                            let padded = attempts + Seq::new(
                                (entries.len() - at - 1) as nat,
                                |k: int| None,
                            );
                            assert forall|j: int| 0 <= j <= at implies padded[j] == attempts[j] by {}
                            assert(monitors_pass(entries, padded, at));
                            assert(monitors_result(failure, entries, padded));
                        }
                        return failure;
                    },
                }
            },
            _ => {
                let failure = Err(ConfigError::MonitorNotTable(name));
                proof {
                    let padded = attempts.push(None);
                    assert forall|j: int| 0 <= j < at implies padded[j] == attempts[j] by {}
                    assert(monitors_pass(entries, padded, at));
                    assert(attempted(entries[at], padded[at]));
                    assert(monitors_result(failure, entries, padded));
                }
                return failure;
            },
        }
    }
    let made = Ok(monitors);
    assert(monitors_result(made, entries, attempts));
    made
}

/// What comes of the document's top table. The order of the checks: `var`
/// must be a table if it is there; `monitor` must be there and be a table;
/// its entries are gone through in order; then no other key may be left.
pub open spec fn config_result(
    result: Result<Config, ConfigError>,
    root: Seq<(String, Datum)>,
    attempts: Attempts,
) -> bool {
    let variables = lookup(root, "var"@);
    if not_table(variables) {
        result matches Err(error) && error@ == ConfigErrorView::VarNotTable
    } else {
        match lookup(root, "monitor"@) {
            None => result matches Err(error) && error@ == ConfigErrorView::NoMonitors,
            Some(Datum::Table(table)) => {
                let entries = table.entries@;
                let stray = first_unknown(root, root_keys());
                match result {
                    Ok(config) => monitors_result(Ok(config.monitors), entries, attempts)
                        && stray is None && holds_table(variables, config.variables),
                    Err(error) => monitors_result(Err(error), entries, attempts) || (
                    monitors_pass(entries, attempts, entries.len() as int) && stray is Some
                        && error@ == ConfigErrorView::InvalidKey(stray->0)),
                }
            },
            Some(_) => result matches Err(error) && error@ == ConfigErrorView::MonitorsNotTable,
        }
    }
}

/// Makes the configuration of the document's top table.
pub fn parse_table(root: Table) -> (result: Result<Config, ConfigError>)
    ensures
        exists|attempts: Attempts| #[trigger] config_result(result, root.entries@, attempts),
{
    let ghost table = root.entries@;
    let keys = root_key_list();
    let (mut found, stray) = root.extract(&keys);
    assert(keys.deep_view()[0] == keys[0]@ && keys.deep_view()[1] == keys[1]@);
    assert(found[0] == lookup(table, "var"@) && found[1] == lookup(table, "monitor"@));
    let monitor_found = found.pop().unwrap();
    let var_found = found.pop().unwrap();
    let variables = match var_found {
        None => Table::new(),
        Some(Datum::Table(variables)) => variables,
        Some(_) => {
            let failure = Err(ConfigError::VarNotTable);
            assert(config_result(failure, table, Seq::empty()));
            return failure;
        },
    };
    let monitors = match monitor_found {
        None => {
            let failure = Err(ConfigError::NoMonitors);
            assert(config_result(failure, table, Seq::empty()));
            return failure;
        },
        Some(Datum::Table(monitors_table)) => {
            let made = parse_monitors(monitors_table);
            let ghost attempts = choose|attempts: Attempts| #[trigger]
                monitors_result(made, monitors_table.entries@, attempts);
            match made {
                Ok(monitors) => {
                    match stray {
                        Some(key) => {
                            let failure = Err(ConfigError::InvalidKey(key));
                            assert(config_result(failure, table, attempts));
                            return failure;
                        },
                        None => {},
                    }
                    let done = Ok(Config { monitors, variables });
                    assert(config_result(done, table, attempts));
                    return done;
                },
                Err(error) => {
                    let failure = Err(error);
                    assert(config_result(failure, table, attempts));
                    return failure;
                },
            }
        },
        Some(_) => {
            let failure = Err(ConfigError::MonitorsNotTable);
            assert(config_result(failure, table, Seq::empty()));
            return failure;
        },
    };
}

/// A syntax error as the TOML parser reports it.
#[derive(Clone, Debug, PartialEq, Eq)]
pub struct SyntaxError {
    /// What went wrong.
    pub message: String,
    /// Where: the first byte of the place in the document and the byte
    /// after its last, where the parser knows.
    pub span: Option<(usize, usize)>,
}

/// What the TOML parser makes of a document: `str::parse` to a
/// `toml::Table`. The table comes as a value; an error as its message and
/// its span.
pub uninterp spec fn toml_document(doc: Seq<char>) -> Result<
    toml::Value,
    (Seq<char>, Option<(usize, usize)>),
>;

/// The datum that stands for a TOML value.
pub uninterp spec fn imported(value: toml::Value) -> Datum;

/// Parses a document with `str::parse::<toml::Table>`, which depends on the
/// text alone, and wraps the table as a `toml::Value`; of an error it keeps
/// `message()` and `span()`. The contract names the result and says that
/// what comes back imports as a table, which is how `import` treats
/// `Value::Table`.
#[verifier::external_body]
fn parse_document(doc: &str) -> (parsed: Result<toml::Value, SyntaxError>)
    ensures
        parsed matches Ok(value) ==> toml_document(doc@) is Ok && toml_document(doc@)->Ok_0 == value
            && imported(value) is Table,
        parsed matches Err(error) ==> toml_document(doc@) is Err && toml_document(doc@)->Err_0 == (
            error.message@,
            error.span,
        ),
{
    match doc.parse::<toml::Table>() {
        Ok(table) => Ok(toml::Value::Table(table)),
        Err(error) => Err(
            SyntaxError {
                message: error.message().to_owned(),
                span: error.span().map(|at| (at.start, at.end)),
            },
        ),
    }
}

/// Turns a TOML value into the datum that stands for it, variant by
/// variant: a string, integer or boolean by its content, a float or
/// datetime kept as it is, an array item by item, and a table entry by
/// entry in the order in which `toml::Table` hands them out. The contract
/// only names the result.
#[verifier::external_body]
fn import(value: toml::Value) -> (datum: Datum)
    ensures
        datum == imported(value),
{
    match value {
        toml::Value::String(text) => Datum::String(text),
        toml::Value::Integer(number) => Datum::Integer(number),
        toml::Value::Float(_) => Datum::Float(value),
        toml::Value::Boolean(truth) => Datum::Boolean(truth),
        toml::Value::Datetime(_) => Datum::Datetime(value),
        toml::Value::Array(items) => Datum::Array(items.into_iter().map(import).collect()),
        toml::Value::Table(table) => Datum::Table(
            Table { entries: table.into_iter().map(|e| (e.0, import(e.1))).collect() },
        ),
    }
}

/// What comes of a document: a syntax error is reported with the line it is
/// on; a well-formed document is judged by its top table.
pub open spec fn parse_result(
    result: Result<Config, ConfigError>,
    doc: Seq<char>,
    attempts: Attempts,
) -> bool {
    match toml_document(doc) {
        Err(fault) => result matches Err(error) && error@ == ConfigErrorView::Syntax(
            syntax_report(doc, fault.0, fault.1),
        ),
        Ok(value) => imported(value) matches Datum::Table(root) && config_result(
            result,
            root.entries@,
            attempts,
        ),
    }
}

/// Reads a configuration document.
pub fn parse(doc: &str) -> (result: Result<Config, ConfigError>)
    ensures
        exists|attempts: Attempts| #[trigger] parse_result(result, doc@, attempts),
{
    match parse_document(doc) {
        Err(error) => {
            let report = map_to_readable_syntax_err(doc, error.message.as_str(), error.span);
            let failure = Err(ConfigError::Syntax(report));
            assert(parse_result(failure, doc@, Seq::empty()));
            failure
        },
        Ok(value) => match import(value) {
            Datum::Table(root) => {
                let made = parse_table(root);
                proof {
                    let attempts = choose|attempts: Attempts| #[trigger]
                        config_result(made, root.entries@, attempts);
                    assert(parse_result(made, doc@, attempts));
                }
                made
            },
            _ => {
                assert(false);
                vstd::pervasive::unreached()
            },
        },
    }
}

} // verus!
