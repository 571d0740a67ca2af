use ramon::config::{
    assemble_monitor, parse, parse_monitor_config, parse_table, Config, ConfigError, Exec,
    MonitorError,
};
use ramon::datum::{Datum, Table};
use ramon::report::map_to_readable_syntax_err;
use std::time::Duration;

fn table(entries: Vec<(&str, Datum)>) -> Table {
    Table {
        entries: entries
            .into_iter()
            .map(|(key, value)| (key.to_string(), value))
            .collect(),
    }
}

fn text(value: &str) -> Datum {
    Datum::String(value.to_string())
}

fn parsed(doc: &str) -> Config {
    match parse(doc) {
        Ok(config) => config,
        Err(error) => panic!("{}", error.message()),
    }
}

fn refused(doc: &str) -> ConfigError {
    match parse(doc) {
        Ok(_) => panic!("the document must be turned down"),
        Err(error) => error,
    }
}

fn monitor_refused(entries: Vec<(&str, Datum)>) -> MonitorError {
    match parse_monitor_config("m".to_string(), table(entries)) {
        Ok(_) => panic!("the monitor must be turned down"),
        Err(error) => error,
    }
}

#[test]
fn array_exec_and_set_make_a_monitor_mutating() {
    let config = parsed(
        "[monitor.a]\nlog = \"/var/log/a.log\"\nmatch_log = \"x\"\nexec = [\"sh\", \"-c\", \"echo $x\"]\n[monitor.a.set]\nseen = true\n",
    );
    assert_eq!(config.monitors.len(), 1);
    let monitor = &config.monitors[0];
    assert!(monitor.mutates_globals);
    assert_eq!(
        monitor.command,
        Some(Exec::Spawn(vec![
            "sh".to_string(),
            "-c".to_string(),
            "echo $x".to_string()
        ]))
    );
    assert_eq!(monitor.set.entries, vec![("seen".to_string(), Datum::Boolean(true))]);
    assert!(monitor.push.entries.is_empty());
}

#[test]
fn pattern_and_shell_exec_leave_a_monitor_reading() {
    let config = parsed("[monitor.a]\nmatch_log = \"x\"\nexec = \"echo hi\"\n");
    let monitor = &config.monitors[0];
    assert!(!monitor.mutates_globals);
    assert_eq!(monitor.command, Some(Exec::Shell("echo hi".to_string())));
    assert_eq!(monitor.name, "a");
    assert!(monitor.log.is_none());
    assert!(monitor.every.is_none());
    assert!(monitor.cooldown.is_none());
}

#[test]
fn each_of_set_push_and_array_exec_alone_makes_a_monitor_mutating() {
    let with_set = parsed("[monitor.a.set]\nk = 1\n");
    assert!(with_set.monitors[0].mutates_globals);
    let with_push = parsed("[monitor.a.push]\nk = 1\n");
    assert!(with_push.monitors[0].mutates_globals);
    assert_eq!(with_push.monitors[0].push.entries, vec![("k".to_string(), Datum::Integer(1))]);
    let with_argv = parsed("[monitor.a]\nexec = [\"true\"]\n");
    assert!(with_argv.monitors[0].mutates_globals);
    let plain = parsed("[monitor.a]\n");
    assert!(!plain.monitors[0].mutates_globals);
    assert!(plain.monitors[0].command.is_none());
    assert!(plain.monitors[0].match_log.is_none());
}

#[test]
fn the_pattern_is_compiled_in_multi_line_mode() {
    let config = parsed("[monitor.a]\nmatch_log = \"^b$\"\n");
    let pattern = config.monitors[0].match_log.as_ref().unwrap();
    assert_eq!(pattern.as_str(), "(?m)^b$");
    assert!(pattern.is_match("a\nb\nc"));
}

#[test]
fn durations_are_read_from_their_notation() {
    let config = parsed("[monitor.a]\nevery = \"5s\"\ncooldown = \"1m + 30s\"\n");
    assert_eq!(config.monitors[0].every, Some(Duration::from_secs(5)));
    assert_eq!(config.monitors[0].cooldown, Some(Duration::from_secs(90)));
    let config = parsed("[monitor.a]\nevery = \"250ms\"\n");
    assert_eq!(config.monitors[0].every, Some(Duration::from_millis(250)));
}

#[test]
fn variables_are_kept_as_they_are_written() {
    let config = parsed(
        "[var]\nname = \"x\"\ncount = 3\nflag = false\nlist = [1, \"two\"]\n[var.nested]\nk = \"v\"\n[monitor.a]\n",
    );
    assert_eq!(
        config.variables,
        table(vec![
            ("count", Datum::Integer(3)),
            ("flag", Datum::Boolean(false)),
            ("list", Datum::Array(vec![Datum::Integer(1), text("two")])),
            ("name", text("x")),
            ("nested", Datum::Table(table(vec![("k", text("v"))]))),
        ])
    );
}

#[test]
fn floats_and_datetimes_are_carried_as_toml_values() {
    let config = parsed("[var]\nratio = 1.5\nwhen = 1979-05-27T07:32:00Z\n[monitor.a]\n");
    assert_eq!(config.variables.entries.len(), 2);
    assert_eq!(
        config.variables.entries[0],
        ("ratio".to_string(), Datum::Float(toml::Value::Float(1.5)))
    );
    assert_eq!(config.variables.entries[1].0, "when");
    let when = "1979-05-27T07:32:00Z".parse::<toml::value::Datetime>().unwrap();
    assert_eq!(config.variables.entries[1].1, Datum::Datetime(toml::Value::Datetime(when)));
}

#[test]
fn monitors_come_in_the_order_of_their_names() {
    let config = parsed("[monitor.b]\n[monitor.a]\n[monitor.c]\n");
    let names: Vec<&str> = config.monitors.iter().map(|m| m.name.as_str()).collect();
    assert_eq!(names, vec!["a", "b", "c"]);
}

#[test]
fn a_document_without_monitors_is_turned_down() {
    assert_eq!(refused(""), ConfigError::NoMonitors);
    assert_eq!(refused("[var]\nx = 1\n"), ConfigError::NoMonitors);
    assert_eq!(ConfigError::NoMonitors.message(), "No monitors found!");
}

#[test]
fn var_and_monitor_must_be_tables() {
    assert_eq!(refused("var = 1\n[monitor.a]\n"), ConfigError::VarNotTable);
    assert_eq!(refused("monitor = \"a\"\n"), ConfigError::MonitorsNotTable);
    assert_eq!(
        refused("[monitor]\na = 1\n"),
        ConfigError::MonitorNotTable("a".to_string())
    );
    assert_eq!(ConfigError::VarNotTable.message(), "Key `var` must be a table.");
    assert_eq!(ConfigError::MonitorsNotTable.message(), "Key `monitor` must be a table.");
    assert_eq!(
        ConfigError::MonitorNotTable("a".to_string()).message(),
        "Key `monitor.a` must be a table."
    );
}

#[test]
fn var_is_checked_before_monitor() {
    assert_eq!(refused("var = 1\n"), ConfigError::VarNotTable);
    assert_eq!(refused("var = 1\nmonitor = 2\n"), ConfigError::VarNotTable);
}

#[test]
fn an_unknown_key_at_the_top_is_named() {
    let error = refused("other = 1\n[monitor.a]\n");
    assert_eq!(error, ConfigError::InvalidKey("other".to_string()));
    assert_eq!(error.message(), "Invalid key `other`");
}

#[test]
fn a_monitor_at_fault_comes_before_an_unknown_key_at_the_top() {
    let error = refused("other = 1\n[monitor.a]\nbogus = 1\n");
    assert_eq!(
        error,
        ConfigError::Monitor("a".to_string(), MonitorError::InvalidKey("bogus".to_string()))
    );
    assert_eq!(error.message(), "Monitor `a`: Invalid key `bogus`");
}

#[test]
fn the_first_monitor_at_fault_is_the_one_reported() {
    let error = refused("[monitor.a]\n[monitor.b]\nlog = 1\n[monitor.c]\nlog = 2\nexec = 3\n");
    assert_eq!(error, ConfigError::Monitor("b".to_string(), MonitorError::LogNotString));
}

#[test]
fn each_key_of_a_monitor_has_its_type() {
    assert_eq!(monitor_refused(vec![("every", Datum::Integer(5))]), MonitorError::EveryNotString);
    assert_eq!(monitor_refused(vec![("log", Datum::Boolean(true))]), MonitorError::LogNotString);
    assert_eq!(
        monitor_refused(vec![("cooldown", Datum::Integer(1))]),
        MonitorError::CooldownNotString
    );
    assert_eq!(
        monitor_refused(vec![("match_log", Datum::Integer(1))]),
        MonitorError::MatchLogNotString
    );
    assert_eq!(monitor_refused(vec![("set", text("x"))]), MonitorError::SetNotTable);
    assert_eq!(monitor_refused(vec![("push", Datum::Array(vec![]))]), MonitorError::PushNotTable);
    assert_eq!(monitor_refused(vec![("exec", Datum::Array(vec![]))]), MonitorError::ExecEmpty);
    assert_eq!(monitor_refused(vec![("exec", Datum::Integer(1))]), MonitorError::ExecNotCommand);
    assert_eq!(
        monitor_refused(vec![("exec", Datum::Table(Table::new()))]),
        MonitorError::ExecNotCommand
    );
    assert_eq!(
        monitor_refused(vec![("colour", text("red"))]),
        MonitorError::InvalidKey("colour".to_string())
    );
}

#[test]
fn the_messages_of_a_monitor_say_which_key() {
    assert_eq!(MonitorError::EveryNotString.message(), "Key `every` must be a string.");
    assert_eq!(MonitorError::EveryInvalid("why".to_string()).message(), "Key `every`:\nwhy");
    assert_eq!(MonitorError::LogNotString.message(), "Key `log` must be a string.");
    assert_eq!(MonitorError::CooldownNotString.message(), "Key `cooldown` must be a string.");
    assert_eq!(MonitorError::CooldownInvalid("why".to_string()).message(), "Invalid cooldown:\nwhy");
    assert_eq!(MonitorError::MatchLogNotString.message(), "Key `match_log` must be a string.");
    assert_eq!(
        MonitorError::MatchLogInvalid("why".to_string()).message(),
        "Failed to parse match_log: why"
    );
    assert_eq!(MonitorError::SetNotTable.message(), "Key `set` must be a table.");
    assert_eq!(MonitorError::PushNotTable.message(), "Key `push` must be a table.");
    assert_eq!(MonitorError::ExecEmpty.message(), "Key `exec` must not be empty.");
    assert_eq!(
        MonitorError::ExecNotText.message(),
        "Key `exec` holds a value that cannot be written."
    );
    assert_eq!(
        MonitorError::ExecNotCommand.message(),
        "Key `exec` must be a string or an array of strings."
    );
    assert_eq!(MonitorError::InvalidKey("k".to_string()).message(), "Invalid key `k`");
    assert_eq!(ConfigError::Syntax("as reported".to_string()).message(), "as reported");
}

#[test]
fn the_keys_of_a_monitor_are_checked_in_order() {
    let all_wrong = vec![
        ("bogus", Datum::Integer(0)),
        ("exec", Datum::Integer(0)),
        ("push", Datum::Integer(0)),
        ("set", Datum::Integer(0)),
        ("match_log", Datum::Integer(0)),
        ("cooldown", Datum::Integer(0)),
        ("log", Datum::Integer(0)),
        ("every", Datum::Integer(0)),
    ];
    let expected = vec![
        MonitorError::EveryNotString,
        MonitorError::LogNotString,
        MonitorError::CooldownNotString,
        MonitorError::MatchLogNotString,
        MonitorError::SetNotTable,
        MonitorError::PushNotTable,
        MonitorError::ExecNotCommand,
        MonitorError::InvalidKey("bogus".to_string()),
    ];
    let mut entries = all_wrong;
    for error in expected {
        assert_eq!(monitor_refused(entries.iter().map(|e| (e.0, Datum::Integer(0))).collect()), error);
        entries.pop();
    }
}

#[test]
fn an_invalid_duration_is_reported_with_the_parser_s_words() {
    match monitor_refused(vec![("every", text("soon"))]) {
        MonitorError::EveryInvalid(why) => {
            assert_eq!(why, duration_str::parse("soon").unwrap_err().to_string())
        }
        other => panic!("{:?}", other),
    }
    match monitor_refused(vec![("cooldown", text("5 parsecs"))]) {
        MonitorError::CooldownInvalid(why) => {
            assert_eq!(why, duration_str::parse("5 parsecs").unwrap_err().to_string())
        }
        other => panic!("{:?}", other),
    }
}

#[test]
fn an_invalid_pattern_is_reported_with_the_compiler_s_words() {
    match monitor_refused(vec![("match_log", text("(unclosed"))]) {
        MonitorError::MatchLogInvalid(why) => {
            assert_eq!(why, regex::Regex::new("(?m)(unclosed").unwrap_err().to_string())
        }
        other => panic!("{:?}", other),
    }
}

#[test]
fn an_invalid_pattern_comes_before_a_set_that_is_no_table() {
    let error = monitor_refused(vec![("set", Datum::Integer(1)), ("match_log", text("("))]);
    assert!(matches!(error, MonitorError::MatchLogInvalid(_)));
    let error = monitor_refused(vec![("every", Datum::Integer(1)), ("match_log", text("("))]);
    assert_eq!(error, MonitorError::EveryNotString);
}

#[test]
fn assembling_takes_the_compiler_s_word_as_given() {
    let entries = vec![("match_log", text("x")), ("exec", text("true"))];
    let turned_down = assemble_monitor(
        "m".to_string(),
        table(entries.clone_entries()),
        Some(Err("too big".to_string())),
    );
    assert_eq!(turned_down.err(), Some(MonitorError::MatchLogInvalid("too big".to_string())));
    let accepted = assemble_monitor(
        "m".to_string(),
        table(entries.clone_entries()),
        Some(Ok(regex::Regex::new("y").unwrap())),
    );
    assert_eq!(accepted.unwrap().match_log.unwrap().as_str(), "y");
}

trait CloneEntries {
    fn clone_entries(&self) -> Vec<(&'static str, Datum)>;
}

impl CloneEntries for Vec<(&'static str, Datum)> {
    fn clone_entries(&self) -> Vec<(&'static str, Datum)> {
        self.iter()
            .map(|e| {
                (
                    e.0,
                    match &e.1 {
                        Datum::String(s) => Datum::String(s.clone()),
                        _ => Datum::Boolean(false),
                    },
                )
            })
            .collect()
    }
}

#[test]
fn items_of_an_exec_array_that_are_no_strings_are_written_as_toml() {
    let config = parsed("[monitor.a]\nexec = [\"sleep\", 5, true, 1.5, [1, \"a\"]]\n");
    assert_eq!(
        config.monitors[0].command,
        Some(Exec::Spawn(vec![
            "sleep".to_string(),
            "5".to_string(),
            "true".to_string(),
            "1.5".to_string(),
            "[1, \"a\"]".to_string(),
        ]))
    );
}

#[test]
fn an_item_of_an_exec_array_that_cannot_be_written_is_turned_down() {
    let nowhen = toml::Value::Datetime(toml::value::Datetime { date: None, time: None, offset: None });
    let items = Datum::Array(vec![text("echo"), Datum::Array(vec![Datum::Datetime(nowhen)])]);
    assert_eq!(monitor_refused(vec![("exec", items)]), MonitorError::ExecNotText);
    let nowhen = toml::Value::Datetime(toml::value::Datetime { date: None, time: None, offset: None });
    let items = Datum::Array(vec![Datum::Array(vec![Datum::Datetime(nowhen)])]);
    assert_eq!(
        monitor_refused(vec![("bogus", Datum::Integer(1)), ("exec", items)]),
        MonitorError::ExecNotText
    );
}

#[test]
fn the_first_of_two_entries_under_one_key_counts() {
    let made = parse_monitor_config(
        "m".to_string(),
        table(vec![("log", text("/first")), ("log", text("/second"))]),
    );
    assert_eq!(made.unwrap().log, Some("/first".to_string()));
}

#[test]
fn a_top_table_is_judged_like_a_document() {
    let root = table(vec![(
        "monitor",
        Datum::Table(table(vec![("a", Datum::Table(table(vec![("log", text("/l"))])))])),
    )]);
    let config = parse_table(root).unwrap();
    assert_eq!(config.monitors.len(), 1);
    assert_eq!(config.monitors[0].log, Some("/l".to_string()));
    assert!(config.variables.entries.is_empty());
    assert_eq!(
        parse_table(table(vec![("monitor", Datum::Table(Table::new())), ("zzz", text("x"))])).err(),
        Some(ConfigError::InvalidKey("zzz".to_string()))
    );
}

#[test]
fn a_syntax_error_is_reported_with_its_line() {
    let doc = "[monitor.a]\nlog = \n";
    let fault = doc.parse::<toml::Table>().unwrap_err();
    let span = fault.span().map(|at| (at.start, at.end));
    let expected = map_to_readable_syntax_err(doc, fault.message(), span);
    assert_eq!(refused(doc), ConfigError::Syntax(expected.clone()));
    assert!(expected.starts_with(fault.message()));
    assert!(expected.contains("\n2:\tlog = \n\t"));
    assert!(expected.ends_with("^"));
}
