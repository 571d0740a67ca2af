use ramon::datum::{value_to_string, Datum, Table};

fn key(name: &str) -> String {
    name.to_string()
}

fn written(text: &str) -> Option<String> {
    Some(text.to_string())
}

fn datetime(date: bool) -> toml::Value {
    let when = if date {
        "1979-05-27T07:32:00Z".parse::<toml::value::Datetime>().unwrap()
    } else {
        toml::value::Datetime { date: None, time: None, offset: None }
    };
    toml::Value::Datetime(when)
}

#[test]
fn a_string_turns_into_its_own_text() {
    assert_eq!(
        value_to_string(Datum::String("plain \"text\"".to_string())),
        written("plain \"text\"")
    );
    assert_eq!(value_to_string(Datum::String(String::new())), written(""));
}

#[test]
fn other_values_turn_into_their_toml_notation() {
    assert_eq!(value_to_string(Datum::Integer(42)), written("42"));
    assert_eq!(value_to_string(Datum::Integer(-7)), written("-7"));
    assert_eq!(value_to_string(Datum::Boolean(true)), written("true"));
    assert_eq!(value_to_string(Datum::Boolean(false)), written("false"));
    assert_eq!(value_to_string(Datum::Float(toml::Value::Float(2.5))), written("2.5"));
    assert_eq!(
        value_to_string(Datum::Array(vec![
            Datum::Integer(1),
            Datum::String("a".to_string()),
            Datum::Array(vec![Datum::Boolean(false)]),
        ])),
        written("[1, \"a\", [false]]")
    );
    let inner = Table { entries: vec![(key("k"), Datum::Integer(1))] };
    assert_eq!(value_to_string(Datum::Table(inner)), written("{ k = 1 }"));
}

#[test]
fn a_datetime_turns_into_its_notation() {
    assert_eq!(
        value_to_string(Datum::Array(vec![Datum::Datetime(datetime(true))])),
        written("[1979-05-27T07:32:00Z]")
    );
    assert_eq!(
        value_to_string(Datum::Datetime(datetime(true))),
        written("{ \"$__toml_private_datetime\" = \"1979-05-27T07:32:00Z\" }")
    );
}

#[test]
fn a_value_that_toml_cannot_write_has_no_text() {
    assert_eq!(value_to_string(Datum::Array(vec![Datum::Datetime(datetime(false))])), None);
    assert_eq!(
        value_to_string(Datum::Array(vec![
            Datum::Integer(1),
            Datum::Array(vec![Datum::Float(datetime(false))]),
        ])),
        None
    );
    let inner = Table { entries: vec![(key("when"), Datum::Datetime(datetime(false)))] };
    assert_eq!(value_to_string(Datum::Table(inner)), None);
}

#[test]
fn get_finds_the_first_entry_under_a_key() {
    let table = Table {
        entries: vec![
            (key("a"), Datum::Integer(1)),
            (key("b"), Datum::Integer(2)),
            (key("a"), Datum::Integer(3)),
        ],
    };
    assert_eq!(table.get("a"), Some(&Datum::Integer(1)));
    assert_eq!(table.get("b"), Some(&Datum::Integer(2)));
    assert_eq!(table.get("c"), None);
    assert_eq!(Table::new().get("a"), None);
}

#[test]
fn extract_takes_a_table_apart_by_key() {
    let table = Table {
        entries: vec![
            (key("x"), Datum::Integer(1)),
            (key("stray"), Datum::Integer(2)),
            (key("y"), Datum::Integer(3)),
            (key("other"), Datum::Integer(4)),
            (key("x"), Datum::Integer(5)),
        ],
    };
    let keys = vec![key("y"), key("missing"), key("x")];
    let (found, unknown) = table.extract(&keys);
    assert_eq!(found, vec![Some(Datum::Integer(3)), None, Some(Datum::Integer(1))]);
    assert_eq!(unknown, Some(key("stray")));
    let (found, unknown) = Table::new().extract(&keys);
    assert_eq!(found, vec![None, None, None]);
    assert_eq!(unknown, None);
}
