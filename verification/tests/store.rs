use ramon::datum::{Datum, Table};
use ramon::store::{access_mode, Access, SharedState};

fn text(value: &str) -> Datum {
    Datum::String(value.to_string())
}

fn state(entries: Vec<(&str, Datum)>) -> SharedState {
    SharedState::new(Table {
        entries: entries.into_iter().map(|(k, v)| (k.to_string(), v)).collect(),
    })
}

#[test]
fn a_mutating_monitor_takes_the_variables_alone() {
    assert_eq!(access_mode(true), Access::Exclusive);
    assert_eq!(access_mode(false), Access::Shared);
}

#[test]
fn variables_start_as_configured() {
    let shared = state(vec![("a", Datum::Integer(1)), ("b", text("x"))]);
    assert_eq!(shared.get("a"), Some(&Datum::Integer(1)));
    assert_eq!(shared.get("b"), Some(&text("x")));
    assert_eq!(shared.get("c"), None);
}

#[test]
fn set_puts_a_value_in_the_place_of_the_old_one() {
    let mut shared = state(vec![("a", Datum::Integer(1)), ("b", text("x"))]);
    shared.set("a".to_string(), Datum::Boolean(true));
    assert_eq!(shared.get("a"), Some(&Datum::Boolean(true)));
    assert_eq!(shared.get("b"), Some(&text("x")));
    assert_eq!(
        shared.into_table().entries,
        vec![("a".to_string(), Datum::Boolean(true)), ("b".to_string(), text("x"))]
    );
}

#[test]
fn set_adds_a_name_that_was_not_there() {
    let mut shared = state(vec![("a", Datum::Integer(1))]);
    shared.set("z".to_string(), text("new"));
    assert_eq!(shared.get("z"), Some(&text("new")));
    assert_eq!(shared.get("a"), Some(&Datum::Integer(1)));
    assert_eq!(shared.into_table().entries.len(), 2);
}

#[test]
fn push_adds_to_the_end_of_a_list() {
    let mut shared = state(vec![("seen", Datum::Array(vec![text("ann")]))]);
    assert!(shared.push("seen".to_string(), text("bob")));
    assert!(shared.push("seen".to_string(), Datum::Integer(3)));
    assert_eq!(
        shared.get("seen"),
        Some(&Datum::Array(vec![text("ann"), text("bob"), Datum::Integer(3)]))
    );
}

#[test]
fn push_makes_a_list_where_the_name_was_not_there() {
    let mut shared = state(vec![]);
    assert!(shared.push("seen".to_string(), text("ann")));
    assert_eq!(shared.get("seen"), Some(&Datum::Array(vec![text("ann")])));
    assert!(shared.push("seen".to_string(), text("bob")));
    assert_eq!(shared.get("seen"), Some(&Datum::Array(vec![text("ann"), text("bob")])));
}

#[test]
fn push_leaves_a_value_that_is_no_list_alone() {
    let mut shared = state(vec![("count", Datum::Integer(1)), ("l", Datum::Array(vec![]))]);
    assert!(!shared.push("count".to_string(), Datum::Integer(2)));
    assert_eq!(shared.get("count"), Some(&Datum::Integer(1)));
    assert_eq!(shared.get("l"), Some(&Datum::Array(vec![])));
    assert_eq!(
        shared.into_table().entries,
        vec![
            ("count".to_string(), Datum::Integer(1)),
            ("l".to_string(), Datum::Array(vec![]))
        ]
    );
}

fn table(entries: Vec<(&str, Datum)>) -> Table {
    Table { entries: entries.into_iter().map(|(k, v)| (k.to_string(), v)).collect() }
}

#[test]
fn apply_assigns_first_and_pushes_then() {
    let mut shared = state(vec![("count", Datum::Integer(1)), ("seen", Datum::Array(vec![text("a")]))]);
    let refused = shared.apply(
        table(vec![("count", Datum::Integer(2)), ("last", text("x")), ("fresh", Datum::Array(vec![]))]),
        table(vec![
            ("seen", text("b")),
            ("count", Datum::Integer(9)),
            ("fresh", text("c")),
            ("new", text("d")),
            ("seen", text("e")),
            ("last", text("y")),
            ("new", text("f")),
        ]),
    );
    assert_eq!(refused, vec!["count".to_string(), "last".to_string()]);
    assert_eq!(shared.get("count"), Some(&Datum::Integer(2)));
    assert_eq!(shared.get("last"), Some(&text("x")));
    assert_eq!(shared.get("seen"), Some(&Datum::Array(vec![text("a"), text("b"), text("e")])));
    assert_eq!(shared.get("fresh"), Some(&Datum::Array(vec![text("c")])));
    assert_eq!(shared.get("new"), Some(&Datum::Array(vec![text("d"), text("f")])));
}

#[test]
fn a_later_assignment_to_a_name_overrides_an_earlier_one() {
    let mut shared = state(vec![]);
    let refused = shared.apply(
        table(vec![("a", Datum::Integer(1)), ("b", Datum::Integer(2)), ("a", Datum::Integer(3))]),
        Table::new(),
    );
    assert!(refused.is_empty());
    assert_eq!(shared.get("a"), Some(&Datum::Integer(3)));
    assert_eq!(shared.get("b"), Some(&Datum::Integer(2)));
}

#[test]
fn an_assignment_can_turn_a_name_into_a_list_before_the_pushes() {
    let mut shared = state(vec![("a", Datum::Integer(1))]);
    let refused = shared.apply(
        table(vec![("a", Datum::Array(vec![]))]),
        table(vec![("a", Datum::Integer(5))]),
    );
    assert!(refused.is_empty());
    assert_eq!(shared.get("a"), Some(&Datum::Array(vec![Datum::Integer(5)])));
}

#[test]
fn applying_nothing_changes_nothing() {
    let mut shared = state(vec![("a", Datum::Integer(1))]);
    assert!(shared.apply(Table::new(), Table::new()).is_empty());
    assert_eq!(shared.into_table().entries, vec![("a".to_string(), Datum::Integer(1))]);
}
