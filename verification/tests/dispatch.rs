use ramon::dispatch::{dispatch, invocation, invocations, Invocation};
use regex::Regex;

fn pair(name: &str, text: &str) -> (String, String) {
    (name.to_string(), text.to_string())
}

#[test]
fn each_match_has_its_own_environment() {
    let pattern = Regex::new(r"(?P<who>\w+) ate (?P<what>\w+)").unwrap();
    let made = dispatch(&pattern, "ann ate pie\nbob ate cake\nnobody came");
    assert_eq!(
        made,
        vec![
            Invocation {
                environment: vec![pair("who", "ann"), pair("what", "pie")],
                missing: vec![],
            },
            Invocation {
                environment: vec![pair("who", "bob"), pair("what", "cake")],
                missing: vec![],
            },
        ]
    );
}

#[test]
fn a_group_that_took_no_part_is_missing_and_the_match_stands() {
    let pattern = Regex::new(r"(?P<a>x)|(?P<b>y)").unwrap();
    let made = dispatch(&pattern, "x y");
    assert_eq!(
        made,
        vec![
            Invocation { environment: vec![pair("a", "x")], missing: vec!["b".to_string()] },
            Invocation { environment: vec![pair("b", "y")], missing: vec!["a".to_string()] },
        ]
    );
}

#[test]
fn groups_without_a_name_are_left_out() {
    let pattern = Regex::new(r"(\d+)-(?P<tail>\d+)").unwrap();
    let made = dispatch(&pattern, "12-34");
    assert_eq!(made, vec![Invocation { environment: vec![pair("tail", "34")], missing: vec![] }]);
}

#[test]
fn a_pattern_without_groups_gives_empty_environments() {
    let pattern = Regex::new("ab").unwrap();
    let made = dispatch(&pattern, "ab ab");
    assert_eq!(made.len(), 2);
    assert!(made[0].environment.is_empty() && made[0].missing.is_empty());
}

#[test]
fn no_match_gives_no_invocation() {
    let pattern = Regex::new(r"(?P<n>\d+)").unwrap();
    assert!(dispatch(&pattern, "none here").is_empty());
    assert!(dispatch(&pattern, "").is_empty());
}

#[test]
fn matches_do_not_overlap() {
    let pattern = Regex::new(r"(?P<p>aa)").unwrap();
    assert_eq!(dispatch(&pattern, "aaaaa").len(), 2);
}

#[test]
fn an_empty_capture_is_present() {
    let pattern = Regex::new(r"k=(?P<v>\w*);").unwrap();
    let made = dispatch(&pattern, "k=;");
    assert_eq!(made, vec![Invocation { environment: vec![pair("v", "")], missing: vec![] }]);
}

#[test]
fn an_invocation_is_made_of_names_and_groups() {
    let names = vec![None, Some("a".to_string()), None, Some("b".to_string()), Some("c".to_string())];
    let groups = vec![
        Some("whole".to_string()),
        Some("1".to_string()),
        Some("2".to_string()),
        None,
        Some("3".to_string()),
    ];
    assert_eq!(
        invocation(&names, &groups),
        Invocation { environment: vec![pair("a", "1"), pair("c", "3")], missing: vec!["b".to_string()] }
    );
    let short = vec![Some("whole".to_string()), Some("1".to_string())];
    assert_eq!(
        invocation(&names, &short),
        Invocation {
            environment: vec![pair("a", "1")],
            missing: vec!["b".to_string(), "c".to_string()],
        }
    );
    assert_eq!(invocations(&names, &vec![groups.clone(), short]).len(), 2);
    assert!(invocations(&names, &vec![]).is_empty());
}
