//! From a chunk of text to what each match of the pattern sets off.
use crate::pattern::{capture_names, captures, group_names, match_groups};
use vstd::prelude::*;

verus! {

/// What one match hands to the monitor's command.
#[derive(Clone, Debug, PartialEq, Eq)]
pub struct Invocation {
    /// The named groups that took part in the match, each with its text, in
    /// the order of the groups in the pattern.
    pub environment: Vec<(String, String)>,
    /// The named groups that took no part in the match: worth a warning.
    pub missing: Vec<String>,
}

pub struct InvocationView {
    pub environment: Seq<(Seq<char>, Seq<char>)>,
    pub missing: Seq<Seq<char>>,
}

impl View for Invocation {
    type V = InvocationView;

    open spec fn view(&self) -> InvocationView {
        InvocationView {
            environment: self.environment.deep_view(),
            missing: self.missing.deep_view(),
        }
    }
}

/// The text that group `i` took in a match, if it took part.
pub open spec fn group_text(groups: Seq<Option<Seq<char>>>, i: int) -> Option<Seq<char>> {
    if 0 <= i < groups.len() {
        groups[i]
    } else {
        None
    }
}

/// The environment made of the first `upto` groups.
pub open spec fn environment_upto(
    names: Seq<Option<Seq<char>>>,
    groups: Seq<Option<Seq<char>>>,
    upto: int,
) -> Seq<(Seq<char>, Seq<char>)>
    decreases upto,
{
    if upto <= 0 {
        Seq::empty()
    } else {
        let before = environment_upto(names, groups, upto - 1);
        match (names[upto - 1], group_text(groups, upto - 1)) {
            (Some(name), Some(text)) => before.push((name, text)),
            _ => before,
        }
    }
}

/// The named groups among the first `upto` that took no part in the match.
pub open spec fn missing_upto(
    names: Seq<Option<Seq<char>>>,
    groups: Seq<Option<Seq<char>>>,
    upto: int,
) -> Seq<Seq<char>>
    decreases upto,
{
    if upto <= 0 {
        Seq::empty()
    } else {
        let before = missing_upto(names, groups, upto - 1);
        match (names[upto - 1], group_text(groups, upto - 1)) {
            (Some(name), None) => before.push(name),
            _ => before,
        }
    }
}

/// What a match with these groups hands to the command, for a pattern whose
/// groups have these names.
pub open spec fn invocation_of(
    names: Seq<Option<Seq<char>>>,
    groups: Seq<Option<Seq<char>>>,
) -> InvocationView {
    InvocationView {
        environment: environment_upto(names, groups, names.len() as int),
        missing: missing_upto(names, groups, names.len() as int),
    }
}

/// One invocation for each match, in the order of the matches.
pub open spec fn invocations_of(
    names: Seq<Option<Seq<char>>>,
    matches: Seq<Seq<Option<Seq<char>>>>,
) -> Seq<InvocationView> {
    Seq::new(matches.len(), |k: int| invocation_of(names, matches[k]))
}

/// The environment of a match holds exactly the named groups that took part
/// in it, each with the text it took; the named groups that took no part
/// are exactly those reported missing.
pub proof fn lemma_environment_exact(
    names: Seq<Option<Seq<char>>>,
    groups: Seq<Option<Seq<char>>>,
    upto: int,
)
    requires
        0 <= upto <= names.len(),
    ensures
        forall|name: Seq<char>, text: Seq<char>|
            #![trigger environment_upto(names, groups, upto).contains((name, text))]
            environment_upto(names, groups, upto).contains((name, text)) <==> exists|i: int|
                0 <= i < upto && #[trigger] names[i] == Some(name) && group_text(groups, i) == Some(
                    text,
                ),
        forall|name: Seq<char>|
            #![trigger missing_upto(names, groups, upto).contains(name)]
            missing_upto(names, groups, upto).contains(name) <==> exists|i: int|
                0 <= i < upto && #[trigger] names[i] == Some(name) && group_text(groups, i) is None,
    decreases upto,
{
    if upto > 0 {
        lemma_environment_exact(names, groups, upto - 1);
        let before = environment_upto(names, groups, upto - 1);
        let now = environment_upto(names, groups, upto);
        let lost_before = missing_upto(names, groups, upto - 1);
        let lost_now = missing_upto(names, groups, upto);
        let last = upto - 1;
        assert forall|name: Seq<char>, text: Seq<char>| now.contains((name, text)) <==> exists|
            i: int,
        |
            0 <= i < upto && #[trigger] names[i] == Some(name) && group_text(groups, i) == Some(
                text,
            ) by {
            if now.contains((name, text)) {
                let at = choose|at: int| 0 <= at < now.len() && now[at] == (name, text);
                if at < before.len() {
                    assert(before[at] == (name, text));
                    assert(before.contains((name, text)));
                } else {
                    assert(names[last] == Some(name) && group_text(groups, last) == Some(text));
                }
            }
            if exists|i: int|
                0 <= i < upto && #[trigger] names[i] == Some(name) && group_text(groups, i) == Some(
                    text,
                ) {
                let i = choose|i: int|
                    0 <= i < upto && #[trigger] names[i] == Some(name) && group_text(groups, i)
                        == Some(text);
                if i < last {
                    assert(before.contains((name, text)));
                    let at = choose|at: int| 0 <= at < before.len() && before[at] == (name, text);
                    assert(now[at] == (name, text));
                } else {
                    assert(now[now.len() - 1] == (name, text));
                }
            }
        }
        assert forall|name: Seq<char>| lost_now.contains(name) <==> exists|i: int|
            0 <= i < upto && #[trigger] names[i] == Some(name) && group_text(groups, i) is None by {
            if lost_now.contains(name) {
                let at = choose|at: int| 0 <= at < lost_now.len() && lost_now[at] == name;
                if at < lost_before.len() {
                    assert(lost_before[at] == name);
                    assert(lost_before.contains(name));
                } else {
                    assert(names[last] == Some(name) && group_text(groups, last) is None);
                }
            }
            if exists|i: int|
                0 <= i < upto && #[trigger] names[i] == Some(name) && group_text(groups, i)
                    is None {
                let i = choose|i: int|
                    0 <= i < upto && #[trigger] names[i] == Some(name) && group_text(groups, i)
                        is None;
                if i < last {
                    assert(lost_before.contains(name));
                    let at = choose|at: int| 0 <= at < lost_before.len() && lost_before[at] == name;
                    assert(lost_now[at] == name);
                } else {
                    assert(lost_now[lost_now.len() - 1] == name);
                }
            }
        }
    }
}

/// Makes the invocation of one match: goes through the pattern's groups and
/// keeps, for each that has a name, its text or the fact that it is missing.
pub fn invocation(names: &Vec<Option<String>>, groups: &Vec<Option<String>>) -> (made: Invocation)
    ensures
        made@ == invocation_of(names.deep_view(), groups.deep_view()),
{
    let mut environment: Vec<(String, String)> = Vec::new();
    let mut missing: Vec<String> = Vec::new();
    let mut at: usize = 0;
    while at < names.len()
        invariant
            at <= names.len(),
            environment.deep_view() == environment_upto(
                names.deep_view(),
                groups.deep_view(),
                at as int,
            ),
            missing.deep_view() == missing_upto(names.deep_view(), groups.deep_view(), at as int),
        decreases names.len() - at,
    {
        let ghost env_before = environment.deep_view();
        let ghost lost_before = missing.deep_view();
        assert(names.deep_view()[at as int] == names[at as int].deep_view());
        match &names[at] {
            Some(name) => {
                if at < groups.len() {
                    assert(groups.deep_view()[at as int] == groups[at as int].deep_view());
                    match &groups[at] {
                        Some(text) => {
                            environment.push((name.clone(), text.clone()));
                            assert(environment.deep_view() =~= env_before.push((name@, text@)));
                        },
                        None => {
                            missing.push(name.clone());
                            assert(missing.deep_view() =~= lost_before.push(name@));
                        },
                    }
                } else {
                    missing.push(name.clone());
                    assert(missing.deep_view() =~= lost_before.push(name@));
                }
            },
            None => {},
        }
        at += 1;
    }
    Invocation { environment, missing }
}

/// Makes one invocation for each match, in the order of the matches.
pub fn invocations(names: &Vec<Option<String>>, matches: &Vec<Vec<Option<String>>>) -> (made: Vec<
    Invocation,
>)
    ensures
        made@.map_values(|one: Invocation| one@) == invocations_of(
            names.deep_view(),
            matches.deep_view(),
        ),
{
    let mut made: Vec<Invocation> = Vec::new();
    let mut at: usize = 0;
    while at < matches.len()
        invariant
            at <= matches.len(),
            made.len() == at,
            forall|k: int|
                0 <= k < at ==> (#[trigger] made[k])@ == invocation_of(
                    names.deep_view(),
                    matches.deep_view()[k],
                ),
        decreases matches.len() - at,
    {
        assert(matches.deep_view()[at as int] == matches[at as int].deep_view());
        let one = invocation(names, &matches[at]);
        made.push(one);
        at += 1;
    }
    assert(made@.map_values(|one: Invocation| one@) =~= invocations_of(
        names.deep_view(),
        matches.deep_view(),
    ));
    made
}

/// Finds the non-overlapping matches of the pattern in a chunk, in chunk
/// order, and makes the invocation of each.
pub fn dispatch(pattern: &regex::Regex, chunk: &str) -> (made: Vec<Invocation>)
    ensures
        made@.map_values(|one: Invocation| one@) == invocations_of(
            group_names(*pattern),
            match_groups(*pattern, chunk@),
        ),
{
    let names = capture_names(pattern);
    let matches = captures(pattern, chunk);
    invocations(&names, &matches)
}

} // verus!
