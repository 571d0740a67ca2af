//! The variables that all monitors share: names and the values under them.
use crate::datum::{
    lemma_lookup_absent, lemma_lookup_added, lemma_lookup_at, lemma_lookup_replaced, lookup, Datum,
    Table,
};
use crate::order::reversed;
use vstd::prelude::*;

verus! {

/// How a monitor takes hold of the shared variables.
#[derive(Clone, Copy, Debug, PartialEq, Eq, Structural)]
pub enum Access {
    /// Together with other readers.
    Shared,
    /// Alone, for as long as it changes them.
    Exclusive,
}

/// A monitor that may change the shared variables takes them alone; every
/// other monitor shares them with other readers. The answer is fixed with
/// the configuration.
pub fn access_mode(mutates_globals: bool) -> (access: Access)
    ensures
        access == (if mutates_globals {
            Access::Exclusive
        } else {
            Access::Shared
        }),
{
    if mutates_globals {
        Access::Exclusive
    } else {
        Access::Shared
    }
}

/// The mapping that a table stands for: each key to the value of its first
/// entry.
pub open spec fn table_map(entries: Seq<(String, Datum)>) -> Map<Seq<char>, Datum> {
    Map::new(|key: Seq<char>| lookup(entries, key) is Some, |key: Seq<char>| lookup(entries, key)->0)
}

/// The variables after the assignments of a table, made in table order.
pub open spec fn assigned(state: Map<Seq<char>, Datum>, entries: Seq<(String, Datum)>) -> Map<
    Seq<char>,
    Datum,
>
    decreases entries.len(),
{
    if entries.len() == 0 {
        state
    } else {
        assigned(state, entries.drop_last()).insert(entries.last().0@, entries.last().1)
    }
}

/// Under this name stands something that is no list.
pub open spec fn blocked(state: Map<Seq<char>, Datum>, name: Seq<char>) -> bool {
    state.dom().contains(name) && !(state[name] is Array)
}

/// The items of the list under a name; none where the name is not there.
pub open spec fn items_under(state: Map<Seq<char>, Datum>, name: Seq<char>) -> Seq<Datum> {
    if state.dom().contains(name) && state[name] is Array {
        state[name]->Array_0@
    } else {
        Seq::empty()
    }
}

/// The values that a table brings under a name, in table order.
pub open spec fn brought(entries: Seq<(String, Datum)>, name: Seq<char>) -> Seq<Datum>
    decreases entries.len(),
{
    if entries.len() == 0 {
        Seq::empty()
    } else {
        let before = brought(entries.drop_last(), name);
        if entries.last().0@ == name {
            before.push(entries.last().1)
        } else {
            before
        }
    }
}

/// The names, in table order, of the entries that find something under
/// their name that is no list.
pub open spec fn refusals(state: Map<Seq<char>, Datum>, entries: Seq<(String, Datum)>) -> Seq<
    Seq<char>,
>
    decreases entries.len(),
{
    if entries.len() == 0 {
        Seq::empty()
    } else {
        let before = refusals(state, entries.drop_last());
        if blocked(state, entries.last().0@) {
            before.push(entries.last().0@)
        } else {
            before
        }
    }
}

/// What the pushes of a table make of one name: nothing where the name
/// holds no list or the table brings nothing under it; otherwise a list of
/// what was there followed by what the table brings, in table order.
pub open spec fn pushed_under(
    before: Map<Seq<char>, Datum>,
    entries: Seq<(String, Datum)>,
    after: Map<Seq<char>, Datum>,
    name: Seq<char>,
) -> bool {
    if blocked(before, name) || brought(entries, name).len() == 0 {
        after.dom().contains(name) == before.dom().contains(name) && (before.dom().contains(name)
            ==> after[name] == before[name])
    } else {
        after.dom().contains(name) && after[name] is Array && after[name]->Array_0@ == items_under(
            before,
            name,
        ) + brought(entries, name)
    }
}

/// What the pushes of a table make of the variables, name by name.
pub open spec fn pushed_all(
    before: Map<Seq<char>, Datum>,
    entries: Seq<(String, Datum)>,
    after: Map<Seq<char>, Datum>,
) -> bool {
    forall|name: Seq<char>| #[trigger] pushed_under(before, entries, after, name)
}

/// The shared variables.
#[derive(Debug, PartialEq)]
pub struct SharedState {
    variables: Table,
}

impl View for SharedState {
    type V = Map<Seq<char>, Datum>;

    closed spec fn view(&self) -> Map<Seq<char>, Datum> {
        table_map(self.variables.entries@)
    }
}

impl SharedState {
    /// The variables as the configuration gives them.
    pub fn new(variables: Table) -> (state: SharedState)
        ensures
            state@ == table_map(variables.entries@),
    {
        SharedState { variables }
    }

    /// Where the first entry under `name` stands.
    fn position(&self, name: &str) -> (place: Option<usize>)
        ensures
            match place {
                Some(at) => at < self.variables.entries.len() && self.variables.entries[at as int].0@
                    == name@ && forall|j: int|
                    0 <= j < at ==> (#[trigger] self.variables.entries[j]).0@ != name@,
                None => forall|j: int|
                    0 <= j < self.variables.entries.len() ==> (
                    #[trigger] self.variables.entries[j]).0@ != name@,
            },
    {
        let wanted = name.to_owned();
        let mut at: usize = 0;
        while at < self.variables.entries.len()
            invariant
                at <= self.variables.entries.len(),
                wanted@ == name@,
                forall|j: int| 0 <= j < at ==> (#[trigger] self.variables.entries[j]).0@ != name@,
            decreases self.variables.entries.len() - at,
        {
            if self.variables.entries[at].0 == wanted {
                return Some(at);
            }
            at += 1;
        }
        None
    }

    /// The value under a name.
    pub fn get(&self, name: &str) -> (found: Option<&Datum>)
        ensures
            found is Some <==> self@.dom().contains(name@),
            found matches Some(value) ==> self@[name@] == *value,
    {
        match self.position(name) {
            Some(at) => {
                proof {
                    lemma_lookup_at(self.variables.entries@, name@, at as int);
                }
                Some(&self.variables.entries[at].1)
            },
            None => {
                proof {
                    lemma_lookup_absent(self.variables.entries@, name@);
                }
                None
            },
        }
    }

    /// Puts a value under a name, in the place of what was there.
    pub fn set(&mut self, name: String, value: Datum)
        ensures
            final(self)@ == old(self)@.insert(name@, value),
    {
        let ghost before = self.variables.entries@;
        match self.position(name.as_str()) {
            Some(at) => {
                let entry = (name, value);
                proof {
                    assert forall|key: Seq<char>|
                        lookup(before.update(at as int, entry), key) == (if key == name@ {
                            Some(value)
                        } else {
                            lookup(before, key)
                        }) by {
                        lemma_lookup_replaced(before, at as int, entry, key);
                    }
                }
                self.variables.entries[at] = entry;
            },
            None => {
                let entry = (name, value);
                proof {
                    lemma_lookup_absent(before, name@);
                    assert forall|key: Seq<char>|
                        lookup(before.push(entry), key) == (if key == name@ {
                            Some(value)
                        } else {
                            lookup(before, key)
                        }) by {
                        lemma_lookup_added(before, entry, key);
                    }
                }
                self.variables.entries.push(entry);
            },
        }
        assert(self@ =~= old(self)@.insert(name@, value));
    }

    /// Adds a value at the end of the list under a name. Where the name is
    /// not there yet, it gets a list of this one value. Where it holds
    /// something that is no list, nothing changes and the answer is `false`.
    pub fn push(&mut self, name: String, value: Datum) -> (done: bool)
        ensures
            done == !(old(self)@.dom().contains(name@) && !(old(self)@[name@] is Array)),
            !done ==> final(self)@ == old(self)@,
            done ==> final(self)@.dom() == old(self)@.dom().insert(name@),
            done ==> final(self)@[name@] is Array && final(self)@[name@]->Array_0@ == (if old(
                self,
            )@.dom().contains(name@) {
                old(self)@[name@]->Array_0@.push(value)
            } else {
                seq![value]
            }),
            forall|other: Seq<char>|
                other != name@ && old(self)@.dom().contains(other) ==> #[trigger] final(self)@[other]
                    == old(self)@[other],
    {
        let ghost before = self.variables.entries@;
        match self.position(name.as_str()) {
            Some(at) => {
                proof {
                    lemma_lookup_at(before, name@, at as int);
                }
                let entry = self.variables.entries.remove(at);
                match entry.1 {
                    Datum::Array(items) => {
                        let mut items = items;
                        items.push(value);
                        let grown = (name, Datum::Array(items));
                        proof {
                            assert forall|key: Seq<char>|
                                lookup(before.update(at as int, grown), key) == (if key == name@ {
                                    Some(grown.1)
                                } else {
                                    lookup(before, key)
                                }) by {
                                lemma_lookup_replaced(before, at as int, grown, key);
                            }
                        }
                        self.variables.entries.insert(at, grown);
                        assert(self.variables.entries@ =~= before.update(at as int, grown));
                        assert(self@.dom() =~= old(self)@.dom().insert(name@));
                        true
                    },
                    other => {
                        self.variables.entries.insert(at, (entry.0, other));
                        assert(self.variables.entries@ =~= before);
                        false
                    },
                }
            },
            None => {
                let mut items: Vec<Datum> = Vec::new();
                items.push(value);
                let entry = (name, Datum::Array(items));
                proof {
                    lemma_lookup_absent(before, name@);
                    assert forall|key: Seq<char>|
                        lookup(before.push(entry), key) == (if key == name@ {
                            Some(entry.1)
                        } else {
                            lookup(before, key)
                        }) by {
                        lemma_lookup_added(before, entry, key);
                    }
                }
                self.variables.entries.push(entry);
                assert(self@.dom() =~= old(self)@.dom().insert(name@));
                true
            },
        }
    }

    /// Does what one match asks of the variables: first the assignments of
    /// `set`, then the pushes of `push`, each in table order. The names of
    /// the pushes that found no list come back, in table order.
    pub fn apply(&mut self, set: Table, push: Table) -> (refused: Vec<String>)
        ensures
            pushed_all(assigned(old(self)@, set.entries@), push.entries@, final(self)@),
            refused.deep_view() == refusals(assigned(old(self)@, set.entries@), push.entries@),
    {
        let ghost start = self@;
        let ghost sets = set.entries@;
        let mut rest = reversed(set.entries);
        while rest.len() > 0
            invariant
                rest@ == sets.reverse().take(rest.len() as int),
                rest.len() <= sets.len(),
                self@ == assigned(start, sets.take(sets.len() - rest.len())),
            decreases rest.len(),
        {
            let ghost done = sets.len() - rest.len();
            let entry = rest.pop().unwrap();
            assert(entry == sets[done]);
            assert(sets.take(done + 1).drop_last() =~= sets.take(done));
            self.set(entry.0, entry.1);
        }
        assert(sets.take(sets.len() as int) =~= sets);
        let ghost mid = self@;
        let ghost pushes = push.entries@;
        let mut rest = reversed(push.entries);
        let mut refused: Vec<String> = Vec::new();
        assert(refused.deep_view() =~= refusals(mid, pushes.take(0)));
        assert forall|name: Seq<char>| #[trigger] pushed_under(mid, pushes.take(0), mid, name) by {
            assert(brought(pushes.take(0), name).len() == 0);
        }
        while rest.len() > 0
            invariant
                rest@ == pushes.reverse().take(rest.len() as int),
                rest.len() <= pushes.len(),
                pushed_all(mid, pushes.take(pushes.len() - rest.len()), self@),
                refused.deep_view() == refusals(mid, pushes.take(pushes.len() - rest.len())),
            decreases rest.len(),
        {
            let ghost done = pushes.len() - rest.len();
            let ghost before = self@;
            let ghost refused_before = refused.deep_view();
            let entry = rest.pop().unwrap();
            assert(entry == pushes[done]);
            let name = entry.0;
            let value = entry.1;
            let kept = name.clone();
            let ghost earlier = pushes.take(done);
            let ghost now = pushes.take(done + 1);
            proof {
                assert(now.drop_last() =~= earlier);
                assert(now.last() == entry);
                assert(pushed_under(mid, earlier, before, name@));
            }
            let pushed = self.push(name, value);
            proof {
                assert(pushed == !blocked(mid, name@));
                assert forall|other: Seq<char>| #[trigger]
                    pushed_under(mid, now, self@, other) by {
                    assert(pushed_under(mid, earlier, before, other));
                    if other == name@ {
                        if !blocked(mid, other) {
                            assert(brought(now, other) =~= brought(earlier, other).push(value));
                            assert(self@[other]->Array_0@ =~= items_under(mid, other) + brought(
                                now,
                                other,
                            ));
                        }
                    } else {
                        assert(brought(now, other) == brought(earlier, other));
                    }
                }
            }
            if !pushed {
                refused.push(kept);
                assert(refused.deep_view() =~= refused_before.push(name@));
            }
        }
        assert(pushes.take(pushes.len() as int) =~= pushes);
        refused
    }

    /// The variables as a table: each name once, in the order in which the
    /// names came.
    pub fn into_table(self) -> (table: Table)
        ensures
            table_map(table.entries@) == self@,
    {
        self.variables
    }
}

} // verus!
