//! Loosely typed configuration values and the ordered tables that hold them.
use vstd::prelude::*;

verus! {

/// A TOML value handed through unread: floats and datetimes travel in it.
#[verifier::external_type_specification]
#[verifier::external_body]
pub struct ExTomlValue(toml::Value);

/// A configuration value: a closed set of variants. Floats and datetimes are
/// carried as the TOML values they came in; nothing here looks inside them.
#[derive(Debug, PartialEq)]
pub enum Datum {
    String(String),
    Integer(i64),
    Float(toml::Value),
    Boolean(bool),
    Datetime(toml::Value),
    Array(Vec<Datum>),
    Table(Table),
}

/// A table: entries in the order in which they were handed over (a parsed
/// document hands them over sorted by key). Where a key occurs twice, the
/// first entry is the one that counts.
#[derive(Debug, PartialEq)]
pub struct Table {
    pub entries: Vec<(String, Datum)>,
}

/// The value of the first entry under `key`.
pub open spec fn lookup(entries: Seq<(String, Datum)>, key: Seq<char>) -> Option<Datum>
    decreases entries.len(),
{
    if entries.len() == 0 {
        None
    } else if entries[0].0@ == key {
        Some(entries[0].1)
    } else {
        lookup(entries.skip(1), key)
    }
}

/// The key of the first entry whose key is not among `known`.
pub open spec fn first_unknown(entries: Seq<(String, Datum)>, known: Seq<Seq<char>>) -> Option<
    Seq<char>,
>
    decreases entries.len(),
{
    if entries.len() == 0 {
        None
    } else if !known.contains(entries[0].0@) {
        Some(entries[0].0@)
    } else {
        first_unknown(entries.skip(1), known)
    }
}

/// No two of `keys` are the same text.
pub open spec fn distinct(keys: Seq<Seq<char>>) -> bool {
    forall|i: int, j: int| 0 <= i < j < keys.len() ==> keys[i] != keys[j]
}

/// What `lookup` finds is an entry of the table under that key, and no entry
/// before it has the key; where it finds nothing, no entry has the key.
pub proof fn lemma_lookup_is_first(entries: Seq<(String, Datum)>, key: Seq<char>)
    ensures
        match lookup(entries, key) {
            Some(found) => exists|i: int|
                0 <= i < entries.len() && (#[trigger] entries[i]).0@ == key && entries[i].1 == found
                    && forall|j: int| 0 <= j < i ==> (#[trigger] entries[j]).0@ != key,
            None => forall|j: int| 0 <= j < entries.len() ==> (#[trigger] entries[j]).0@ != key,
        },
    decreases entries.len(),
{
    if entries.len() != 0 && entries[0].0@ != key {
        let rest = entries.skip(1);
        lemma_lookup_is_first(rest, key);
        match lookup(rest, key) {
            Some(found) => {
                let i = choose|i: int|
                    0 <= i < rest.len() && (#[trigger] rest[i]).0@ == key && rest[i].1 == found
                        && forall|j: int| 0 <= j < i ==> (#[trigger] rest[j]).0@ != key;
                assert(entries[i + 1] == rest[i]);
                assert forall|j: int| 0 <= j < i + 1 implies (#[trigger] entries[j]).0@ != key by {
                    if j > 0 {
                        assert(entries[j] == rest[j - 1]);
                    }
                }
            },
            None => {
                assert forall|j: int| 0 <= j < entries.len() implies (#[trigger] entries[j]).0@
                    != key by {
                    if j > 0 {
                        assert(entries[j] == rest[j - 1]);
                    }
                }
            },
        }
    } else if entries.len() != 0 {
        assert(entries[0].0@ == key);
    }
}

/// One step of `lookup` and `first_unknown` from the back: what they give on
/// the entries from `at` on, in terms of what they give from `at + 1` on.
proof fn lemma_step_back(entries: Seq<(String, Datum)>, at: int, key: Seq<char>, known: Seq<Seq<char>>)
    requires
        0 <= at < entries.len(),
    ensures
        lookup(entries.skip(at), key) == if entries[at].0@ == key {
            Some(entries[at].1)
        } else {
            lookup(entries.skip(at + 1), key)
        },
        first_unknown(entries.skip(at), known) == if !known.contains(entries[at].0@) {
            Some(entries[at].0@)
        } else {
            first_unknown(entries.skip(at + 1), known)
        },
{
    assert(entries.skip(at).skip(1) =~= entries.skip(at + 1));
}

/// An entry under a key that no earlier entry has is the one `lookup` finds.
pub proof fn lemma_lookup_at(entries: Seq<(String, Datum)>, key: Seq<char>, at: int)
    requires
        0 <= at < entries.len(),
        entries[at].0@ == key,
        forall|j: int| 0 <= j < at ==> (#[trigger] entries[j]).0@ != key,
    ensures
        lookup(entries, key) == Some(entries[at].1),
    decreases at,
{
    if at > 0 {
        let rest = entries.skip(1);
        assert(entries[0].0@ != key);
        assert forall|j: int| 0 <= j < at - 1 implies (#[trigger] rest[j]).0@ != key by {
            assert(rest[j] == entries[j + 1]);
        }
        lemma_lookup_at(rest, key, at - 1);
    }
}

/// Where no entry has the key, `lookup` finds nothing.
pub proof fn lemma_lookup_absent(entries: Seq<(String, Datum)>, key: Seq<char>)
    requires
        forall|j: int| 0 <= j < entries.len() ==> (#[trigger] entries[j]).0@ != key,
    ensures
        lookup(entries, key) is None,
    decreases entries.len(),
{
    if entries.len() > 0 {
        let rest = entries.skip(1);
        assert(entries[0].0@ != key);
        assert forall|j: int| 0 <= j < rest.len() implies (#[trigger] rest[j]).0@ != key by {
            assert(rest[j] == entries[j + 1]);
        }
        lemma_lookup_absent(rest, key);
    }
}

/// Putting another value in the place of the first entry under a key
/// changes what is found under that key and under no other.
pub proof fn lemma_lookup_replaced(
    entries: Seq<(String, Datum)>,
    at: int,
    entry: (String, Datum),
    key: Seq<char>,
)
    requires
        0 <= at < entries.len(),
        entries[at].0@ == entry.0@,
        forall|j: int| 0 <= j < at ==> (#[trigger] entries[j]).0@ != entry.0@,
    ensures
        lookup(entries.update(at, entry), key) == if key == entry.0@ {
            Some(entry.1)
        } else {
            lookup(entries, key)
        },
    decreases at,
{
    let now = entries.update(at, entry);
    if at == 0 {
        assert(now.skip(1) =~= entries.skip(1));
    } else {
        let rest = entries.skip(1);
        assert(entries[0].0@ != entry.0@);
        assert(now[0] == entries[0]);
        assert(now.skip(1) =~= rest.update(at - 1, entry));
        assert forall|j: int| 0 <= j < at - 1 implies (#[trigger] rest[j]).0@ != entry.0@ by {
            assert(rest[j] == entries[j + 1]);
        }
        assert(rest[at - 1] == entries[at]);
        lemma_lookup_replaced(rest, at - 1, entry, key);
    }
}

/// An entry added at the end is found under its key where nothing was
/// found before, and changes nothing else.
pub proof fn lemma_lookup_added(entries: Seq<(String, Datum)>, entry: (String, Datum), key: Seq<char>)
    ensures
        lookup(entries.push(entry), key) == if lookup(entries, key) is Some {
            lookup(entries, key)
        } else if key == entry.0@ {
            Some(entry.1)
        } else {
            None
        },
    decreases entries.len(),
{
    let now = entries.push(entry);
    if entries.len() == 0 {
        assert(now.len() == 1 && now[0] == entry);
        assert(now.skip(1) =~= Seq::<(String, Datum)>::empty());
        assert(lookup(now.skip(1), key) is None);
        assert(lookup(entries, key) is None);
    } else {
        let rest = entries.skip(1);
        assert(now[0] == entries[0]);
        assert(now.skip(1) =~= rest.push(entry));
        lemma_lookup_added(rest, entry, key);
        if entries[0].0@ != key {
            assert(lookup(now, key) == lookup(rest.push(entry), key));
            assert(lookup(entries, key) == lookup(rest, key));
        }
    }
}

impl Table {
    pub fn new() -> (table: Table)
        ensures
            table.entries@ == Seq::<(String, Datum)>::empty(),
    {
        Table { entries: Vec::new() }
    }

    /// The value of the first entry under `key`.
    pub fn get(&self, key: &str) -> (found: Option<&Datum>)
        ensures
            found matches Some(value) ==> lookup(self.entries@, key@) == Some(*value),
            found is None ==> lookup(self.entries@, key@) is None,
    {
        let wanted = key.to_owned();
        let mut at: usize = 0;
        assert(self.entries@.skip(0) =~= self.entries@);
        while at < self.entries.len()
            invariant
                at <= self.entries.len(),
                wanted@ == key@,
                lookup(self.entries@, key@) == lookup(self.entries@.skip(at as int), key@),
            decreases self.entries.len() - at,
        {
            proof {
                lemma_step_back(self.entries@, at as int, key@, Seq::empty());
            }
            if self.entries[at].0 == wanted {
                return Some(&self.entries[at].1);
            }
            at += 1;
        }
        None
    }

    /// Takes the table apart by key: for each of `keys` the value of its first
    /// entry, and the first key of the table that is none of them.
    pub fn extract(self, keys: &Vec<String>) -> (out: (Vec<Option<Datum>>, Option<String>))
        requires
            distinct(keys.deep_view()),
        ensures
            out.0.len() == keys.len(),
            forall|j: int|
                0 <= j < keys.len() ==> #[trigger] out.0[j] == lookup(self.entries@, keys[j]@),
            out.1 is Some <==> first_unknown(self.entries@, keys.deep_view()) is Some,
            out.1 matches Some(key) ==> first_unknown(self.entries@, keys.deep_view()) == Some(
                key@,
            ),
    {
        let ghost all = self.entries@;
        let ghost known = keys.deep_view();
        let mut entries = self.entries;
        let mut found: Vec<Option<Datum>> = Vec::new();
        let mut filled: usize = 0;
        while filled < keys.len()
            invariant
                filled <= keys.len(),
                found.len() == filled,
                forall|j: int| 0 <= j < filled ==> #[trigger] found[j] == None::<Datum>,
            decreases keys.len() - filled,
        {
            found.push(None);
            filled += 1;
        }
        let mut unknown: Option<String> = None;
        assert(all.skip(all.len() as int) =~= Seq::<(String, Datum)>::empty());
        while entries.len() > 0
            invariant
                entries@ == all.take(entries.len() as int),
                entries.len() <= all.len(),
                known == keys.deep_view(),
                distinct(known),
                found.len() == keys.len(),
                forall|j: int|
                    0 <= j < keys.len() ==> #[trigger] found[j] == lookup(
                        all.skip(entries.len() as int),
                        keys[j]@,
                    ),
                unknown is Some <==> first_unknown(all.skip(entries.len() as int), known) is Some,
                unknown matches Some(key) ==> first_unknown(all.skip(entries.len() as int), known)
                    == Some(key@),
            decreases entries.len(),
        {
            let ghost at = entries.len() - 1;
            let entry = entries.pop().unwrap();
            let key = entry.0;
            let value = entry.1;
            assert(all[at] == (key, value));
            let mut slot: usize = 0;
            while slot < keys.len() && !(keys[slot] == key)
                invariant
                    slot <= keys.len(),
                    forall|j: int| 0 <= j < slot ==> (#[trigger] keys[j])@ != key@,
                decreases keys.len() - slot,
            {
                slot += 1;
            }
            proof {
                assert forall|j: int| 0 <= j < keys.len() implies lookup(
                    all.skip(at),
                    #[trigger] keys[j]@,
                ) == if all[at].0@ == keys[j]@ {
                    Some(all[at].1)
                } else {
                    lookup(all.skip(at + 1), keys[j]@)
                } by {
                    lemma_step_back(all, at, keys[j]@, known);
                }
                lemma_step_back(all, at, key@, known);
            }
            if slot < keys.len() {
                proof {
                    assert(known[slot as int] == key@);
                    assert(known.contains(key@));
                    assert forall|j: int| 0 <= j < keys.len() && j != slot implies (
                    #[trigger] keys[j])@ != key@ by {
                        assert(known[j] == keys[j]@);
                        if j < slot {
                            assert(known[j] != known[slot as int]);
                        } else {
                            assert(known[slot as int] != known[j]);
                        }
                    }
                }
                found[slot] = Some(value);
            } else {
                proof {
                    assert forall|j: int| 0 <= j < known.len() implies known[j] != key@ by {
                        assert(known[j] == keys[j]@);
                    }
                    assert(!known.contains(key@));
                }
                unknown = Some(key);
            }
        }
        assert(all.skip(0) =~= all);
        (found, unknown)
    }
}

/// What the TOML value serializer writes for a value: its TOML notation,
/// or nothing where the serializer refuses the value (a datetime inside an
/// array or table whose own notation is no datetime).
pub uninterp spec fn toml_display(value: toml::Value) -> Option<Seq<char>>;

/// The TOML value that a datum stands for.
pub uninterp spec fn exported(datum: Datum) -> toml::Value;

/// Rebuilds the TOML value that a datum stands for, variant by variant: a
/// string, integer or boolean as itself, a float or datetime as the value it
/// carries, an array and a table item by item (a table through
/// `toml::Table`'s `FromIterator`). The contract only names the result.
#[verifier::external_body]
fn export(datum: &Datum) -> (out: toml::Value)
    ensures
        out == exported(*datum),
{
    match datum {
        Datum::String(s) => toml::Value::String(s.clone()),
        Datum::Integer(i) => toml::Value::Integer(*i),
        Datum::Float(v) => v.clone(),
        Datum::Boolean(b) => toml::Value::Boolean(*b),
        Datum::Datetime(v) => v.clone(),
        Datum::Array(a) => toml::Value::Array(a.iter().map(export).collect()),
        Datum::Table(t) => toml::Value::Table(
            t.entries.iter().map(|e| (e.0.clone(), export(&e.1))).collect(),
        ),
    }
}

/// Serializes a `toml::Value` with `toml::ser::ValueSerializer`, which is
/// what its `Display` does, and hands the text back, or `None` where the
/// serializer returns an error (`Display` would panic there). The contract
/// only names the result.
#[verifier::external_body]
fn display(value: &toml::Value) -> (text: Option<String>)
    ensures
        text matches Some(written) ==> toml_display(*value) == Some(written@),
        text is None ==> toml_display(*value) is None,
{
    let mut written = String::new();
    match serde::Serialize::serialize(value, toml::ser::ValueSerializer::new(&mut written)) {
        Ok(_) => Some(written),
        Err(_) => None,
    }
}

/// The text a value turns into: a string is its own text, anything else is
/// written the way TOML writes it, where TOML can write it.
pub open spec fn text_of(value: Datum) -> Option<Seq<char>> {
    match value {
        Datum::String(s) => Some(s@),
        _ => toml_display(exported(value)),
    }
}

/// Turns a value into text: a string as it is, without quotes; any other
/// value in its TOML notation. A value that TOML cannot write gives `None`.
pub fn value_to_string(value: Datum) -> (text: Option<String>)
    ensures
        text matches Some(written) ==> text_of(value) == Some(written@),
        text is None ==> text_of(value) is None,
{
    match value {
        Datum::String(s) => Some(s),
        other => {
            let tree = export(&other);
            display(&tree)
        },
    }
}

} // verus!
