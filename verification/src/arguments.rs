//! The arguments of one shortcode invocation.

use vstd::prelude::*;
use crate::table::{distinct_keys, has_key, index_of, lemma_map_of_entry, map_of, Table};
use crate::text::text_of;

verus! {

/// Makes `tera::Value`, the value of a template argument, known to the
/// verifier as a type whose inside it does not see.
#[verifier::external_type_specification]
#[verifier::external_body]
pub struct ExValue(tera::Value);

/// The string that a template value holds, or `None` where it holds anything
/// else.
pub uninterp spec fn value_text(value: tera::Value) -> Option<Seq<char>>;

/// `serde_json::Value::as_str`, reached as `tera::Value::as_str`: returns the
/// string inside a `Value::String` and `None` for every other variant. The
/// contract names that string and claims nothing else.
pub assume_specification<'a>[ tera::Value::as_str ](value: &'a tera::Value) -> (text: Option<
    &'a str,
>)
    ensures
        text_of(text) == value_text(*value),
;

/// The value of one argument.
#[derive(Debug, PartialEq, Eq)]
pub enum ArgValue {
    /// A string, possibly still wrapped in quotes.
    Text(String),
    /// Anything that is not a string.
    Other,
}

impl View for ArgValue {
    type V = Option<Seq<char>>;

    /// The text of the value, or `None` where it is not a string.
    open spec fn view(&self) -> Option<Seq<char>> {
        match self {
            ArgValue::Text(s) => Some(s@),
            ArgValue::Other => None,
        }
    }
}

impl ArgValue {
    /// The argument value for what a template value holds as a string:
    /// `Text` where it holds one, `Other` where it holds none.
    pub fn from_text(text: Option<&str>) -> (arg: ArgValue)
        ensures
            arg@ == text_of(text),
    {
        match text {
            Some(s) => ArgValue::Text(s.to_owned()),
            None => ArgValue::Other,
        }
    }

    /// The argument value that stands for a template value.
    pub fn from_value(value: &tera::Value) -> (arg: ArgValue)
        ensures
            arg@ == value_text(*value),
    {
        ArgValue::from_text(value.as_str())
    }

    /// The text of the value, if it is a string.
    pub fn as_text(&self) -> (text: Option<&str>)
        ensures
            text_of(text) == self@,
    {
        match self {
            ArgValue::Text(s) => Some(s.as_str()),
            ArgValue::Other => None,
        }
    }
}

/// Argument entries as plain values: each key with the text of its value.
pub type ArgEntries = Seq<(Seq<char>, Option<Seq<char>>)>;

/// The plain values of a sequence of argument entries.
pub open spec fn plain_entries(entries: Seq<(Seq<char>, ArgValue)>) -> ArgEntries {
    entries.map_values(|entry: (Seq<char>, ArgValue)| (entry.0, entry.1@))
}

/// The set of arguments of one shortcode invocation: parameter names with
/// their values. No name occurs twice.
#[derive(Debug)]
pub struct Arguments {
    table: Table<ArgValue>,
}

impl View for Arguments {
    type V = ArgEntries;

    /// The entries in insertion order, as plain values.
    closed spec fn view(&self) -> ArgEntries {
        plain_entries(self.table.entries())
    }
}

impl Arguments {
    /// The invariant of the type: no parameter name occurs twice.
    pub closed spec fn wf(&self) -> bool {
        self.table.wf()
    }

    /// A well-formed argument set has distinct names.
    pub proof fn lemma_wf_distinct(&self)
        requires
            self.wf(),
        ensures
            distinct_keys(self@),
    {
        let entries = self.table.entries();
        assert forall|i: int, j: int| 0 <= i < j < self@.len() implies
            (#[trigger] self@[i]).0 != (#[trigger] self@[j]).0 by {
            assert(entries[i].0 != entries[j].0);
        }
    }

    /// Creates an empty argument set.
    pub fn new() -> (args: Self)
        ensures
            args.wf(),
            args@ == ArgEntries::empty(),
    {
        let args = Arguments { table: Table::new() };
        proof {
            assert(args@ =~= ArgEntries::empty());
        }
        args
    }

    /// The number of arguments.
    pub fn len(&self) -> (n: usize)
        ensures
            n == self@.len(),
    {
        self.table.len()
    }

    /// The name of the argument at index `i`.
    pub fn key_at(&self, i: usize) -> (key: &str)
        requires
            i < self@.len(),
        ensures
            key@ == self@[i as int].0,
    {
        self.table.key_at(i)
    }

    /// The value of the argument at index `i`.
    pub fn value_at(&self, i: usize) -> (value: &ArgValue)
        requires
            i < self@.len(),
        ensures
            value@ == self@[i as int].1,
    {
        self.table.value_at(i)
    }

    /// The value of the argument named `key`, if there is one.
    pub fn get(&self, key: &str) -> (value: Option<&ArgValue>)
        requires
            self.wf(),
        ensures
            match value {
                Some(v) => has_key(self@, key@) && v@ == map_of(self@)[key@],
                None => !has_key(self@, key@),
            },
    {
        let ghost entries = self.table.entries();
        match self.table.position(key) {
            Some(i) => {
                proof {
                    self.lemma_wf_distinct();
                    assert(self@[i as int].0 == key@);
                    lemma_map_of_entry(self@, i as int);
                }
                Some(self.table.value_at(i))
            },
            None => {
                proof {
                    if has_key(self@, key@) {
                        let i = index_of(self@, key@);
                        assert(entries[i].0 == key@);
                    }
                }
                None
            },
        }
    }

    /// Adds the argument `key` with `value`. Where `key` is already present
    /// its value is replaced in place; otherwise the argument goes to the end.
    pub fn with(self, key: &str, value: ArgValue) -> (args: Self)
        requires
            self.wf(),
        ensures
            args.wf(),
            args@ == if has_key(self@, key@) {
                self@.update(index_of(self@, key@), (key@, value@))
            } else {
                self@.push((key@, value@))
            },
    {
        let ghost before = self.table.entries();
        let ghost value_view = value@;
        let mut table = self.table;
        proof {
            self.lemma_wf_distinct();
            if has_key(before, key@) {
                let i = index_of(before, key@);
                assert(self@[i].0 == key@);
                lemma_map_of_entry(self@, i);
            } else if has_key(self@, key@) {
                let i = index_of(self@, key@);
                assert(before[i].0 == key@);
            }
        }
        table.insert(key.to_owned(), value);
        let args = Arguments { table };
        proof {
            if has_key(self@, key@) {
                let i = index_of(self@, key@);
                assert(before[i].0 == key@);
                lemma_map_of_entry(before, i);
                assert(args@ =~= self@.update(i, (key@, value_view)));
            } else {
                assert(args@ =~= self@.push((key@, value_view)));
            }
        }
        args
    }

    /// Adds the argument `key` with the string `text` as its value.
    pub fn with_text(self, key: &str, text: &str) -> (args: Self)
        requires
            self.wf(),
        ensures
            args.wf(),
            args@ == if has_key(self@, key@) {
                self@.update(index_of(self@, key@), (key@, Some(text@)))
            } else {
                self@.push((key@, Some(text@)))
            },
    {
        self.with(key, ArgValue::Text(text.to_owned()))
    }
}

} // verus!
