//! The fragment store held in memory: a map from cache keys to fragments,
//! each with the time at which it was stored.
//!
//! A fragment is written once. A later write under the same key changes
//! nothing, so the first writer wins and nothing is ever overwritten.

use vstd::prelude::*;
use crate::error::CacheError;
use crate::eviction::{age, age_at, verdict, verdict_of, Verdict};
use crate::table::Table;

verus! {

/// A stored fragment as plain values.
pub struct Fragment {
    /// The fragment text, verbatim.
    pub text: Seq<char>,
    /// The time in seconds at which the fragment was stored.
    pub created: u64,
}

/// A stored fragment.
#[derive(Debug)]
pub struct StoredFragment {
    text: String,
    created: u64,
}

impl View for StoredFragment {
    type V = Fragment;

    closed spec fn view(&self) -> Fragment {
        Fragment { text: self.text@, created: self.created }
    }
}

/// The age at `now` of the fragment stored under `key`, or `None` where
/// there is none.
pub open spec fn age_in(fragments: Map<Seq<char>, Fragment>, key: Seq<char>, now: u64) -> Option<
    u64,
> {
    if fragments.contains_key(key) {
        Some(age_at(now, fragments[key].created))
    } else {
        None
    }
}

/// The store after a write of `text` under `key` at `now`: unchanged where
/// `key` already holds a fragment.
pub open spec fn after_write(
    fragments: Map<Seq<char>, Fragment>,
    key: Seq<char>,
    text: Seq<char>,
    now: u64,
) -> Map<Seq<char>, Fragment> {
    if fragments.contains_key(key) {
        fragments
    } else {
        fragments.insert(key, Fragment { text, created: now })
    }
}

/// Whether a lookup of `key` at `now` under the time to live `ttl_seconds`
/// finds a fragment that has expired.
pub open spec fn expires(
    fragments: Map<Seq<char>, Fragment>,
    key: Seq<char>,
    ttl_seconds: i64,
    now: u64,
) -> bool {
    verdict_of(ttl_seconds, age_in(fragments, key, now)) == Verdict::Evict
}

/// The ending of the name of the file that holds a fragment.
pub const ENTRY_SUFFIX: &'static str = ".html";

/// How a write to the store went.
#[derive(Debug, Clone, Copy, PartialEq, Eq, Structural)]
pub enum WriteOutcome {
    /// The fragment was stored.
    Created,
    /// A fragment was stored under the key already and was left as it was.
    AlreadyPresent,
    /// The store could not take the fragment.
    Failed,
}

/// Whether a write with the outcome `outcome` counts as done: the first
/// writer wins, and a later one has nothing left to do.
pub open spec fn accepted(outcome: WriteOutcome) -> bool {
    outcome != WriteOutcome::Failed
}

/// A second write under a key changes nothing, whatever it wants to write:
/// the store and the text under the key stay as the first write left them.
pub proof fn lemma_write_once(
    fragments: Map<Seq<char>, Fragment>,
    key: Seq<char>,
    first: Seq<char>,
    first_at: u64,
    second: Seq<char>,
    second_at: u64,
)
    ensures
        after_write(after_write(fragments, key, first, first_at), key, second, second_at)
            == after_write(fragments, key, first, first_at),
        after_write(fragments, key, first, first_at).contains_key(key),
        !fragments.contains_key(key) ==> after_write(
            after_write(fragments, key, first, first_at),
            key,
            second,
            second_at,
        )[key].text == first,
{
}

/// With a time to live of zero or less, no fragment expires, however old.
pub proof fn lemma_never_expires(
    fragments: Map<Seq<char>, Fragment>,
    key: Seq<char>,
    ttl_seconds: i64,
    now: u64,
)
    requires
        ttl_seconds <= 0,
    ensures
        !expires(fragments, key, ttl_seconds, now),
{
}

/// A fragment is kept while its age is at most the time to live, and expires
/// as soon as its age is greater.
pub proof fn lemma_expiry_boundary(
    fragments: Map<Seq<char>, Fragment>,
    key: Seq<char>,
    ttl_seconds: i64,
    now: u64,
)
    requires
        fragments.contains_key(key),
        ttl_seconds > 0,
    ensures
        expires(fragments, key, ttl_seconds, now) <==> age_at(now, fragments[key].created)
            > ttl_seconds,
{
}

/// Whether a write with the outcome `outcome` counts as done.
pub fn write_accepted(outcome: WriteOutcome) -> (done: bool)
    ensures
        done == accepted(outcome),
{
    match outcome {
        WriteOutcome::Created => true,
        WriteOutcome::AlreadyPresent => true,
        WriteOutcome::Failed => false,
    }
}

/// The name of the file that holds the fragment stored under `key` in a
/// cache directory: the key followed by `.html`.
pub fn entry_file_name(key: &str) -> (name: String)
    ensures
        name@ == key@ + ENTRY_SUFFIX@,
{
    let mut name = String::from_str(key);
    name.append(ENTRY_SUFFIX);
    name
}

/// Whether an entry of the cache directory is removed at startup: with the
/// purge flag set, every regular file directly inside the directory is.
pub fn purges(purge: bool, regular_file: bool) -> (removed: bool)
    ensures
        removed == (purge && regular_file),
{
    purge && regular_file
}

/// A store of fragments in memory.
#[derive(Debug)]
pub struct FragmentStore {
    table: Table<StoredFragment>,
}

impl View for FragmentStore {
    type V = Map<Seq<char>, Fragment>;

    /// The fragments by key, as plain values.
    closed spec fn view(&self) -> Map<Seq<char>, Fragment> {
        Map::new(
            |key: Seq<char>| self.table@.contains_key(key),
            |key: Seq<char>| self.table@[key]@,
        )
    }
}

impl FragmentStore {
    /// The invariant of the type: at most one fragment is stored under a key.
    pub closed spec fn wf(&self) -> bool {
        self.table.wf()
    }

    /// Creates an empty store.
    pub fn new() -> (store: Self)
        ensures
            store.wf(),
            store@ == Map::<Seq<char>, Fragment>::empty(),
    {
        let store = FragmentStore { table: Table::new() };
        proof {
            assert(store@ =~= Map::<Seq<char>, Fragment>::empty());
        }
        store
    }

    /// The number of stored fragments.
    pub fn len(&self) -> (n: usize)
        requires
            self.wf(),
        ensures
            self@.dom().finite(),
            n == self@.dom().len(),
    {
        proof {
            assert(self@.dom() =~= self.table@.dom());
        }
        self.table.len()
    }

    /// Whether a fragment is stored under `key`.
    pub fn contains(&self, key: &str) -> (present: bool)
        ensures
            present == self@.contains_key(key@),
    {
        self.table.contains(key)
    }

    /// The age in seconds at `now` of the fragment stored under `key`, or
    /// `None` where there is none.
    pub fn probe(&self, key: &str, now: u64) -> (found: Option<u64>)
        requires
            self.wf(),
        ensures
            found == age_in(self@, key@, now),
    {
        match self.table.get(key) {
            Some(fragment) => Some(age(now, fragment.created)),
            None => None,
        }
    }

    /// The text of the fragment stored under `key`.
    ///
    /// Fails with `NotFound` exactly when nothing is stored under `key`.
    pub fn read(&self, key: &str) -> (res: Result<&str, CacheError>)
        requires
            self.wf(),
        ensures
            match res {
                Ok(text) => self@.contains_key(key@) && text@ == self@[key@].text,
                Err(e) => e == CacheError::NotFound && !self@.contains_key(key@),
            },
    {
        match self.table.get(key) {
            Some(fragment) => Ok(fragment.text.as_str()),
            None => Err(CacheError::NotFound),
        }
    }

    /// Stores `text` under `key` with the creation time `now`, unless a
    /// fragment is already stored under `key`: then nothing changes. The
    /// outcome says which of the two it was; a store in memory never fails.
    pub fn write(&mut self, key: &str, text: &str, now: u64) -> (outcome: WriteOutcome)
        requires
            old(self).wf(),
        ensures
            final(self).wf(),
            outcome == if old(self)@.contains_key(key@) {
                WriteOutcome::AlreadyPresent
            } else {
                WriteOutcome::Created
            },
            final(self)@ == after_write(old(self)@, key@, text@, now),
    {
        if self.table.contains(key) {
            return WriteOutcome::AlreadyPresent;
        }
        let fragment = StoredFragment { text: text.to_owned(), created: now };
        self.table.insert(key.to_owned(), fragment);
        proof {
            assert(self@ =~= after_write(old(self)@, key@, text@, now));
        }
        WriteOutcome::Created
    }

    /// Removes the fragment stored under `key` and says whether there was
    /// one.
    pub fn remove(&mut self, key: &str) -> (removed: bool)
        requires
            old(self).wf(),
        ensures
            final(self).wf(),
            removed == old(self)@.contains_key(key@),
            final(self)@ == old(self)@.remove(key@),
    {
        let removed = self.table.remove(key).is_some();
        proof {
            assert(self@ =~= old(self)@.remove(key@));
        }
        removed
    }

    /// Checks the fragment stored under `key` against the time to live
    /// `ttl_seconds` and removes it if it has expired. Returns whether it
    /// did; where nothing is stored under `key`, nothing has expired.
    pub fn should_evict(&mut self, key: &str, ttl_seconds: i64, now: u64) -> (evicted: bool)
        requires
            old(self).wf(),
        ensures
            final(self).wf(),
            evicted == expires(old(self)@, key@, ttl_seconds, now),
            final(self)@ == if evicted {
                old(self)@.remove(key@)
            } else {
                old(self)@
            },
    {
        match verdict(ttl_seconds, self.probe(key, now)) {
            Verdict::Evict => {
                self.remove(key);
                true
            },
            _ => false,
        }
    }

    /// Removes every fragment.
    pub fn purge(&mut self)
        ensures
            final(self).wf(),
            final(self)@ == Map::<Seq<char>, Fragment>::empty(),
    {
        self.table.clear();
        proof {
            assert(self@ =~= Map::<Seq<char>, Fragment>::empty());
        }
    }
}

} // verus!
