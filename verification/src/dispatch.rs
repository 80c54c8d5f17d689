//! The dispatcher: what happens when a page refers to a shortcode.
//!
//! A dispatch alternates decisions with work that only its driver can do:
//! looking at the store, calling the shortcode function, writing the result.
//! `Dispatch` holds the decisions. It asks for one `Action` at a time and
//! takes the `Event` that reports how the action went. `Shortcodes::dispatch`
//! drives it against a store in memory.

use vstd::prelude::*;
use crate::arguments::{ArgEntries, Arguments};
use crate::canonical::{all_text, unquote, unquoted, ROTATE};
use crate::error::CacheError;
use crate::eviction::{age_at, expired, rotate_of, rotate_seconds, verdict, verdict_of, Verdict};
use crate::key::{cache_key, cache_key_of};
use crate::registry::Shortcodes;
use crate::store::{accepted, expires, write_accepted, Fragment, FragmentStore, WriteOutcome};
use crate::table::{has_key, map_of};
use crate::text::owned_text_of;

verus! {

/// The argument that names the shortcode to run.
pub const DISPLAY: &'static str = "display";

/// The fragment shown where the arguments name no shortcode.
pub const MISSING_DISPLAY: &'static str = "Missing display attribute";

/// The start of the fragment shown where no function is registered under the
/// display name; the name follows.
pub const UNKNOWN_DISPLAY: &'static str = "Unknown shortcode display name: ";

/// What a dispatch asks its driver to do next.
#[derive(Debug, PartialEq, Eq)]
pub enum Action {
    /// Find out how old the fragment stored under the key is, if there is one.
    Probe,
    /// Remove the fragment stored under the key.
    Remove,
    /// Read the fragment stored under the key.
    Read,
    /// Call the function registered under the display name.
    Compute,
    /// Store `fragment` under the key, unless a fragment is stored there.
    Write { fragment: String },
    /// Hand `fragment` to the page. The dispatch is over.
    Return { fragment: String },
    /// Give up with `error`. The dispatch is over.
    Fail { error: CacheError },
}

/// An action as plain values.
pub enum Step {
    /// Find out how old the stored fragment is.
    Probe,
    /// Remove the stored fragment.
    Remove,
    /// Read the stored fragment.
    Read,
    /// Call the registered function.
    Compute,
    /// Store this fragment text.
    Write(Seq<char>),
    /// Hand this fragment text to the page.
    Return(Seq<char>),
    /// Give up with this error.
    Fail(CacheError),
}

impl View for Action {
    type V = Step;

    open spec fn view(&self) -> Step {
        match self {
            Action::Probe => Step::Probe,
            Action::Remove => Step::Remove,
            Action::Read => Step::Read,
            Action::Compute => Step::Compute,
            Action::Write { fragment } => Step::Write(fragment@),
            Action::Return { fragment } => Step::Return(fragment@),
            Action::Fail { error } => Step::Fail(*error),
        }
    }
}

/// How an action went.
#[derive(Debug, PartialEq, Eq)]
pub enum Event {
    /// The age in seconds of the fragment stored under the key, or `None`
    /// where nothing is stored there.
    Probed { age: Option<u64> },
    /// Whether the fragment was removed.
    Removed { removed: bool },
    /// The text that was read, or `None` where reading failed.
    Read { text: Option<String> },
    /// The fragment that the function computed, or `None` where no function
    /// is registered under the display name.
    Computed { fragment: Option<String> },
    /// How the write went.
    Written { outcome: WriteOutcome },
}

/// An event as plain values.
pub enum Report {
    /// The age of the stored fragment, if there is one.
    Probed(Option<u64>),
    /// Whether the fragment was removed.
    Removed(bool),
    /// The text that was read, if reading worked.
    Read(Option<Seq<char>>),
    /// The text that was computed, if a function is registered.
    Computed(Option<Seq<char>>),
    /// How the write went.
    Written(WriteOutcome),
}

impl View for Event {
    type V = Report;

    open spec fn view(&self) -> Report {
        match self {
            Event::Probed { age } => Report::Probed(*age),
            Event::Removed { removed } => Report::Removed(*removed),
            Event::Read { text } => Report::Read(owned_text_of(*text)),
            Event::Computed { fragment } => Report::Computed(owned_text_of(*fragment)),
            Event::Written { outcome } => Report::Written(*outcome),
        }
    }
}

/// A dispatch as plain values.
pub struct Progress {
    /// The action that the dispatch is waiting for.
    pub pending: Step,
    /// The cache key of the arguments.
    pub key: Seq<char>,
    /// The display name, unquoted.
    pub display: Seq<char>,
    /// The time to live in seconds.
    pub ttl_seconds: i64,
}

/// Whether the arguments name a shortcode.
pub open spec fn has_display(entries: ArgEntries) -> bool {
    has_key(entries, DISPLAY@)
}

/// The display name that the arguments give, unquoted.
pub open spec fn display_of(entries: ArgEntries) -> Seq<char> {
    match map_of(entries)[DISPLAY@] {
        Some(text) => unquoted(text),
        None => Seq::empty(),
    }
}

/// The fragment shown where no function is registered under `display`.
pub open spec fn unknown_display(display: Seq<char>) -> Seq<char> {
    UNKNOWN_DISPLAY@ + display
}

/// A dispatch that is over before it began, with `pending` as its last word.
pub open spec fn settled(pending: Step) -> Progress {
    Progress { pending, key: Seq::empty(), display: Seq::empty(), ttl_seconds: 0 }
}

/// Where a dispatch of `entries` starts: without a display name it returns
/// the notice at once; with a value that is not a string it fails; otherwise
/// it asks for the age of what is stored under the cache key.
pub open spec fn started(entries: ArgEntries) -> Progress {
    if !has_display(entries) {
        settled(Step::Return(MISSING_DISPLAY@))
    } else if !all_text(entries) {
        settled(Step::Fail(CacheError::InvalidArgument))
    } else {
        Progress {
            pending: Step::Probe,
            key: cache_key_of(entries),
            display: display_of(entries),
            ttl_seconds: rotate_of(entries),
        }
    }
}

/// `progress` with `pending` as the action it waits for.
pub open spec fn asking(progress: Progress, pending: Step) -> Progress {
    Progress { pending, ..progress }
}

/// Where a dispatch goes from `progress` when `report` comes in.
///
/// - Probed: nothing stored leads to the function; a fragment within its time
///   to live is read; an expired one is removed.
/// - Removed: after a removal the function is called; where the removal
///   failed, the stale fragment is read once more.
/// - Read: the text is returned; where reading failed the function is called.
/// - Computed: the fragment is written; where no function is registered the
///   notice about the unknown name is returned and nothing is written.
/// - Written: the fragment is returned, also where the store held one
///   already and kept it; where the write failed the dispatch fails with
///   `IoError`.
///
/// A report that does not answer the pending action changes nothing.
pub open spec fn advanced(progress: Progress, report: Report) -> Progress {
    match (progress.pending, report) {
        (Step::Probe, Report::Probed(age)) => match verdict_of(progress.ttl_seconds, age) {
            Verdict::Absent => asking(progress, Step::Compute),
            Verdict::Keep => asking(progress, Step::Read),
            Verdict::Evict => asking(progress, Step::Remove),
        },
        (Step::Remove, Report::Removed(removed)) => if removed {
            asking(progress, Step::Compute)
        } else {
            asking(progress, Step::Read)
        },
        (Step::Read, Report::Read(text)) => match text {
            Some(t) => asking(progress, Step::Return(t)),
            None => asking(progress, Step::Compute),
        },
        (Step::Compute, Report::Computed(fragment)) => match fragment {
            Some(f) => asking(progress, Step::Write(f)),
            None => asking(progress, Step::Return(unknown_display(progress.display))),
        },
        (Step::Write(fragment), Report::Written(outcome)) => if accepted(outcome) {
            asking(progress, Step::Return(fragment))
        } else {
            asking(progress, Step::Fail(CacheError::IoError))
        },
        _ => progress,
    }
}

/// The result of a dispatch that is over, as plain values.
pub open spec fn result_of(pending: Step) -> Option<Result<Seq<char>, CacheError>> {
    match pending {
        Step::Return(fragment) => Some(Ok(fragment)),
        Step::Fail(error) => Some(Err(error)),
        _ => None,
    }
}

/// A result as plain values.
pub open spec fn plain_result(res: Result<String, CacheError>) -> Result<Seq<char>, CacheError> {
    match res {
        Ok(text) => Ok(text@),
        Err(e) => Err(e),
    }
}

/// An optional result as plain values.
pub open spec fn plain_finish(res: Option<Result<String, CacheError>>) -> Option<
    Result<Seq<char>, CacheError>,
> {
    match res {
        Some(r) => Some(plain_result(r)),
        None => None,
    }
}

/// The fragment shown where no function is registered under `display`.
pub fn unknown_display_text(display: &str) -> (text: String)
    ensures
        text@ == unknown_display(display@),
{
    let mut text = String::from_str(UNKNOWN_DISPLAY);
    text.append(display);
    text
}

/// One dispatch of a shortcode: its cache key, display name and time to live,
/// and the action it is waiting for.
#[derive(Debug)]
pub struct Dispatch {
    pending: Action,
    key: String,
    display: String,
    ttl_seconds: i64,
}

impl View for Dispatch {
    type V = Progress;

    closed spec fn view(&self) -> Progress {
        Progress {
            pending: self.pending@,
            key: self.key@,
            display: self.display@,
            ttl_seconds: self.ttl_seconds,
        }
    }
}

impl Dispatch {
    fn settle(pending: Action) -> (dispatch: Dispatch)
        ensures
            dispatch@ == settled(pending@),
    {
        Dispatch { pending, key: String::new(), display: String::new(), ttl_seconds: 0 }
    }

    /// Starts a dispatch of `args`.
    pub fn begin(args: &Arguments) -> (dispatch: Dispatch)
        requires
            args.wf(),
        ensures
            dispatch@ == started(args@),
    {
        let display = match args.get(DISPLAY) {
            Some(value) => value,
            None => {
                return Dispatch::settle(
                    Action::Return { fragment: String::from_str(MISSING_DISPLAY) },
                );
            },
        };
        let key = match cache_key(args) {
            Ok(key) => key,
            Err(error) => {
                return Dispatch::settle(Action::Fail { error });
            },
        };
        let display = match display.as_text() {
            Some(text) => unquote(text).to_owned(),
            None => String::new(),
        };
        Dispatch { pending: Action::Probe, key, display, ttl_seconds: rotate_seconds(args) }
    }

    /// The action that the dispatch is waiting for.
    pub fn pending(&self) -> (action: &Action)
        ensures
            action@ == self@.pending,
    {
        &self.pending
    }

    /// The cache key under which the fragment is stored.
    pub fn key(&self) -> (key: &str)
        ensures
            key@ == self@.key,
    {
        self.key.as_str()
    }

    /// The display name of the shortcode, unquoted.
    pub fn display(&self) -> (display: &str)
        ensures
            display@ == self@.display,
    {
        self.display.as_str()
    }

    /// The time to live in seconds; zero or less where the fragment never
    /// expires.
    pub fn ttl_seconds(&self) -> (ttl_seconds: i64)
        ensures
            ttl_seconds == self@.ttl_seconds,
    {
        self.ttl_seconds
    }

    fn ask(self, pending: Action) -> (dispatch: Dispatch)
        ensures
            dispatch@ == asking(self@, pending@),
    {
        Dispatch { pending, key: self.key, display: self.display, ttl_seconds: self.ttl_seconds }
    }

    /// Takes in the report on the pending action and moves on to the next.
    pub fn advance(self, event: Event) -> (dispatch: Dispatch)
        ensures
            dispatch@ == advanced(self@, event@),
    {
        match (&self.pending, event) {
            (Action::Probe, Event::Probed { age }) => match verdict(self.ttl_seconds, age) {
                Verdict::Absent => self.ask(Action::Compute),
                Verdict::Keep => self.ask(Action::Read),
                Verdict::Evict => self.ask(Action::Remove),
            },
            (Action::Remove, Event::Removed { removed }) => {
                if removed {
                    self.ask(Action::Compute)
                } else {
                    self.ask(Action::Read)
                }
            },
            (Action::Read, Event::Read { text }) => match text {
                Some(fragment) => self.ask(Action::Return { fragment }),
                None => self.ask(Action::Compute),
            },
            (Action::Compute, Event::Computed { fragment }) => match fragment {
                Some(fragment) => self.ask(Action::Write { fragment }),
                None => {
                    let fragment = unknown_display_text(self.display.as_str());
                    self.ask(Action::Return { fragment })
                },
            },
            (Action::Write { fragment }, Event::Written { outcome }) => {
                if write_accepted(outcome) {
                    let fragment = fragment.clone();
                    self.ask(Action::Return { fragment })
                } else {
                    self.ask(Action::Fail { error: CacheError::IoError })
                }
            },
            _ => self,
        }
    }

    /// The result of the dispatch, once it is over: the fragment to show, or
    /// the error. `None` while an action is pending.
    pub fn finish(self) -> (res: Option<Result<String, CacheError>>)
        ensures
            plain_finish(res) == result_of(self@.pending),
    {
        match self.pending {
            Action::Return { fragment } => Some(Ok(fragment)),
            Action::Fail { error } => Some(Err(error)),
            _ => None,
        }
    }
}

/// Whether a dispatch of `entries` at `now` is served from `fragments`: a
/// fragment is stored under the cache key and has not expired.
pub open spec fn served_from_cache(
    fragments: Map<Seq<char>, Fragment>,
    entries: ArgEntries,
    now: u64,
) -> bool {
    let key = cache_key_of(entries);
    fragments.contains_key(key) && !expires(fragments, key, rotate_of(entries), now)
}

/// How many more actions a dispatch that waits for `pending` may ask for.
pub open spec fn remaining(pending: Step) -> nat {
    match pending {
        Step::Probe => 5,
        Step::Remove => 4,
        Step::Read => 3,
        Step::Compute => 2,
        Step::Write(_) => 1,
        Step::Return(_) => 0,
        Step::Fail(_) => 0,
    }
}

/// Whether `report` reports on the action `pending`.
pub open spec fn answers(pending: Step, report: Report) -> bool {
    match (pending, report) {
        (Step::Probe, Report::Probed(_)) => true,
        (Step::Remove, Report::Removed(_)) => true,
        (Step::Read, Report::Read(_)) => true,
        (Step::Compute, Report::Computed(_)) => true,
        (Step::Write(_), Report::Written(_)) => true,
        _ => false,
    }
}

/// A report on the pending action brings the dispatch closer to its end, so
/// a dispatch is over after five reports at most. Any other report leaves it
/// where it is, and a dispatch that is over stays over.
pub proof fn lemma_advance_makes_progress(progress: Progress, report: Report)
    ensures
        answers(progress.pending, report) ==> remaining(advanced(progress, report).pending)
            < remaining(progress.pending),
        !answers(progress.pending, report) ==> advanced(progress, report) == progress,
        advanced(progress, report).key == progress.key,
        advanced(progress, report).display == progress.display,
        advanced(progress, report).ttl_seconds == progress.ttl_seconds,
{
}

/// A stored fragment that has not expired is read and returned as it was
/// read: the dispatch is over without having asked for the function.
pub proof fn lemma_hit_skips_compute(progress: Progress, age: u64, text: Seq<char>)
    requires
        progress.pending == Step::Probe,
        !expired(progress.ttl_seconds, age),
    ensures
        advanced(progress, Report::Probed(Some(age))).pending == Step::Read,
        advanced(
            advanced(progress, Report::Probed(Some(age))),
            Report::Read(Some(text)),
        ).pending == Step::Return(text),
{
}

/// Where no function is registered under the display name, the dispatch is
/// over with the notice about the unknown name, without having asked for a
/// write.
pub proof fn lemma_unknown_name_writes_nothing(progress: Progress)
    requires
        progress.pending == Step::Compute,
    ensures
        advanced(progress, Report::Computed(None)).pending == Step::Return(
            unknown_display(progress.display),
        ),
{
}

/// Without `rotate`, or with a `rotate` of zero or less, a stored fragment is
/// served whatever its age.
pub proof fn lemma_without_rotate_always_served(
    fragments: Map<Seq<char>, Fragment>,
    entries: ArgEntries,
    now: u64,
)
    requires
        fragments.contains_key(cache_key_of(entries)),
        !has_key(entries, ROTATE@) || rotate_of(entries) <= 0,
    ensures
        served_from_cache(fragments, entries, now),
{
}

/// With a time to live, a stored fragment is served exactly while its age is
/// at most the time to live.
pub proof fn lemma_served_within_time_to_live(
    fragments: Map<Seq<char>, Fragment>,
    entries: ArgEntries,
    now: u64,
)
    requires
        fragments.contains_key(cache_key_of(entries)),
        rotate_of(entries) > 0,
    ensures
        served_from_cache(fragments, entries, now) <==> age_at(
            now,
            fragments[cache_key_of(entries)].created,
        ) <= rotate_of(entries),
{
}

/// A fragment stored at `now` is served to the same arguments at `later`, as
/// it was stored, while its age is at most the time to live, and at any time
/// where the arguments ask for none.
pub proof fn lemma_stored_fragment_is_served(
    fragments: Map<Seq<char>, Fragment>,
    entries: ArgEntries,
    text: Seq<char>,
    now: u64,
    later: u64,
)
    requires
        rotate_of(entries) <= 0 || age_at(later, now) <= rotate_of(entries),
    ensures
        served_from_cache(
            fragments.insert(cache_key_of(entries), Fragment { text, created: now }),
            entries,
            later,
        ),
        fragments.insert(cache_key_of(entries), Fragment { text, created: now })[cache_key_of(
            entries,
        )].text == text,
{
}

/// Whether `text` is the text of a fragment that `shortcode_fn` may compute
/// for `args`.
pub open spec fn may_compute<F: Fn(&Arguments) -> String>(
    shortcode_fn: F,
    args: &Arguments,
    text: Seq<char>,
) -> bool {
    exists|fragment: String| #[trigger]
        call_ensures(shortcode_fn, (args,), fragment) && fragment@ == text
}

/// What a dispatch of `args` at `now` owes: the result `res` and the store
/// `after`, given the registered functions and the store `before`.
///
/// - Without a `display` argument the result is the notice about the missing
///   name, and the store is as before.
/// - With an argument other than `rotate` whose value is not a string the
///   result is `InvalidArgument`, and the store is as before.
/// - Where a fragment is stored under the cache key and has not expired, its
///   text is the result, and the store is as before.
/// - Otherwise an expired fragment is gone from the store. Where no function
///   is registered under the display name, the result is the notice about the
///   unknown name and nothing is stored. Where one is, the result is a
///   fragment that it may compute for `args`, and this fragment is stored
///   under the cache key as created at `now`.
pub open spec fn resolved<F: Fn(&Arguments) -> String>(
    registry: Map<Seq<char>, F>,
    before: Map<Seq<char>, Fragment>,
    args: &Arguments,
    now: u64,
    res: Result<String, CacheError>,
    after: Map<Seq<char>, Fragment>,
) -> bool {
    let key = cache_key_of(args@);
    let display = display_of(args@);
    if !has_display(args@) {
        plain_result(res) == Ok::<Seq<char>, CacheError>(MISSING_DISPLAY@) && after == before
    } else if !all_text(args@) {
        plain_result(res) == Err::<Seq<char>, CacheError>(CacheError::InvalidArgument) && after
            == before
    } else if served_from_cache(before, args@, now) {
        plain_result(res) == Ok::<Seq<char>, CacheError>(before[key].text) && after == before
    } else if !registry.contains_key(display) {
        plain_result(res) == Ok::<Seq<char>, CacheError>(unknown_display(display)) && after
            == before.remove(key)
    } else {
        &&& res matches Ok(fragment)
        &&& may_compute(registry[display], args, fragment@)
        &&& after == before.insert(key, Fragment { text: fragment@, created: now })
    }
}

impl<F: Fn(&Arguments) -> String> Shortcodes<F> {
    /// Resolves one shortcode reference against `store` at the time `now`:
    /// from the store where it holds a fragment that has not expired, else
    /// by calling the function registered under the display name and storing
    /// what it computes.
    pub fn dispatch(&self, store: &mut FragmentStore, args: &Arguments, now: u64) -> (res: Result<
        String,
        CacheError,
    >)
        requires
            self.wf(),
            old(store).wf(),
            args.wf(),
        ensures
            final(store).wf(),
            resolved(self@, old(store)@, args, now, res, final(store)@),
    {
        let mut dispatch = Dispatch::begin(args);
        if let Action::Probe = dispatch.pending {
            let age = store.probe(dispatch.key.as_str(), now);
            dispatch = dispatch.advance(Event::Probed { age });
        }
        if let Action::Remove = dispatch.pending {
            let removed = store.remove(dispatch.key.as_str());
            dispatch = dispatch.advance(Event::Removed { removed });
        }
        if let Action::Read = dispatch.pending {
            let text = match store.read(dispatch.key.as_str()) {
                Ok(text) => Some(text.to_owned()),
                Err(_) => None,
            };
            dispatch = dispatch.advance(Event::Read { text });
        }
        let ghost swept = store@;
        if let Action::Compute = dispatch.pending {
            let fragment = self.compute(dispatch.display.as_str(), args);
            dispatch = dispatch.advance(Event::Computed { fragment });
        }
        if let Action::Write { fragment } = &dispatch.pending {
            let outcome = store.write(dispatch.key.as_str(), fragment.as_str(), now);
            dispatch = dispatch.advance(Event::Written { outcome });
        }
        proof {
            let key = cache_key_of(args@);
            if has_display(args@) && all_text(args@) && !served_from_cache(old(store)@, args@, now) {
                assert(swept =~= old(store)@.remove(key));
                if self@.contains_key(display_of(args@)) {
                    assert(store@ =~= old(store)@.insert(key, store@[key]));
                }
            }
        }
        match dispatch.finish() {
            Some(res) => res,
            None => vstd::pervasive::unreached(),
        }
    }
}

} // verus!
