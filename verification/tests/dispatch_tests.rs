use std::cell::Cell;
use std::rc::Rc;
use tera_shortcodes::arguments::{ArgValue, Arguments};
use tera_shortcodes::canonical::unquote;
use tera_shortcodes::dispatch::{unknown_display_text, Action, Dispatch, Event};
use tera_shortcodes::error::CacheError;
use tera_shortcodes::key::cache_key;
use tera_shortcodes::store::{FragmentStore, WriteOutcome};
use tera_shortcodes::Shortcodes;

type Boxed = Box<dyn Fn(&Arguments) -> String>;

fn image_tag(args: &Arguments) -> String {
    let src = match args.get("image_src") {
        Some(ArgValue::Text(text)) => unquote(text).to_string(),
        _ => "No image attribute specified".to_string(),
    };
    format!("<img src=\"{}\">", src)
}

fn counting_registry(calls: &Rc<Cell<u32>>) -> Shortcodes<Boxed> {
    let counter = calls.clone();
    let image: Boxed = Box::new(move |args: &Arguments| {
        counter.set(counter.get() + 1);
        image_tag(args)
    });
    let counter = calls.clone();
    let numbered: Boxed = Box::new(move |_args: &Arguments| {
        counter.set(counter.get() + 1);
        format!("call {}", counter.get())
    });
    Shortcodes::new().register("img", image).register("numbered", numbered)
}

fn image_args() -> Arguments {
    Arguments::new().with_text("display", "img").with_text("image_src", "a.png")
}

#[test]
fn missing_display_gives_the_notice() {
    let calls = Rc::new(Cell::new(0));
    let registry = counting_registry(&calls);
    let mut store = FragmentStore::new();
    let args = Arguments::new().with_text("image_src", "a.png");
    assert_eq!(registry.dispatch(&mut store, &args, 100), Ok("Missing display attribute".to_string()));
    assert_eq!(registry.dispatch(&mut store, &Arguments::new(), 100), Ok("Missing display attribute".to_string()));
    assert_eq!(store.len(), 0);
    assert_eq!(calls.get(), 0);
}

#[test]
fn unknown_display_gives_the_notice_and_stores_nothing() {
    let calls = Rc::new(Cell::new(0));
    let registry = counting_registry(&calls);
    let mut store = FragmentStore::new();
    let args = Arguments::new().with_text("display", "nope");
    assert_eq!(
        registry.dispatch(&mut store, &args, 100),
        Ok("Unknown shortcode display name: nope".to_string())
    );
    assert_eq!(store.len(), 0);
    assert_eq!(calls.get(), 0);
    assert_eq!(unknown_display_text("nope"), "Unknown shortcode display name: nope");
}

#[test]
fn display_name_is_unquoted() {
    let calls = Rc::new(Cell::new(0));
    let registry = counting_registry(&calls);
    let mut store = FragmentStore::new();
    let args = Arguments::new().with_text("display", "\"img\"").with_text("image_src", "'a.png'");
    assert_eq!(registry.dispatch(&mut store, &args, 100), Ok("<img src=\"a.png\">".to_string()));
    let unknown = Arguments::new().with_text("display", "'nope'");
    assert_eq!(
        registry.dispatch(&mut store, &unknown, 100),
        Ok("Unknown shortcode display name: nope".to_string())
    );
}

#[test]
fn value_that_is_no_string_fails_the_dispatch() {
    let calls = Rc::new(Cell::new(0));
    let registry = counting_registry(&calls);
    let mut store = FragmentStore::new();
    let args = image_args().with("width", ArgValue::Other);
    assert_eq!(registry.dispatch(&mut store, &args, 100), Err(CacheError::InvalidArgument));
    let no_name = Arguments::new().with("display", ArgValue::Other);
    assert_eq!(registry.dispatch(&mut store, &no_name, 100), Err(CacheError::InvalidArgument));
    assert_eq!(store.len(), 0);
    assert_eq!(calls.get(), 0);
}

#[test]
fn end_to_end_image_shortcode() {
    let calls = Rc::new(Cell::new(0));
    let registry = counting_registry(&calls);
    let mut store = FragmentStore::new();
    let args = image_args();
    assert_eq!(registry.dispatch(&mut store, &args, 100), Ok("<img src=\"a.png\">".to_string()));
    assert_eq!(store.len(), 1);
    assert_eq!(calls.get(), 1);
    let key = cache_key(&args).unwrap();
    assert_eq!(store.read(&key), Ok("<img src=\"a.png\">"));
    assert_eq!(registry.dispatch(&mut store, &args, 101), Ok("<img src=\"a.png\">".to_string()));
    assert_eq!(store.len(), 1);
    assert_eq!(calls.get(), 1);
}

#[test]
fn cache_hit_skips_the_function() {
    let calls = Rc::new(Cell::new(0));
    let registry = counting_registry(&calls);
    let mut store = FragmentStore::new();
    let args = Arguments::new().with_text("display", "numbered").with_text("rotate", "0");
    assert_eq!(registry.dispatch(&mut store, &args, 100), Ok("call 1".to_string()));
    assert_eq!(registry.dispatch(&mut store, &args, 100), Ok("call 1".to_string()));
    assert_eq!(calls.get(), 1);
}

#[test]
fn fragment_is_served_until_its_time_to_live_has_passed() {
    let calls = Rc::new(Cell::new(0));
    let registry = counting_registry(&calls);
    let mut store = FragmentStore::new();
    let args = Arguments::new().with_text("display", "numbered").with_text("rotate", "5");
    let key = cache_key(&args).unwrap();
    assert_eq!(registry.dispatch(&mut store, &args, 100), Ok("call 1".to_string()));
    assert_eq!(registry.dispatch(&mut store, &args, 104), Ok("call 1".to_string()));
    assert_eq!(calls.get(), 1);
    assert_eq!(registry.dispatch(&mut store, &args, 105), Ok("call 1".to_string()));
    assert_eq!(calls.get(), 1);
    assert_eq!(registry.dispatch(&mut store, &args, 106), Ok("call 2".to_string()));
    assert_eq!(calls.get(), 2);
    assert_eq!(store.read(&key), Ok("call 2"));
    assert_eq!(store.probe(&key, 106), Some(0));
    assert_eq!(store.len(), 1);
}

#[test]
fn without_rotate_a_fragment_is_served_at_any_age() {
    let calls = Rc::new(Cell::new(0));
    let registry = counting_registry(&calls);
    let mut store = FragmentStore::new();
    let absent = Arguments::new().with_text("display", "numbered");
    assert_eq!(registry.dispatch(&mut store, &absent, 0), Ok("call 1".to_string()));
    assert_eq!(registry.dispatch(&mut store, &absent, u64::MAX), Ok("call 1".to_string()));
    let zero = Arguments::new().with_text("display", "numbered").with_text("rotate", "0");
    assert_eq!(registry.dispatch(&mut store, &zero, u64::MAX), Ok("call 1".to_string()));
    let unreadable = Arguments::new().with_text("display", "numbered").with_text("rotate", "soon");
    assert_eq!(registry.dispatch(&mut store, &unreadable, u64::MAX), Ok("call 1".to_string()));
    assert_eq!(calls.get(), 1);
}

#[test]
fn time_to_live_comes_with_each_lookup() {
    let calls = Rc::new(Cell::new(0));
    let registry = counting_registry(&calls);
    let mut store = FragmentStore::new();
    let forever = Arguments::new().with_text("display", "numbered");
    let short = Arguments::new().with_text("display", "numbered").with_text("rotate", "5");
    assert_eq!(registry.dispatch(&mut store, &forever, 100), Ok("call 1".to_string()));
    assert_eq!(registry.dispatch(&mut store, &short, 200), Ok("call 2".to_string()));
    assert_eq!(registry.dispatch(&mut store, &forever, 1000), Ok("call 2".to_string()));
}

#[test]
fn expired_fragment_of_an_unknown_name_is_removed() {
    let calls = Rc::new(Cell::new(0));
    let registry = counting_registry(&calls);
    let mut store = FragmentStore::new();
    let args = Arguments::new().with_text("display", "gone").with_text("rotate", "5");
    let key = cache_key(&args).unwrap();
    store.write(&key, "old", 100);
    assert_eq!(registry.dispatch(&mut store, &args, 104), Ok("old".to_string()));
    assert_eq!(
        registry.dispatch(&mut store, &args, 106),
        Ok("Unknown shortcode display name: gone".to_string())
    );
    assert_eq!(store.len(), 0);
}

fn probing() -> Dispatch {
    let dispatch = Dispatch::begin(&Arguments::new().with_text("display", "img").with_text("rotate", "5"));
    assert_eq!(dispatch.pending(), &Action::Probe);
    dispatch
}

#[test]
fn dispatch_starts_with_key_name_and_time_to_live() {
    let args = Arguments::new().with_text("display", "'img'").with_text("rotate", "5");
    let dispatch = Dispatch::begin(&args);
    assert_eq!(dispatch.pending(), &Action::Probe);
    assert_eq!(dispatch.key(), cache_key(&args).unwrap());
    assert_eq!(dispatch.display(), "img");
    assert_eq!(dispatch.ttl_seconds(), 5);
    assert_eq!(dispatch.finish(), None);
}

#[test]
fn dispatch_without_display_is_over_at_once() {
    let dispatch = Dispatch::begin(&Arguments::new().with_text("a", "1"));
    assert_eq!(
        dispatch.pending(),
        &Action::Return { fragment: "Missing display attribute".to_string() }
    );
    assert_eq!(dispatch.finish(), Some(Ok("Missing display attribute".to_string())));
    let invalid = Dispatch::begin(&image_args().with("n", ArgValue::Other));
    assert_eq!(invalid.pending(), &Action::Fail { error: CacheError::InvalidArgument });
    assert_eq!(invalid.finish(), Some(Err(CacheError::InvalidArgument)));
}

#[test]
fn probe_decides_between_read_remove_and_compute() {
    assert_eq!(probing().advance(Event::Probed { age: None }).pending(), &Action::Compute);
    assert_eq!(probing().advance(Event::Probed { age: Some(4) }).pending(), &Action::Read);
    assert_eq!(probing().advance(Event::Probed { age: Some(5) }).pending(), &Action::Read);
    assert_eq!(probing().advance(Event::Probed { age: Some(6) }).pending(), &Action::Remove);
}

#[test]
fn failed_removal_serves_the_stale_fragment() {
    let removing = probing().advance(Event::Probed { age: Some(6) });
    let dispatch = removing.advance(Event::Removed { removed: false });
    assert_eq!(dispatch.pending(), &Action::Read);
    let dispatch = dispatch.advance(Event::Read { text: Some("stale".to_string()) });
    assert_eq!(dispatch.finish(), Some(Ok("stale".to_string())));
}

#[test]
fn removal_leads_to_the_function() {
    let removing = probing().advance(Event::Probed { age: Some(6) });
    assert_eq!(removing.advance(Event::Removed { removed: true }).pending(), &Action::Compute);
}

#[test]
fn failed_read_leads_to_the_function() {
    let reading = probing().advance(Event::Probed { age: Some(1) });
    assert_eq!(reading.advance(Event::Read { text: None }).pending(), &Action::Compute);
}

#[test]
fn computed_fragment_is_written_then_returned() {
    let computing = probing().advance(Event::Probed { age: None });
    let writing = computing.advance(Event::Computed { fragment: Some("<b>new</b>".to_string()) });
    assert_eq!(writing.pending(), &Action::Write { fragment: "<b>new</b>".to_string() });
    let done = writing.advance(Event::Written { outcome: WriteOutcome::Created });
    assert_eq!(done.pending(), &Action::Return { fragment: "<b>new</b>".to_string() });
    assert_eq!(done.finish(), Some(Ok("<b>new</b>".to_string())));
}

#[test]
fn writer_that_comes_second_still_returns_its_own_fragment() {
    let computing = probing().advance(Event::Probed { age: None });
    let writing = computing.advance(Event::Computed { fragment: Some("mine".to_string()) });
    let done = writing.advance(Event::Written { outcome: WriteOutcome::AlreadyPresent });
    assert_eq!(done.finish(), Some(Ok("mine".to_string())));
}

#[test]
fn unknown_name_is_returned_without_a_write() {
    let computing = probing().advance(Event::Probed { age: None });
    let done = computing.advance(Event::Computed { fragment: None });
    assert_eq!(done.finish(), Some(Ok("Unknown shortcode display name: img".to_string())));
}

#[test]
fn failed_write_fails_the_dispatch() {
    let computing = probing().advance(Event::Probed { age: None });
    let writing = computing.advance(Event::Computed { fragment: Some("new".to_string()) });
    let failed = writing.advance(Event::Written { outcome: WriteOutcome::Failed });
    assert_eq!(failed.pending(), &Action::Fail { error: CacheError::IoError });
    assert_eq!(failed.finish(), Some(Err(CacheError::IoError)));
}

#[test]
fn report_that_answers_no_pending_action_is_ignored() {
    let dispatch = probing().advance(Event::Written { outcome: WriteOutcome::Created });
    assert_eq!(dispatch.pending(), &Action::Probe);
    let dispatch = dispatch.advance(Event::Computed { fragment: Some("x".to_string()) });
    assert_eq!(dispatch.pending(), &Action::Probe);
    let done = Dispatch::begin(&Arguments::new()).advance(Event::Probed { age: None });
    assert_eq!(done.finish(), Some(Ok("Missing display attribute".to_string())));
}
