use tera_shortcodes::arguments::{ArgValue, Arguments};
use tera_shortcodes::canonical::{canonicalize, is_quote_char, unquote};
use tera_shortcodes::error::CacheError;
use tera_shortcodes::key::cache_key;
use tera_shortcodes::text::{str_eq, str_le};

#[test]
fn unquote_strips_one_layer_of_quotes() {
    assert_eq!(unquote("\"x\""), "x");
    assert_eq!(unquote("'x'"), "x");
    assert_eq!(unquote("x"), "x");
    assert_eq!(unquote("\"\"x\"\""), "\"x\"");
    assert_eq!(unquote("'\"x\"'"), "\"x\"");
}

#[test]
fn unquote_treats_each_end_on_its_own() {
    assert_eq!(unquote("\"x"), "x");
    assert_eq!(unquote("x'"), "x");
    assert_eq!(unquote("\"x'"), "x");
}

#[test]
fn unquote_of_short_strings() {
    assert_eq!(unquote(""), "");
    assert_eq!(unquote("\""), "");
    assert_eq!(unquote("''"), "");
    assert_eq!(unquote("'''"), "'");
}

#[test]
fn unquote_keeps_other_characters() {
    assert_eq!(unquote("\"é ü\""), "é ü");
    assert_eq!(unquote("`x`"), "`x`");
    assert!(is_quote_char('"'));
    assert!(is_quote_char('\''));
    assert!(!is_quote_char('`'));
}

#[test]
fn strings_compare_by_their_bytes() {
    assert!(str_le("", "a"));
    assert!(str_le("a", "a"));
    assert!(str_le("a", "ab"));
    assert!(!str_le("ab", "a"));
    assert!(str_le("B", "a"));
    assert!(!str_le("a", "B"));
    assert!(str_le("z", "é"));
    assert!(!str_le("é", "z"));
    assert!(str_eq("é", "é"));
    assert!(!str_eq("e", "é"));
    assert!(!str_eq("a", "ab"));
}

#[test]
fn canonical_form_is_sorted_tokens_joined_by_dash() {
    let args = Arguments::new().with_text("a", "1").with_text("b", "2");
    assert_eq!(canonicalize(&args), Ok("1-2-a-b".to_string()));
}

#[test]
fn canonical_form_of_no_arguments_is_empty() {
    assert_eq!(canonicalize(&Arguments::new()), Ok(String::new()));
    assert_eq!(cache_key(&Arguments::new()), Ok("6c62272e07bb014262b821756295c58d".to_string()));
}

#[test]
fn canonical_form_sorts_by_bytes() {
    let args = Arguments::new().with_text("é", "B").with_text("z", "ab");
    assert_eq!(canonicalize(&args), Ok("B-ab-z-é".to_string()));
}

#[test]
fn values_are_unquoted_before_they_become_tokens() {
    let args = Arguments::new().with_text("a", "\"1\"").with_text("b", "'2'");
    assert_eq!(canonicalize(&args), Ok("1-2-a-b".to_string()));
}

#[test]
fn empty_value_gives_no_token() {
    let args = Arguments::new().with_text("a", "").with_text("b", "\"\"");
    assert_eq!(canonicalize(&args), Ok("a-b".to_string()));
}

#[test]
fn key_and_value_pairing_is_not_kept() {
    let one = Arguments::new().with_text("a", "b");
    let other = Arguments::new().with_text("b", "a");
    assert_eq!(canonicalize(&one), Ok("a-b".to_string()));
    assert_eq!(canonicalize(&other), Ok("a-b".to_string()));
    assert_eq!(cache_key(&one), cache_key(&other));
}

#[test]
fn order_of_arguments_does_not_change_the_key() {
    let one = Arguments::new().with_text("a", "1").with_text("b", "2");
    let other = Arguments::new().with_text("b", "2").with_text("a", "1");
    assert_eq!(canonicalize(&one), canonicalize(&other));
    assert_eq!(cache_key(&one), Ok("f28d8fea954ff78cdca38ef5f949e892".to_string()));
    assert_eq!(cache_key(&other), Ok("f28d8fea954ff78cdca38ef5f949e892".to_string()));
}

#[test]
fn key_is_the_same_each_time() {
    let args = Arguments::new().with_text("display", "img").with_text("image_src", "a.png");
    let first = cache_key(&args);
    let second = cache_key(&args);
    assert_eq!(first, second);
    assert_eq!(canonicalize(&args), Ok("a.png-display-image_src-img".to_string()));
    assert_eq!(first, Ok("429a68005192db403418e77d5b7d2af1".to_string()));
}

#[test]
fn rotate_does_not_change_the_key() {
    let plain = Arguments::new().with_text("a", "1");
    let added = Arguments::new().with_text("a", "1").with_text("rotate", "5");
    let changed = Arguments::new().with_text("rotate", "60").with_text("a", "1");
    let odd = Arguments::new().with_text("a", "1").with("rotate", ArgValue::Other);
    assert_eq!(canonicalize(&added), Ok("1-a".to_string()));
    assert_eq!(cache_key(&plain), cache_key(&added));
    assert_eq!(cache_key(&plain), cache_key(&changed));
    assert_eq!(cache_key(&plain), cache_key(&odd));
    assert_eq!(cache_key(&plain), Ok("a68c89693e8b5822836dbc791f0959f6".to_string()));
}

#[test]
fn value_that_is_no_string_is_an_invalid_argument() {
    let args = Arguments::new().with_text("a", "1").with("limit", ArgValue::Other);
    assert_eq!(canonicalize(&args), Err(CacheError::InvalidArgument));
    assert_eq!(cache_key(&args), Err(CacheError::InvalidArgument));
}
