//! Input classification, the download cache key, and lookup keys.

use jsco::features::JsFeature;
use jsco::pipeline::{get_cache_key, InputType};

#[test]
fn urls_are_recognized() {
    assert!(matches!(
        InputType::from_str("https://example.com/a.js", false),
        InputType::Url(_)
    ));
    assert!(matches!(InputType::from_str("http://example.com/a.js", false), InputType::Url(_)));
}

#[test]
fn globs_are_recognized() {
    match InputType::from_str("src/*.js", false) {
        InputType::Glob(g) => assert_eq!(g, "src/*.js"),
        _ => panic!("a pattern with a star is a glob"),
    }
}

#[test]
fn directories_follow_the_filesystem_answer() {
    assert!(matches!(InputType::from_str("src", true), InputType::Directory(_)));
    assert!(matches!(InputType::from_str("src", false), InputType::File(_)));
}

#[test]
fn a_url_with_a_star_is_still_a_url() {
    assert!(matches!(InputType::from_str("https://example.com/*.js", false), InputType::Url(_)));
}

#[test]
fn cache_key_of_a_plain_string_is_its_digest() {
    assert_eq!(get_cache_key("abc"), String::from("900150983cd24fb0d6963f7d28e17f72"));
}

#[test]
fn cache_key_of_a_url_ignores_the_query() {
    let with_query = get_cache_key("https://example.com/lib.js?t=123");
    let without = get_cache_key("https://example.com/lib.js");
    assert_eq!(with_query, without);
    assert_eq!(with_query, String::from("d059d8f96f81b8565aa7a823d0db91d7"));
}

#[test]
fn lookup_keys_are_stable() {
    assert_eq!(JsFeature::Await.key(), "javascript.operators.await");
    assert_eq!(JsFeature::NullishCoalescing.key(), "javascript.operators.nullish_coalescing");
    assert_eq!(JsFeature::OptionalChaining.key(), "javascript.operators.optional_chaining");
    // The source catalog aliases these two entries deliberately.
    assert_eq!(JsFeature::OptionalCatchBinding.key(), JsFeature::OptionalChaining.key());
}
