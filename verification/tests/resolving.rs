//! Resolver behavior: dataset lookup, memoization, the per-feature cache
//! round trip, and identical support across independent reports.

use jsco::cache::encode_compat;
use jsco::features::JsFeature;
use jsco::pipeline::summarize;
use jsco::report::Report;
use jsco::resolver::{parse_dataset, ResolveError, Resolver};
use jsco::scan::{AstNode, Span};

fn dataset() -> serde_json::Value {
    let text = r#"{
      "javascript": {
        "operators": {
          "await": {
            "__compat": {
              "mdn_url": "https://developer.mozilla.org/docs/await",
              "status": {"deprecated": false, "experimental": false, "standard_track": true},
              "support": {
                "chrome": {"version_added": "55"},
                "firefox": [{"version_added": "52"}, {"version_added": false}],
                "safari": {"version_added": true},
                "edge": {"version_added": null},
                "nodejs": {"version_added": "7.6.0"}
              }
            }
          },
          "spread": {
            "__compat": "not an object"
          }
        }
      }
    }"#;
    parse_dataset(text).expect("the test document is valid JSON")
}

#[test]
fn resolving_from_the_dataset_selects_versions() {
    let data = dataset();
    let mut resolver = Resolver::new();
    resolver.resolve_from_dataset(JsFeature::Await, &data).expect("await is in the document");
    let bs = resolver.support_for(JsFeature::Await);
    assert_eq!(bs.chrome, Some(String::from("55")));
    assert_eq!(bs.firefox, Some(String::from("52")));
    assert_eq!(bs.safari, Some(String::from("true")));
    assert_eq!(bs.edge, None);
    assert_eq!(
        resolver.mdn_for(JsFeature::Await),
        String::from("https://developer.mozilla.org/docs/await")
    );
}

#[test]
fn missing_feature_is_not_found() {
    let data = dataset();
    let mut resolver = Resolver::new();
    let err = resolver.resolve_from_dataset(JsFeature::BigInt, &data).unwrap_err();
    assert_eq!(err, ResolveError::NotFound);
}

#[test]
fn ill_shaped_entry_is_a_schema_mismatch() {
    let data = dataset();
    let mut resolver = Resolver::new();
    let err = resolver.resolve_from_dataset(JsFeature::RestSpread, &data).unwrap_err();
    assert_eq!(err, ResolveError::SchemaMismatch);
}

#[test]
fn resolving_twice_returns_identical_support() {
    let data = dataset();
    let mut resolver = Resolver::new();
    resolver.resolve_from_dataset(JsFeature::Await, &data).expect("resolves");
    let first = resolver.support_for(JsFeature::Await);
    let second = resolver.support_for(JsFeature::Await);
    assert_eq!(first.chrome, second.chrome);
    assert_eq!(first.firefox, second.firefox);
    assert_eq!(first.safari, second.safari);
    assert_eq!(first.edge, second.edge);
}

#[test]
fn cache_file_restores_support_without_the_dataset() {
    let data = dataset();
    let mut warm = Resolver::new();
    warm.resolve_from_dataset(JsFeature::Await, &data).expect("resolves");
    let record = warm.lookup(JsFeature::Await).expect("memoized");
    let file_text = encode_compat(record);

    // A fresh resolver, handed only the cache file's text: no dataset.
    let mut cold = Resolver::new();
    assert!(cold.load_cache_text(JsFeature::Await, file_text.as_str()));
    let warm_bs = warm.support_for(JsFeature::Await);
    let cold_bs = cold.support_for(JsFeature::Await);
    assert_eq!(warm_bs.chrome, cold_bs.chrome);
    assert_eq!(warm_bs.firefox, cold_bs.firefox);
    assert_eq!(warm_bs.safari, cold_bs.safari);
    assert_eq!(warm_bs.edge, cold_bs.edge);
    assert_eq!(warm.mdn_for(JsFeature::Await), cold.mdn_for(JsFeature::Await));
}

#[test]
fn corrupt_cache_text_is_rejected() {
    let mut resolver = Resolver::new();
    assert!(!resolver.load_cache_text(JsFeature::Await, "half a record"));
    assert!(resolver.lookup(JsFeature::Await).is_none());
}

fn await_report(path: &str, source: &str, resolver: &Resolver) -> Report {
    let len = source.len();
    let nodes = vec![AstNode::Await { span: Span { start: 0, end: len } }];
    let mut report = Report::new(String::from(path), source.as_bytes().to_vec());
    report.check_feature(&nodes, false, resolver);
    report.prepare_output();
    report
}

#[test]
fn two_sources_resolve_await_to_the_same_support() {
    let data = dataset();
    let mut resolver = Resolver::new();
    resolver.resolve_from_dataset(JsFeature::Await, &data).expect("resolves");

    let one = await_report("one.js", "await a", &resolver);
    let two = await_report("two.js", "await bb", &resolver);
    assert_eq!(one.found_features.len(), 1);
    assert_eq!(two.found_features.len(), 1);
    let a = &one.found_features[0];
    let b = &two.found_features[0];
    assert_eq!(a.support.chrome, b.support.chrome);
    assert_eq!(a.support.firefox, b.support.firefox);
    assert_eq!(a.support.safari, b.support.safari);
    assert_eq!(a.support.edge, b.support.edge);
    assert_eq!(a.mdn_url, b.mdn_url);
    assert_eq!(a.support.chrome, Some(String::from("55")));
}

#[test]
fn batch_with_one_failing_input() {
    let resolver = Resolver::new();

    let src1 = "a?.b";
    let mut r1 = Report::new(String::from("one.js"), src1.as_bytes().to_vec());
    r1.check_feature(&vec![AstNode::Chain { span: Span { start: 0, end: 4 } }], false, &resolver);
    r1.prepare_output();

    let src2 = "await (";
    let mut r2 = Report::new(String::from("two.js"), src2.as_bytes().to_vec());
    r2.check_feature(&vec![], true, &resolver);
    r2.prepare_output();

    let src3 = "await x";
    let mut r3 = Report::new(String::from("three.js"), src3.as_bytes().to_vec());
    r3.check_feature(&vec![AstNode::Await { span: Span { start: 0, end: 7 } }], false, &resolver);
    r3.prepare_output();

    assert_eq!(r1.found_features.len(), 1);
    assert!(r2.parse_failed);
    assert_eq!(r2.found_features.len(), 0);
    assert_eq!(r3.found_features.len(), 1);
    assert_eq!(r3.found_features[0].locations[0].code, b"await x".to_vec());

    let reports = vec![r1, r2, r3];
    let summary = summarize(&reports);
    assert_eq!(summary.total, 3);
    assert_eq!(summary.with_features, 2);
    assert_eq!(summary.occurrences, 2);
}
