//! One minimal snippet per pattern of the scanner's table: each yields
//! exactly one feature report with one span, whose sliced source text is
//! the matched construct.

use jsco::features::JsFeature;
use jsco::report::Report;
use jsco::resolver::Resolver;
use jsco::scan::{AstNode, ClassElement, Span};

fn scan_one(source: &str, nodes: Vec<AstNode>) -> Report {
    let resolver = Resolver::new();
    let mut report = Report::new(String::from("test.js"), source.as_bytes().to_vec());
    report.check_feature(&nodes, false, &resolver);
    report.prepare_output();
    report
}

fn expect_single(source: &str, nodes: Vec<AstNode>, feature: JsFeature, snippet: &str) {
    let report = scan_one(source, nodes);
    assert_eq!(report.found_features.len(), 1);
    let fr = &report.found_features[0];
    assert_eq!(fr.feat_type, feature);
    assert_eq!(fr.found_in.len(), 1);
    assert_eq!(fr.locations.len(), 1);
    assert_eq!(fr.locations[0].code, snippet.as_bytes().to_vec());
}

#[test]
fn nullish_coalescing_snippet() {
    let src = "a ?? b";
    let nodes = vec![AstNode::Logical {
        operator: String::from("??"),
        span: Span { start: 0, end: 6 },
    }];
    expect_single(src, nodes, JsFeature::NullishCoalescing, "a ?? b");
}

#[test]
fn other_logical_operator_is_ignored() {
    let src = "a && b";
    let nodes = vec![AstNode::Logical {
        operator: String::from("&&"),
        span: Span { start: 0, end: 6 },
    }];
    let report = scan_one(src, nodes);
    assert_eq!(report.found_features.len(), 0);
}

#[test]
fn optional_chaining_snippet() {
    let src = "a?.b";
    let nodes = vec![AstNode::Chain { span: Span { start: 0, end: 4 } }];
    expect_single(src, nodes, JsFeature::OptionalChaining, "a?.b");
}

#[test]
fn private_field_and_method_snippet() {
    let src = "class C { #x = 1; #m() {} }";
    let nodes = vec![AstNode::ClassBody {
        elements: vec![
            ClassElement { private_key: true, is_property: true, key_span: Span { start: 10, end: 12 } },
            ClassElement { private_key: true, is_property: false, key_span: Span { start: 18, end: 20 } },
        ],
    }];
    let report = scan_one(src, nodes);
    assert_eq!(report.found_features.len(), 2);
    // Sorted by lookup key: private_class_fields before private_class_methods.
    assert_eq!(report.found_features[0].feat_type, JsFeature::PrivateField);
    assert_eq!(report.found_features[0].locations[0].code, b"#x".to_vec());
    assert_eq!(report.found_features[1].feat_type, JsFeature::PrivateMethod);
    assert_eq!(report.found_features[1].locations[0].code, b"#m".to_vec());
}

#[test]
fn public_class_member_is_ignored() {
    let src = "class C { y = 1; }";
    let nodes = vec![AstNode::ClassBody {
        elements: vec![ClassElement {
            private_key: false,
            is_property: true,
            key_span: Span { start: 10, end: 11 },
        }],
    }];
    let report = scan_one(src, nodes);
    assert_eq!(report.found_features.len(), 0);
}

#[test]
fn await_snippet() {
    let src = "await x";
    let nodes = vec![AstNode::Await { span: Span { start: 0, end: 7 } }];
    expect_single(src, nodes, JsFeature::Await, "await x");
}

#[test]
fn logical_assignment_snippet() {
    let src = "a &&= b";
    let nodes = vec![AstNode::Assignment {
        operator: String::from("&&="),
        span: Span { start: 0, end: 7 },
    }];
    expect_single(src, nodes, JsFeature::LogicalAssignment, "a &&= b");
}

#[test]
fn logical_assignment_all_operators() {
    for op in ["&&=", "||=", "??="] {
        let src = "x1 @@@ y";
        let nodes = vec![AstNode::Assignment {
            operator: String::from(op),
            span: Span { start: 0, end: 8 },
        }];
        let report = scan_one(src, nodes);
        assert_eq!(report.found_features.len(), 1);
        assert_eq!(report.found_features[0].feat_type, JsFeature::LogicalAssignment);
    }
}

#[test]
fn plain_assignment_is_ignored() {
    let src = "a = b";
    let nodes = vec![AstNode::Assignment {
        operator: String::from("="),
        span: Span { start: 0, end: 5 },
    }];
    let report = scan_one(src, nodes);
    assert_eq!(report.found_features.len(), 0);
}

#[test]
fn numeric_separator_snippet() {
    let src = "1_000_000";
    let nodes = vec![AstNode::Numeric { span: Span { start: 0, end: 9 } }];
    expect_single(src, nodes, JsFeature::NumericSeparator, "1_000_000");
}

#[test]
fn numeric_without_separator_is_ignored() {
    let src = "1000000";
    let nodes = vec![AstNode::Numeric { span: Span { start: 0, end: 7 } }];
    let report = scan_one(src, nodes);
    assert_eq!(report.found_features.len(), 0);
}

#[test]
fn dynamic_import_snippet() {
    let src = "import('mod')";
    let nodes = vec![AstNode::Import { span: Span { start: 0, end: 13 } }];
    expect_single(src, nodes, JsFeature::DynamicImport, "import('mod')");
}

#[test]
fn optional_catch_binding_snippet() {
    let src = "try {} catch {}";
    let nodes = vec![AstNode::Catch { has_param: false, span: Span { start: 7, end: 15 } }];
    expect_single(src, nodes, JsFeature::OptionalCatchBinding, "catch {}");
}

#[test]
fn catch_with_binding_is_ignored() {
    let src = "try {} catch (e) {}";
    let nodes = vec![AstNode::Catch { has_param: true, span: Span { start: 7, end: 19 } }];
    let report = scan_one(src, nodes);
    assert_eq!(report.found_features.len(), 0);
}

#[test]
fn async_iteration_snippet() {
    let src = "for await (x of y) {}";
    let nodes = vec![AstNode::ForOf { is_await: true, span: Span { start: 0, end: 21 } }];
    expect_single(src, nodes, JsFeature::AsyncIteration, "for await (x of y) {}");
}

#[test]
fn plain_for_of_is_ignored() {
    let src = "for (x of y) {}";
    let nodes = vec![AstNode::ForOf { is_await: false, span: Span { start: 0, end: 15 } }];
    let report = scan_one(src, nodes);
    assert_eq!(report.found_features.len(), 0);
}

#[test]
fn rest_spread_snippet() {
    let src = "[...a]";
    let nodes = vec![AstNode::Spread { span: Span { start: 1, end: 5 } }];
    expect_single(src, nodes, JsFeature::RestSpread, "...a");
}

#[test]
fn service_worker_snippet() {
    let src = "navigator.serviceWorker";
    let nodes = vec![AstNode::Member {
        root: Some(String::from("navigator")),
        property: Some(String::from("serviceWorker")),
        span: Span { start: 0, end: 23 },
    }];
    expect_single(src, nodes, JsFeature::ServiceWorker, "navigator.serviceWorker");
}

#[test]
fn performance_now_snippet() {
    let src = "performance.now";
    let nodes = vec![AstNode::Member {
        root: Some(String::from("performance")),
        property: Some(String::from("now")),
        span: Span { start: 0, end: 15 },
    }];
    expect_single(src, nodes, JsFeature::PerformanceNow, "performance.now");
}

#[test]
fn unrelated_member_is_ignored() {
    let src = "window.location";
    let nodes = vec![AstNode::Member {
        root: Some(String::from("window")),
        property: Some(String::from("location")),
        span: Span { start: 0, end: 15 },
    }];
    let report = scan_one(src, nodes);
    assert_eq!(report.found_features.len(), 0);
}

#[test]
fn request_idle_callback_snippet() {
    let src = "requestIdleCallback(cb)";
    let nodes = vec![AstNode::Call {
        callee: Some(String::from("requestIdleCallback")),
        span: Span { start: 0, end: 23 },
    }];
    expect_single(src, nodes, JsFeature::RequestIdleCallback, "requestIdleCallback(cb)");
}

#[test]
fn request_idle_callback_inside_member_chain() {
    let src = "window.requestIdleCallback(cb)";
    let nodes = vec![AstNode::Call {
        callee: Some(String::from("window.requestIdleCallback")),
        span: Span { start: 0, end: 30 },
    }];
    let report = scan_one(src, nodes);
    assert_eq!(report.found_features.len(), 1);
    assert_eq!(report.found_features[0].feat_type, JsFeature::RequestIdleCallback);
}

#[test]
fn repeated_feature_accumulates_spans() {
    let src = "await a; await b";
    let nodes = vec![
        AstNode::Await { span: Span { start: 0, end: 7 } },
        AstNode::Await { span: Span { start: 9, end: 16 } },
    ];
    let report = scan_one(src, nodes);
    assert_eq!(report.found_features.len(), 1);
    let fr = &report.found_features[0];
    assert_eq!(fr.found_in.len(), 2);
    assert_eq!(fr.locations[0].code, b"await a".to_vec());
    assert_eq!(fr.locations[1].code, b"await b".to_vec());
}

#[test]
fn parse_failure_skips_scanning() {
    let src = "await (";
    let nodes = vec![AstNode::Await { span: Span { start: 0, end: 7 } }];
    let resolver = Resolver::new();
    let mut report = Report::new(String::from("bad.js"), src.as_bytes().to_vec());
    report.check_feature(&nodes, true, &resolver);
    report.prepare_output();
    assert!(report.parse_failed);
    assert_eq!(report.found_features.len(), 0);
}

#[test]
fn empty_node_stream_yields_nothing() {
    let report = scan_one("", vec![]);
    assert_eq!(report.found_features.len(), 0);
    assert!(!report.parse_failed);
}

#[test]
fn features_come_out_ordered_by_lookup_key() {
    let src = "await x; a?.b; 1_0";
    let nodes = vec![
        AstNode::Numeric { span: Span { start: 15, end: 18 } },
        AstNode::Chain { span: Span { start: 9, end: 13 } },
        AstNode::Await { span: Span { start: 0, end: 7 } },
    ];
    let report = scan_one(src, nodes);
    assert_eq!(report.found_features.len(), 3);
    // javascript.operators.await < ...numeric_separators < ...optional_chaining
    assert_eq!(report.found_features[0].feat_type, JsFeature::Await);
    assert_eq!(report.found_features[1].feat_type, JsFeature::NumericSeparator);
    assert_eq!(report.found_features[2].feat_type, JsFeature::OptionalChaining);
}
