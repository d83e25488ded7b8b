//! Version-selection and target-matching behavior: `get_version_added`,
//! `browser_support` and `is_supported`.

use jsco::bcd::{
    browser_support, get_version_added, BrowserSupport, Compatibility, Status, SupportInfo,
    SupportMap, VersionAdded, VersionSupport,
};
use jsco::targets::{is_supported, parse_major, TargetBrowser};

fn info(v: VersionAdded) -> SupportInfo {
    SupportInfo { version_added: v }
}

#[test]
fn single_entry_variants() {
    assert_eq!(
        get_version_added(Some(&VersionSupport::Single(info(VersionAdded::Bool(true))))),
        Some(String::from("true"))
    );
    assert_eq!(
        get_version_added(Some(&VersionSupport::Single(info(VersionAdded::Bool(false))))),
        Some(String::from("false"))
    );
    assert_eq!(
        get_version_added(Some(&VersionSupport::Single(info(VersionAdded::Text(
            String::from("13.1")
        ))))),
        Some(String::from("13.1"))
    );
    assert_eq!(
        get_version_added(Some(&VersionSupport::Single(info(VersionAdded::Null)))),
        None
    );
}

#[test]
fn multiple_entries_take_the_first() {
    let list = VersionSupport::Multiple(vec![
        info(VersionAdded::Text(String::from("52"))),
        info(VersionAdded::Bool(false)),
    ]);
    assert_eq!(get_version_added(Some(&list)), Some(String::from("52")));
    let empty = VersionSupport::Multiple(vec![]);
    assert_eq!(get_version_added(Some(&empty)), None);
}

#[test]
fn unknown_and_missing_yield_nothing() {
    assert_eq!(get_version_added(Some(&VersionSupport::Unknown)), None);
    assert_eq!(get_version_added(None), None);
}

#[test]
fn browser_support_maps_the_four_browsers() {
    let compat = Compatibility {
        description: None,
        mdn_url: Some(String::from("https://developer.mozilla.org/x")),
        status: Status { deprecated: false, experimental: false, standard_track: true },
        support: SupportMap {
            chrome: Some(VersionSupport::Single(info(VersionAdded::Text(String::from("80"))))),
            firefox: Some(VersionSupport::Single(info(VersionAdded::Bool(true)))),
            safari: Some(VersionSupport::Single(info(VersionAdded::Null))),
            edge: None,
        },
    };
    let bs = browser_support(&compat);
    assert_eq!(bs.chrome, Some(String::from("80")));
    assert_eq!(bs.firefox, Some(String::from("true")));
    assert_eq!(bs.safari, None);
    assert_eq!(bs.edge, None);
}

fn target(name: &str, version: &str) -> TargetBrowser {
    TargetBrowser { name: String::from(name), version: String::from(version) }
}

#[test]
fn empty_targets_mean_supported() {
    let targets: Vec<TargetBrowser> = vec![];
    assert!(is_supported("chrome", "120", &targets));
}

#[test]
fn always_supported_sentinel() {
    let targets = vec![target("chrome", "1")];
    assert!(is_supported("chrome", "true", &targets));
}

#[test]
fn no_matching_family_means_supported() {
    let targets = vec![target("ie", "11"), target("opera", "60")];
    assert!(is_supported("chrome", "90", &targets));
}

#[test]
fn major_version_comparison() {
    let targets = vec![target("chrome", "87"), target("and_chr", "100.0")];
    assert!(is_supported("chrome", "80", &targets));
    assert!(is_supported("chrome", "87.3", &targets));
    assert!(!is_supported("chrome", "88", &targets));
}

#[test]
fn family_names_match_case_insensitively() {
    let targets = vec![target("Firefox Android", "101")];
    assert!(is_supported("Firefox", "99", &targets));
    assert!(!is_supported("firefox", "102", &targets));
}

#[test]
fn safari_family_includes_ios() {
    let targets = vec![target("ios_saf", "15.4")];
    assert!(is_supported("safari", "15", &targets));
    assert!(!is_supported("safari", "16", &targets));
}

#[test]
fn never_supported_parses_as_major_zero() {
    let targets = vec![target("edge", "100")];
    assert!(is_supported("edge", "false", &targets));
}

#[test]
fn parse_major_values() {
    assert_eq!(parse_major("88"), 88);
    assert_eq!(parse_major("13.1.2"), 13);
    assert_eq!(parse_major(""), 0);
    assert_eq!(parse_major("beta"), 0);
    assert_eq!(parse_major(".5"), 0);
    assert_eq!(parse_major("4294967295"), 4294967295);
    assert_eq!(parse_major("4294967296"), 0);
}

#[test]
fn support_union_is_right_biased() {
    let mut a = BrowserSupport::empty();
    let one = BrowserSupport {
        chrome: Some(String::from("80")),
        firefox: None,
        safari: Some(String::from("13")),
        edge: None,
    };
    let two = BrowserSupport {
        chrome: Some(String::from("85")),
        firefox: Some(String::from("78")),
        safari: None,
        edge: None,
    };
    a.extend(&one);
    a.extend(&two);
    assert_eq!(a.chrome, Some(String::from("85")));
    assert_eq!(a.firefox, Some(String::from("78")));
    assert_eq!(a.safari, Some(String::from("13")));
    assert_eq!(a.edge, None);
}

#[test]
fn summarize_of_no_reports_is_all_zero() {
    let reports: Vec<jsco::report::Report> = vec![];
    let summary = jsco::pipeline::summarize(&reports);
    assert_eq!(summary.total, 0);
    assert_eq!(summary.with_features, 0);
    assert_eq!(summary.occurrences, 0);
}

#[test]
fn an_unparseable_target_version_counts_as_major_zero() {
    let targets = vec![target("chrome", "TP")];
    assert!(is_supported("chrome", "0", &targets));
    assert!(!is_supported("chrome", "1", &targets));
}
