//! The per-feature cache codec: an encoded record decodes to itself, and
//! ill-formed texts decode to nothing.

use jsco::bcd::{
    Compatibility, Status, SupportInfo, SupportMap, VersionAdded, VersionSupport,
};
use jsco::cache::{decode_compat, encode_compat};
use jsco::features::JsFeature;
use jsco::resolver::cache_file_name;

fn sample() -> Compatibility {
    Compatibility {
        description: Some(String::from("The <code>??</code> operator.")),
        mdn_url: Some(String::from("https://developer.mozilla.org/docs/nullish")),
        status: Status { deprecated: false, experimental: true, standard_track: true },
        support: SupportMap {
            chrome: Some(VersionSupport::Single(SupportInfo {
                version_added: VersionAdded::Text(String::from("80")),
            })),
            firefox: Some(VersionSupport::Multiple(vec![
                SupportInfo { version_added: VersionAdded::Text(String::from("72")) },
                SupportInfo { version_added: VersionAdded::Bool(false) },
            ])),
            safari: Some(VersionSupport::Unknown),
            edge: None,
        },
    }
}

#[test]
fn encoded_record_decodes_to_itself() {
    let record = sample();
    let text = encode_compat(&record);
    let decoded = decode_compat(text.as_str()).expect("an encoded record must decode");
    assert_eq!(decoded.description, record.description);
    assert_eq!(decoded.mdn_url, record.mdn_url);
    assert_eq!(decoded.status.deprecated, record.status.deprecated);
    assert_eq!(decoded.status.experimental, record.status.experimental);
    assert_eq!(decoded.status.standard_track, record.status.standard_track);
    match (&decoded.support.chrome, &record.support.chrome) {
        (Some(VersionSupport::Single(a)), Some(VersionSupport::Single(b))) => {
            match (&a.version_added, &b.version_added) {
                (VersionAdded::Text(x), VersionAdded::Text(y)) => assert_eq!(x, y),
                _ => panic!("chrome entry changed shape"),
            }
        }
        _ => panic!("chrome support changed shape"),
    }
    match &decoded.support.firefox {
        Some(VersionSupport::Multiple(list)) => {
            assert_eq!(list.len(), 2);
            match &list[0].version_added {
                VersionAdded::Text(x) => assert_eq!(x, "72"),
                _ => panic!("first firefox entry changed"),
            }
            match &list[1].version_added {
                VersionAdded::Bool(b) => assert!(!b),
                _ => panic!("second firefox entry changed"),
            }
        }
        _ => panic!("firefox support changed shape"),
    }
    assert!(matches!(decoded.support.safari, Some(VersionSupport::Unknown)));
    assert!(decoded.support.edge.is_none());
}

#[test]
fn minimal_record_round_trips() {
    let record = Compatibility {
        description: None,
        mdn_url: None,
        status: Status { deprecated: true, experimental: false, standard_track: false },
        support: SupportMap { chrome: None, firefox: None, safari: None, edge: None },
    };
    let text = encode_compat(&record);
    let decoded = decode_compat(text.as_str()).expect("decode");
    assert_eq!(decoded.description, None);
    assert_eq!(decoded.mdn_url, None);
    assert!(decoded.status.deprecated);
    assert!(decoded.support.chrome.is_none());
}

#[test]
fn garbage_decodes_to_nothing() {
    assert!(decode_compat("").is_none());
    assert!(decode_compat("not a record").is_none());
    assert!(decode_compat("NN").is_none());
}

#[test]
fn trailing_bytes_are_rejected() {
    let text = encode_compat(&sample());
    let mut longer = String::from(text.as_str());
    longer.push('x');
    assert!(decode_compat(longer.as_str()).is_none());
}

#[test]
fn cache_file_names_are_filesystem_safe() {
    assert_eq!(
        cache_file_name(&JsFeature::Await),
        String::from("javascript_operators_await.rec")
    );
    assert_eq!(
        cache_file_name(&JsFeature::PerformanceNow),
        String::from("api_Performance_now.rec")
    );
}

#[test]
fn strings_full_of_digits_and_colons_round_trip() {
    let record = Compatibility {
        description: Some(String::from("10:abc 4:NSTF e i M U 1")),
        mdn_url: Some(String::from("")),
        status: Status { deprecated: false, experimental: false, standard_track: true },
        support: SupportMap {
            chrome: Some(VersionSupport::Single(SupportInfo {
                version_added: VersionAdded::Text(String::from("100:200")),
            })),
            firefox: None,
            safari: None,
            edge: None,
        },
    };
    let text = encode_compat(&record);
    let decoded = decode_compat(text.as_str()).expect("decode");
    assert_eq!(decoded.description, record.description);
    assert_eq!(decoded.mdn_url, Some(String::from("")));
    match &decoded.support.chrome {
        Some(VersionSupport::Single(info)) => match &info.version_added {
            VersionAdded::Text(v) => assert_eq!(v, "100:200"),
            _ => panic!("entry changed shape"),
        },
        _ => panic!("support changed shape"),
    }
}

#[test]
fn an_overlong_length_prefix_is_rejected() {
    assert!(decode_compat("S99999999999999999999999:x").is_none());
}
