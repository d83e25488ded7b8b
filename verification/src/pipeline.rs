//! The batch pipeline's decision logic: classifying raw inputs, the
//! per-source scan-and-aggregate step, the download cache key, and the run
//! summary reduced over the finished reports. The surrounding enumeration,
//! file and network work is driven from outside against these functions.

use vstd::prelude::*;
use vstd::string::*;
use crate::bcd::{bs_union, BrowserSupportModel};
use crate::features::JsFeature;
use crate::report::{
    first_feature_idx, FeatureReportModel, LocationModel, Report, report_wf,
};
use crate::resolver::{feature_mdn, feature_support, resolver_wf, Resolver};
use crate::scan::{node_wf, scan, scan_occurrences, span_wf, AstNode, Occurrence};
use crate::text::{seq_starts_with, str_contains_char, str_starts_with};

verus! {

/// One aggregation step: a first occurrence of a feature appends a fresh
/// report seeded with `sup` and `mdn`; a repeated occurrence only appends
/// the span.
pub open spec fn aggregate_step(
    frs: Seq<FeatureReportModel>,
    o: Occurrence,
    sup: BrowserSupportModel,
    mdn: Seq<char>,
) -> Seq<FeatureReportModel> {
    let fi = first_feature_idx(frs, o.feature);
    if fi < frs.len() {
        frs.update(
            fi,
            FeatureReportModel {
                feat_type: frs[fi].feat_type,
                found_in: frs[fi].found_in.push(o.span),
                locations: frs[fi].locations.push(
                    LocationModel { start: o.span.start, end: o.span.end, code: Seq::empty() },
                ),
                support: frs[fi].support,
                mdn_url: frs[fi].mdn_url,
            },
        )
    } else {
        frs.push(
            FeatureReportModel {
                feat_type: o.feature,
                found_in: seq![o.span],
                locations: seq![
                    LocationModel { start: o.span.start, end: o.span.end, code: Seq::empty() },
                ],
                support: sup,
                mdn_url: mdn,
            },
        )
    }
}

/// The feature map an occurrence stream aggregates to under a resolver
/// state, in occurrence order.
pub open spec fn aggregate(occs: Seq<Occurrence>, res: Resolver) -> Seq<FeatureReportModel>
    decreases occs.len(),
{
    if occs.len() == 0 {
        Seq::empty()
    } else {
        aggregate_step(
            aggregate(occs.drop_last(), res),
            occs.last(),
            feature_support(res, occs.last().feature),
            feature_mdn(res, occs.last().feature),
        )
    }
}

/// The report-level support union after aggregating an occurrence stream.
pub open spec fn aggregate_support(
    occs: Seq<Occurrence>,
    res: Resolver,
    init: BrowserSupportModel,
) -> BrowserSupportModel
    decreases occs.len(),
{
    if occs.len() == 0 {
        init
    } else {
        bs_union(
            aggregate_support(occs.drop_last(), res, init),
            feature_support(res, occs.last().feature),
        )
    }
}

impl Report {
    /// Scans an externally parsed node stream and populates this report's
    /// feature map, resolving each feature once through the resolver's
    /// memo. A source with parse diagnostics is not traversed: its feature
    /// map stays empty and the parse failure is recorded.
    pub fn check_feature(&mut self, nodes: &Vec<AstNode>, had_errors: bool, resolver: &Resolver)
        requires
            report_wf(*old(self)),
            old(self).features.deep_view().len() == 0,
            resolver_wf(*resolver),
            forall|i: int|
                0 <= i < nodes@.len() ==> node_wf(
                    #[trigger] nodes@[i],
                    old(self).source_code@.len(),
                ),
        ensures
            report_wf(*final(self)),
            final(self).path == old(self).path,
            final(self).source_code == old(self).source_code,
            final(self).found_features == old(self).found_features,
            had_errors ==> final(self).features.deep_view().len() == 0 && final(self).parse_failed
                && final(self).browser_support@ == old(self).browser_support@,
            !had_errors ==> ({
                let occs = scan_occurrences(nodes@, old(self).source_code@);
                &&& final(self).features.deep_view() == aggregate(occs, *resolver)
                &&& final(self).browser_support@ == aggregate_support(
                    occs,
                    *resolver,
                    old(self).browser_support@,
                )
                &&& final(self).parse_failed == old(self).parse_failed
            }),
    {
        if had_errors {
            self.parse_failed = true;
            return ;
        }
        let occs = scan(nodes, &self.source_code);
        let ghost all = occs@;
        let mut i: usize = 0;
        while i < occs.len()
            invariant
                report_wf(*self),
                resolver_wf(*resolver),
                self.path == old(self).path,
                self.source_code == old(self).source_code,
                self.found_features == old(self).found_features,
                self.parse_failed == old(self).parse_failed,
                all == occs@,
                all == scan_occurrences(nodes@, old(self).source_code@),
                forall|k: int|
                    0 <= k < all.len() ==> span_wf(
                        #[trigger] all[k].span,
                        old(self).source_code@.len(),
                    ),
                i <= all.len(),
                self.features.deep_view() == aggregate(all.subrange(0, i as int), *resolver),
                self.browser_support@ == aggregate_support(
                    all.subrange(0, i as int),
                    *resolver,
                    old(self).browser_support@,
                ),
            decreases all.len() - i,
        {
            let o = occs[i];
            let sup = resolver.support_for(o.feature);
            let mdn = resolver.mdn_for(o.feature);
            self.process_found(o.feature, o.span, &sup, &mdn);
            proof {
                assert(all.subrange(0, i as int + 1).drop_last() =~= all.subrange(0, i as int));
                assert(all.subrange(0, i as int + 1).last() == all[i as int]);
            }
            i = i + 1;
        }
        proof {
            assert(all.subrange(0, all.len() as int) =~= all);
        }
    }
}

/// How one raw input string is to be ingested.
#[derive(Debug)]
pub enum InputType {
    File(String),
    Url(String),
    Directory(String),
    Glob(String),
}

impl InputType {
    /// Classifies a raw input: an absolute http or https address is a URL;
    /// otherwise a string with a `*` is a glob pattern; otherwise a path
    /// the filesystem reports as a directory is one; everything else is a
    /// file. The filesystem's answer arrives as `is_directory`.
    pub fn from_str(s: &str, is_directory: bool) -> (r: InputType)
        ensures
            ({
                let is_url = seq_starts_with(s@, "http://"@) || seq_starts_with(s@, "https://"@);
                let is_glob = !is_url && s@.contains('*');
                let is_dir = !is_url && !is_glob && is_directory;
                &&& is_url ==> (r matches InputType::Url(u) && u@ == s@)
                &&& is_glob ==> (r matches InputType::Glob(g) && g@ == s@)
                &&& is_dir ==> (r matches InputType::Directory(d) && d@ == s@)
                &&& (!is_url && !is_glob && !is_dir) ==> (r matches InputType::File(f) && f@
                    == s@)
            }),
    {
        if str_starts_with(s, "http://") || str_starts_with(s, "https://") {
            InputType::Url(s.to_owned())
        } else if str_contains_char(s, '*') {
            InputType::Glob(s.to_owned())
        } else if is_directory {
            InputType::Directory(s.to_owned())
        } else {
            InputType::File(s.to_owned())
        }
    }
}

/// A lowercase hexadecimal digit.
pub open spec fn is_lower_hex_digit(c: char) -> bool {
    (48 <= c as int && c as int <= 57) || (97 <= c as int && c as int <= 102)
}

/// The hex digest a text maps to under the download cache's key transform.
pub uninterp spec fn md5_hex_of(s: Seq<char>) -> Seq<char>;

/// Relies on md5::compute and the digest's lower-hex rendering: two lower
/// hex digits per byte of the 16-byte digest, a function of the input alone.
#[verifier::external_body]
fn md5_hex(s: &str) -> (r: String)
    ensures
        r@ == md5_hex_of(s@),
        r@.len() == 32,
        forall|i: int| 0 <= i < r@.len() ==> is_lower_hex_digit(#[trigger] r@[i]),
{
    format!("{:x}", md5::compute(s.as_bytes()))
}

/// The scheme, host and path of an absolute URL, if `s` is one.
pub uninterp spec fn url_parts_of(s: Seq<char>) -> Option<(Seq<char>, Seq<char>, Seq<char>)>;

/// Relies on url::Url::parse and its scheme, host_str and path accessors:
/// the parsed URL's three components, deterministic in the input; a string
/// that is not an absolute URL yields nothing.
#[verifier::external_body]
fn url_parts(s: &str) -> (r: Option<(String, String, String)>)
    ensures
        r is Some <==> url_parts_of(s@) is Some,
        r matches Some(p) ==> Some((p.0@, p.1@, p.2@)) == url_parts_of(s@),
{
    match url::Url::parse(s) {
        Ok(u) => Some(
            (u.scheme().to_owned(), u.host_str().unwrap_or("").to_owned(), u.path().to_owned()),
        ),
        Err(_) => None,
    }
}

/// The scheme://host/path normalization of an absolute URL: query and
/// fragment are dropped, so two addresses differing only there share a key.
pub open spec fn spec_url_base(s: Seq<char>) -> Option<Seq<char>> {
    match url_parts_of(s) {
        Some(p) => Some(p.0 + "://"@ + p.1 + p.2),
        None => None,
    }
}

/// The cache key a download is stored under: the digest of the URL's
/// normalized base, or of the raw string when it is not an absolute URL.
pub open spec fn spec_cache_key(s: Seq<char>) -> Seq<char> {
    match spec_url_base(s) {
        Some(b) => md5_hex_of(b),
        None => md5_hex_of(s),
    }
}

/// Derives the download cache key for an input URL: 32 lowercase hex
/// characters, hence a filesystem-safe file name.
pub fn get_cache_key(url: &str) -> (r: String)
    ensures
        r@ == spec_cache_key(url@),
        r@.len() == 32,
        forall|i: int| 0 <= i < r@.len() ==> is_lower_hex_digit(#[trigger] r@[i]),
{
    match url_parts(url) {
        Some((scheme, host, path)) => {
            let mut base = scheme;
            base.append("://");
            base.append(host.as_str());
            base.append(path.as_str());
            proof {
                assert(base@ =~= spec_url_base(url@).unwrap());
            }
            md5_hex(base.as_str())
        },
        None => md5_hex(url),
    }
}

/// The totals of one batch run.
#[derive(Clone, Copy, Debug, PartialEq, Eq, Structural)]
pub struct RunSummary {
    pub total: usize,
    pub with_features: usize,
    pub occurrences: u64,
}

/// Addition that stops at the counter's ceiling.
pub open spec fn sat_add(a: int, b: int) -> int {
    if a + b > u64::MAX {
        u64::MAX as int
    } else {
        a + b
    }
}

/// How many of the first `n` reports carry at least one feature.
pub open spec fn spec_with_features(rs: Seq<Report>, n: int) -> int
    decreases n,
{
    if n <= 0 {
        0
    } else {
        spec_with_features(rs, n - 1) + if rs[n - 1].found_features@.len() > 0 {
            1int
        } else {
            0int
        }
    }
}

/// The occurrences recorded in one finalized report.
pub open spec fn spec_report_occurrences(frs: Seq<crate::report::FeatureReport>, n: int) -> int
    decreases n,
{
    if n <= 0 {
        0
    } else {
        sat_add(spec_report_occurrences(frs, n - 1), frs[n - 1].found_in@.len() as int)
    }
}

/// The occurrences recorded in the first `n` reports.
pub open spec fn spec_total_occurrences(rs: Seq<Report>, n: int) -> int
    decreases n,
{
    if n <= 0 {
        0
    } else {
        sat_add(
            spec_total_occurrences(rs, n - 1),
            spec_report_occurrences(rs[n - 1].found_features@, rs[n - 1].found_features@.len() as int),
        )
    }
}

/// Reduces the finished reports to the run totals: every report counts as
/// processed, those with at least one feature are counted apart, and the
/// recorded occurrences are summed, stopping at the counter's ceiling.
pub fn summarize(reports: &Vec<Report>) -> (r: RunSummary)
    ensures
        r.total == reports@.len(),
        r.with_features == spec_with_features(reports@, reports@.len() as int),
        r.occurrences == spec_total_occurrences(reports@, reports@.len() as int),
{
    let mut with_features: usize = 0;
    let mut occurrences: u64 = 0;
    let mut i: usize = 0;
    while i < reports.len()
        invariant
            i <= reports@.len(),
            with_features == spec_with_features(reports@, i as int),
            with_features <= i,
            occurrences == spec_total_occurrences(reports@, i as int),
        decreases reports@.len() - i,
    {
        let frs = &reports[i].found_features;
        if frs.len() > 0 {
            with_features = with_features + 1;
        }
        let mut j: usize = 0;
        let mut here: u64 = 0;
        while j < frs.len()
            invariant
                j <= frs@.len(),
                here == spec_report_occurrences(frs@, j as int),
            decreases frs@.len() - j,
        {
            let n = frs[j].found_in.len();
            if n as u64 > u64::MAX - here {
                here = u64::MAX;
            } else {
                here = here + n as u64;
            }
            j = j + 1;
        }
        if here > u64::MAX - occurrences {
            occurrences = u64::MAX;
        } else {
            occurrences = occurrences + here;
        }
        i = i + 1;
    }
    RunSummary { total: reports.len(), with_features, occurrences }
}

/// The rendering formats the surrounding tooling offers.
#[derive(Clone, Copy, Debug, PartialEq, Eq, Structural)]
pub enum OutputFormat {
    HTML,
    Json,
}

/// Rendering of a finished batch. The core produces the reports; how they
/// are written out is the surrounding tooling's business, behind this trait.
pub trait ReportOutput {
    fn output(&self, format: OutputFormat);
}

} // verus!
