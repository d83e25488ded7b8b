//! The occurrence aggregator: per-source reports. Occurrences accumulate
//! into one `FeatureReport` per feature; finalizing snapshots the feature
//! map into a list ordered by lookup key, with each span's source text
//! materialized.

use vstd::prelude::*;
use vstd::string::*;
use crate::bcd::{bs_union, BrowserSupport, BrowserSupportModel};
use crate::features::JsFeature;
use crate::scan::{span_wf, Span};
use crate::text::{lemma_lex_total, lemma_lex_trans, lex_leq, str_lex_leq};

verus! {

/// A matched span and, once the report is finalized, the source text at it.
#[derive(Debug)]
pub struct Location {
    pub start: usize,
    pub end: usize,
    pub code: Vec<u8>,
}

/// Mathematical image of a `Location`.
pub struct LocationModel {
    pub start: usize,
    pub end: usize,
    pub code: Seq<u8>,
}

impl View for Location {
    type V = LocationModel;

    open spec fn view(&self) -> LocationModel {
        LocationModel { start: self.start, end: self.end, code: self.code@ }
    }
}

impl DeepView for Location {
    type V = LocationModel;

    open spec fn deep_view(&self) -> LocationModel {
        self.view()
    }
}

/// One feature's aggregate over a single source: every span it was matched
/// at, the resolved browser support, and a documentation reference.
#[derive(Debug)]
pub struct FeatureReport {
    pub feat_type: JsFeature,
    pub found_in: Vec<Span>,
    pub locations: Vec<Location>,
    pub support: BrowserSupport,
    pub mdn_url: String,
}

/// Mathematical image of a `FeatureReport`.
pub struct FeatureReportModel {
    pub feat_type: JsFeature,
    pub found_in: Seq<Span>,
    pub locations: Seq<LocationModel>,
    pub support: BrowserSupportModel,
    pub mdn_url: Seq<char>,
}

impl View for FeatureReport {
    type V = FeatureReportModel;

    open spec fn view(&self) -> FeatureReportModel {
        FeatureReportModel {
            feat_type: self.feat_type,
            found_in: self.found_in@,
            locations: self.locations.deep_view(),
            support: self.support@,
            mdn_url: self.mdn_url@,
        }
    }
}

impl DeepView for FeatureReport {
    type V = FeatureReportModel;

    open spec fn deep_view(&self) -> FeatureReportModel {
        self.view()
    }
}

/// Each location mirrors the span at the same position, and every span lies
/// within a source of `srclen` bytes.
pub open spec fn fr_wf(fr: FeatureReportModel, srclen: nat) -> bool {
    &&& fr.locations.len() == fr.found_in.len()
    &&& forall|i: int|
        0 <= i < fr.found_in.len() ==> span_wf(#[trigger] fr.found_in[i], srclen)
    &&& forall|i: int|
        0 <= i < fr.found_in.len() ==> (#[trigger] fr.locations[i]).start == fr.found_in[i].start
            && fr.locations[i].end == fr.found_in[i].end
}

/// The report with each location's source text materialized from `src`.
pub open spec fn fr_filled(fr: FeatureReportModel, src: Seq<u8>) -> FeatureReportModel {
    FeatureReportModel {
        feat_type: fr.feat_type,
        found_in: fr.found_in,
        locations: Seq::new(
            fr.locations.len(),
            |i: int|
                LocationModel {
                    start: fr.locations[i].start,
                    end: fr.locations[i].end,
                    code: src.subrange(fr.locations[i].start as int, fr.locations[i].end as int),
                },
        ),
        support: fr.support,
        mdn_url: fr.mdn_url,
    }
}

/// Every report filled against `src`.
pub open spec fn fill_all(s: Seq<FeatureReportModel>, src: Seq<u8>) -> Seq<FeatureReportModel> {
    Seq::new(s.len(), |i: int| fr_filled(s[i], src))
}

/// Ordered by the features' lookup keys.
pub open spec fn sorted_by_key(s: Seq<FeatureReportModel>) -> bool {
    forall|i: int, j: int|
        #![trigger s[i], s[j]]
        0 <= i < j < s.len() ==> lex_leq(s[i].feat_type.spec_key(), s[j].feat_type.spec_key())
}

/// No two reports describe the same feature.
pub open spec fn distinct_features(s: Seq<FeatureReportModel>) -> bool {
    forall|i: int, j: int|
        #![trigger s[i], s[j]]
        0 <= i < j < s.len() ==> s[i].feat_type != s[j].feat_type
}

/// Index of the first report for `f`, or `s.len()` when there is none.
pub open spec fn first_feature_idx(s: Seq<FeatureReportModel>, f: JsFeature) -> int
    decreases s.len(),
{
    if s.len() == 0 {
        0
    } else if s[0].feat_type == f {
        0
    } else {
        1 + first_feature_idx(s.drop_first(), f)
    }
}

pub proof fn lemma_first_feature_idx(s: Seq<FeatureReportModel>, f: JsFeature)
    ensures
        0 <= first_feature_idx(s, f) <= s.len(),
        first_feature_idx(s, f) < s.len() ==> s[first_feature_idx(s, f)].feat_type == f,
        forall|k: int| 0 <= k < first_feature_idx(s, f) ==> (#[trigger] s[k]).feat_type != f,
    decreases s.len(),
{
    if s.len() == 0 {
    } else if s[0].feat_type == f {
    } else {
        lemma_first_feature_idx(s.drop_first(), f);
        assert forall|k: int| 0 <= k < first_feature_idx(s, f) implies (#[trigger] s[k]).feat_type
            != f by {
            if k > 0 {
                assert(s.drop_first()[k - 1].feat_type != f);
            }
        }
    }
}

/// Copies a span list.
fn clone_spans(v: &Vec<Span>) -> (r: Vec<Span>)
    ensures
        r@ == v@,
{
    let mut r: Vec<Span> = Vec::new();
    let mut i: usize = 0;
    while i < v.len()
        invariant
            i <= v@.len(),
            r@ == v@.subrange(0, i as int),
        decreases v@.len() - i,
    {
        r.push(v[i]);
        proof {
            assert(r@ =~= v@.subrange(0, i as int + 1));
        }
        i = i + 1;
    }
    proof {
        assert(v@.subrange(0, v@.len() as int) =~= v@);
    }
    r
}

/// Copies a byte range of `src`.
fn bytes_slice(src: &Vec<u8>, start: usize, end: usize) -> (r: Vec<u8>)
    requires
        start <= end <= src@.len(),
    ensures
        r@ == src@.subrange(start as int, end as int),
{
    let mut r: Vec<u8> = Vec::new();
    let mut k: usize = start;
    while k < end
        invariant
            start <= k <= end <= src@.len(),
            r@ == src@.subrange(start as int, k as int),
        decreases end - k,
    {
        r.push(src[k]);
        proof {
            assert(r@ =~= src@.subrange(start as int, k as int + 1));
        }
        k = k + 1;
    }
    r
}

/// Copies a byte list.
fn clone_bytes(v: &Vec<u8>) -> (r: Vec<u8>)
    ensures
        r@ == v@,
{
    let mut r: Vec<u8> = Vec::new();
    let mut i: usize = 0;
    while i < v.len()
        invariant
            i <= v@.len(),
            r@ == v@.subrange(0, i as int),
        decreases v@.len() - i,
    {
        r.push(v[i]);
        proof {
            assert(r@ =~= v@.subrange(0, i as int + 1));
        }
        i = i + 1;
    }
    proof {
        assert(v@.subrange(0, v@.len() as int) =~= v@);
    }
    r
}

fn clone_locations(v: &Vec<Location>) -> (r: Vec<Location>)
    ensures
        r.deep_view() == v.deep_view(),
{
    let mut r: Vec<Location> = Vec::new();
    let mut i: usize = 0;
    while i < v.len()
        invariant
            i <= v@.len(),
            r@.len() == i,
            forall|k: int| 0 <= k < i ==> #[trigger] r@[k]@ == v@[k]@,
        decreases v@.len() - i,
    {
        let loc = Location { start: v[i].start, end: v[i].end, code: clone_bytes(&v[i].code) };
        r.push(loc);
        i = i + 1;
    }
    proof {
        assert(r.deep_view() =~= v.deep_view());
    }
    r
}

impl FeatureReport {
    /// A fresh report for `feat_type`, seeded with its resolved support.
    pub fn new(feat_type: JsFeature, support: BrowserSupport) -> (r: FeatureReport)
        ensures
            r@.feat_type == feat_type,
            r@.found_in == Seq::<Span>::empty(),
            r@.locations == Seq::<LocationModel>::empty(),
            r@.support == support@,
            r@.mdn_url == Seq::<char>::empty(),
    {
        let r = FeatureReport {
            feat_type,
            found_in: Vec::new(),
            locations: Vec::new(),
            support,
            mdn_url: String::new(),
        };
        proof {
            assert(r.locations.deep_view() =~= Seq::<LocationModel>::empty());
        }
        r
    }

    /// Appends one matched span; its source text is materialized later.
    pub fn add_span(&mut self, span: Span)
        ensures
            final(self)@.feat_type == old(self)@.feat_type,
            final(self)@.found_in == old(self)@.found_in.push(span),
            final(self)@.locations == old(self)@.locations.push(
                LocationModel { start: span.start, end: span.end, code: Seq::empty() },
            ),
            final(self)@.support == old(self)@.support,
            final(self)@.mdn_url == old(self)@.mdn_url,
    {
        self.found_in.push(span);
        let loc = Location { start: span.start, end: span.end, code: Vec::new() };
        self.locations.push(loc);
        proof {
            assert(self.locations.deep_view() =~= old(self).locations.deep_view().push(
                LocationModel { start: span.start, end: span.end, code: Seq::empty() },
            ));
        }
    }

    /// Materializes each span's source text by slicing `source_code`.
    pub fn prepare_output(&mut self, source_code: &Vec<u8>)
        requires
            fr_wf(old(self)@, source_code@.len()),
        ensures
            final(self)@ == fr_filled(old(self)@, source_code@),
    {
        let mut filled: Vec<Location> = Vec::new();
        let mut i: usize = 0;
        while i < self.locations.len()
            invariant
                *self == *old(self),
                fr_wf(self@, source_code@.len()),
                i <= self.locations@.len(),
                filled@.len() == i,
                forall|k: int|
                    0 <= k < i ==> #[trigger] filled@[k]@ == fr_filled(
                        self@,
                        source_code@,
                    ).locations[k],
            decreases self.locations@.len() - i,
        {
            let sp = self.found_in[i];
            let code = bytes_slice(source_code, sp.start, sp.end);
            filled.push(Location { start: sp.start, end: sp.end, code });
            i = i + 1;
        }
        self.locations = filled;
        proof {
            assert(self.locations.deep_view() =~= fr_filled(old(self)@, source_code@).locations);
            assert(self@ =~= fr_filled(old(self)@, source_code@));
        }
    }

    /// A field-for-field copy.
    pub fn duplicate(&self) -> (r: FeatureReport)
        ensures
            r@ == self@,
    {
        let r = FeatureReport {
            feat_type: self.feat_type,
            found_in: clone_spans(&self.found_in),
            locations: clone_locations(&self.locations),
            support: self.support.duplicate(),
            mdn_url: self.mdn_url.clone(),
        };
        proof {
            assert(r@ =~= self@);
        }
        r
    }
}

/// Snapshots of `input`, ordered by lookup key.
fn sort_by_lookup_key(input: Vec<FeatureReport>) -> (r: Vec<FeatureReport>)
    ensures
        r.deep_view().to_multiset() == input.deep_view().to_multiset(),
        sorted_by_key(r.deep_view()),
{
    broadcast use vstd::seq_lib::group_to_multiset_ensures;
    broadcast use vstd::multiset::group_multiset_axioms;

    let mut rest = input;
    let mut out: Vec<FeatureReport> = Vec::new();
    let ghost orig = rest.deep_view();
    proof {
        assert(out.deep_view() =~= Seq::<FeatureReportModel>::empty());
        assert(out.deep_view().to_multiset().add(rest.deep_view().to_multiset()) =~= orig
            .to_multiset());
    }
    while rest.len() > 0
        invariant
            out.deep_view().to_multiset().add(rest.deep_view().to_multiset()) == orig.to_multiset(),
            sorted_by_key(out.deep_view()),
            forall|i: int, j: int|
                #![trigger out.deep_view()[i], rest.deep_view()[j]]
                0 <= i < out.deep_view().len() && 0 <= j < rest.deep_view().len() ==> lex_leq(
                    out.deep_view()[i].feat_type.spec_key(),
                    rest.deep_view()[j].feat_type.spec_key(),
                ),
        decreases rest@.len(),
    {
        // Select the minimal remaining key.
        let mut m: usize = 0;
        let mut i: usize = 1;
        proof {
            lemma_lex_total(
                rest.deep_view()[0].feat_type.spec_key(),
                rest.deep_view()[0].feat_type.spec_key(),
            );
        }
        while i < rest.len()
            invariant
                rest@.len() > 0,
                m < i,
                i <= rest@.len(),
                forall|k: int|
                    0 <= k < i ==> lex_leq(
                        rest.deep_view()[m as int].feat_type.spec_key(),
                        (#[trigger] rest.deep_view()[k]).feat_type.spec_key(),
                    ),
            decreases rest@.len() - i,
        {
            let ghost mk = rest.deep_view()[m as int].feat_type.spec_key();
            let ghost ik = rest.deep_view()[i as int].feat_type.spec_key();
            if !str_lex_leq(rest[m].feat_type.key(), rest[i].feat_type.key()) {
                proof {
                    lemma_lex_total(mk, ik);
                    assert forall|k: int| 0 <= k < i + 1 implies lex_leq(
                        ik,
                        (#[trigger] rest.deep_view()[k]).feat_type.spec_key(),
                    ) by {
                        if k < i {
                            lemma_lex_trans(
                                ik,
                                mk,
                                rest.deep_view()[k].feat_type.spec_key(),
                            );
                        } else {
                            lemma_lex_total(ik, ik);
                        }
                    }
                }
                m = i;
            }
            i = i + 1;
        }
        let ghost pre_rest = rest.deep_view();
        let ghost pre_out = out.deep_view();
        let picked = rest.remove(m);
        out.push(picked);
        proof {
            assert(rest.deep_view() =~= pre_rest.remove(m as int));
            assert(out.deep_view() =~= pre_out.push(picked@));
            assert(pre_rest[m as int] == picked@);
            assert(pre_rest.contains(picked@));
            pre_rest.to_multiset_ensures();
            pre_out.to_multiset_ensures();
            assert(pre_rest.to_multiset().count(picked@) > 0);
            assert(out.deep_view().to_multiset().add(rest.deep_view().to_multiset()) =~= orig
                .to_multiset()) by {
                assert(out.deep_view().to_multiset() =~= pre_out.to_multiset().insert(picked@));
                assert(rest.deep_view().to_multiset() =~= pre_rest.to_multiset().remove(picked@));
            }
            // Order: the picked key is minimal among what remains.
            assert forall|i2: int, j2: int|
                #![trigger out.deep_view()[i2], rest.deep_view()[j2]]
                0 <= i2 < out.deep_view().len() && 0 <= j2 < rest.deep_view().len() implies lex_leq(
                out.deep_view()[i2].feat_type.spec_key(),
                rest.deep_view()[j2].feat_type.spec_key(),
            ) by {
                let ghost shifted: int = if j2 < m { j2 } else { j2 + 1 };
                assert(rest.deep_view()[j2] == pre_rest[shifted]);
                if i2 < pre_out.len() {
                    assert(out.deep_view()[i2] == pre_out[i2]);
                } else {
                    assert(out.deep_view()[i2] == picked@);
                }
            }
            assert(sorted_by_key(out.deep_view())) by {
                assert forall|i2: int, j2: int|
                    #![trigger out.deep_view()[i2], out.deep_view()[j2]]
                    0 <= i2 < j2 < out.deep_view().len() implies lex_leq(
                    out.deep_view()[i2].feat_type.spec_key(),
                    out.deep_view()[j2].feat_type.spec_key(),
                ) by {
                    if j2 < pre_out.len() {
                        assert(out.deep_view()[i2] == pre_out[i2]);
                        assert(out.deep_view()[j2] == pre_out[j2]);
                    } else {
                        assert(out.deep_view()[j2] == picked@);
                        assert(out.deep_view()[i2] == pre_out[i2]);
                        assert(lex_leq(
                            pre_out[i2].feat_type.spec_key(),
                            pre_rest[m as int].feat_type.spec_key(),
                        ));
                    }
                }
            }
        }
    }
    proof {
        assert(rest.deep_view() =~= Seq::<FeatureReportModel>::empty());
        assert(out.deep_view().to_multiset().add(rest.deep_view().to_multiset()) =~= out
            .deep_view().to_multiset());
    }
    out
}

/// One processed input: its identifier, raw source bytes, the feature map
/// populated by the scanner, the finalized snapshot, and the union of the
/// browser support across all its features.
#[derive(Debug)]
pub struct Report {
    pub path: String,
    pub source_code: Vec<u8>,
    pub features: Vec<FeatureReport>,
    pub found_features: Vec<FeatureReport>,
    pub browser_support: BrowserSupport,
    pub parse_failed: bool,
}

/// The ordered result of one batch run.
pub type Reports = Vec<Report>;

/// The feature map holds at most one entry per feature, and every recorded
/// span lies within the report's source.
pub open spec fn report_wf(r: Report) -> bool {
    &&& forall|i: int|
        0 <= i < r.features.deep_view().len() ==> fr_wf(
            #[trigger] r.features.deep_view()[i],
            r.source_code@.len(),
        )
    &&& distinct_features(r.features.deep_view())
}

impl Report {
    /// A fresh report for one input, before scanning.
    pub fn new(path: String, source_code: Vec<u8>) -> (r: Report)
        ensures
            r.path@ == path@,
            r.source_code@ == source_code@,
            r.features.deep_view() == Seq::<FeatureReportModel>::empty(),
            r.found_features.deep_view() == Seq::<FeatureReportModel>::empty(),
            r.browser_support@.chrome is None,
            r.browser_support@.firefox is None,
            r.browser_support@.safari is None,
            r.browser_support@.edge is None,
            r.parse_failed == false,
            report_wf(r),
    {
        let r = Report {
            path,
            source_code,
            features: Vec::new(),
            found_features: Vec::new(),
            browser_support: BrowserSupport::empty(),
            parse_failed: false,
        };
        proof {
            assert(r.features.deep_view() =~= Seq::<FeatureReportModel>::empty());
            assert(r.found_features.deep_view() =~= Seq::<FeatureReportModel>::empty());
        }
        r
    }

    /// Records one occurrence. A first occurrence of a feature creates its
    /// report, seeded with the resolved `support` and documentation
    /// reference; later occurrences only append the span. The report-level
    /// support union always absorbs `support`.
    pub fn process_found(
        &mut self,
        feature: JsFeature,
        span: Span,
        support: &BrowserSupport,
        mdn: &String,
    )
        requires
            report_wf(*old(self)),
            span_wf(span, old(self).source_code@.len()),
        ensures
            report_wf(*final(self)),
            final(self).path == old(self).path,
            final(self).source_code == old(self).source_code,
            final(self).found_features == old(self).found_features,
            final(self).parse_failed == old(self).parse_failed,
            final(self).browser_support@ == bs_union(old(self).browser_support@, support@),
            ({
                let frs = old(self).features.deep_view();
                let fi = first_feature_idx(frs, feature);
                if fi < frs.len() {
                    final(self).features.deep_view() == frs.update(
                        fi,
                        FeatureReportModel {
                            feat_type: frs[fi].feat_type,
                            found_in: frs[fi].found_in.push(span),
                            locations: frs[fi].locations.push(
                                LocationModel {
                                    start: span.start,
                                    end: span.end,
                                    code: Seq::empty(),
                                },
                            ),
                            support: frs[fi].support,
                            mdn_url: frs[fi].mdn_url,
                        },
                    )
                } else {
                    final(self).features.deep_view() == frs.push(
                        FeatureReportModel {
                            feat_type: feature,
                            found_in: seq![span],
                            locations: seq![
                                LocationModel {
                                    start: span.start,
                                    end: span.end,
                                    code: Seq::empty(),
                                },
                            ],
                            support: support@,
                            mdn_url: mdn@,
                        },
                    )
                }
            }),
    {
        proof {
            lemma_first_feature_idx(old(self).features.deep_view(), feature);
        }
        self.browser_support.extend(support);
        let n = self.features.len();
        let mut fi: usize = 0;
        let mut found = false;
        while fi < n && !found
            invariant
                self.features == old(self).features,
                n == self.features@.len(),
                fi <= n,
                found ==> fi < n && self.features.deep_view()[fi as int].feat_type == feature,
                forall|k: int|
                    0 <= k < fi ==> (#[trigger] self.features.deep_view()[k]).feat_type != feature,
            decreases n - fi + (if found { 0int } else { 1int }),
        {
            if self.features[fi].feat_type == feature {
                found = true;
            } else {
                fi = fi + 1;
            }
        }
        proof {
            assert(fi as int == first_feature_idx(old(self).features.deep_view(), feature));
        }
        let ghost frs = old(self).features.deep_view();
        if fi < n {
            let mut fr = self.features.remove(fi);
            fr.add_span(span);
            self.features.insert(fi, fr);
            proof {
                let da = self.features.deep_view();
                let target = frs.update(
                    fi as int,
                    FeatureReportModel {
                        feat_type: frs[fi as int].feat_type,
                        found_in: frs[fi as int].found_in.push(span),
                        locations: frs[fi as int].locations.push(
                            LocationModel { start: span.start, end: span.end, code: Seq::empty() },
                        ),
                        support: frs[fi as int].support,
                        mdn_url: frs[fi as int].mdn_url,
                    },
                );
                assert(da.len() == target.len());
                assert forall|k: int| 0 <= k < da.len() implies da[k] == target[k] by {
                    if k < fi {
                        assert(self.features@[k] == old(self).features@[k]);
                    } else if k == fi {
                        assert(da[k] =~~= target[k]);
                    } else {
                        assert(self.features@[k] == old(self).features@[k]);
                    }
                }
                assert(da =~= target);
            }
        } else {
            let mut fr = FeatureReport::new(feature, support.duplicate());
            fr.add_span(span);
            fr.mdn_url = mdn.clone();
            self.features.push(fr);
            proof {
                let da = self.features.deep_view();
                let target = frs.push(
                    FeatureReportModel {
                        feat_type: feature,
                        found_in: seq![span],
                        locations: seq![
                            LocationModel { start: span.start, end: span.end, code: Seq::empty() },
                        ],
                        support: support@,
                        mdn_url: mdn@,
                    },
                );
                assert(da.len() == target.len());
                assert forall|k: int| 0 <= k < da.len() implies da[k] == target[k] by {
                    if k < frs.len() {
                        assert(self.features@[k] == old(self).features@[k]);
                    } else {
                        assert(da[k] =~~= target[k]);
                    }
                }
                assert(da =~= target);
            }
        }
    }

    /// Finalizes the report: snapshots the feature map into a list ordered
    /// by lookup key, with each span's source text materialized.
    pub fn prepare_output(&mut self)
        requires
            report_wf(*old(self)),
        ensures
            report_wf(*final(self)),
            final(self).path == old(self).path,
            final(self).source_code == old(self).source_code,
            final(self).features.deep_view() == old(self).features.deep_view(),
            final(self).browser_support@ == old(self).browser_support@,
            final(self).parse_failed == old(self).parse_failed,
            sorted_by_key(final(self).found_features.deep_view()),
            final(self).found_features.deep_view().to_multiset() == fill_all(
                old(self).features.deep_view(),
                old(self).source_code@,
            ).to_multiset(),
    {
        let mut tmp: Vec<FeatureReport> = Vec::new();
        let mut i: usize = 0;
        while i < self.features.len()
            invariant
                *self == *old(self),
                report_wf(*self),
                i <= self.features@.len(),
                tmp.deep_view().len() == i,
                forall|k: int|
                    0 <= k < i ==> #[trigger] tmp.deep_view()[k] == fr_filled(
                        self.features.deep_view()[k],
                        self.source_code@,
                    ),
            decreases self.features@.len() - i,
        {
            let ghost pre_tmp = tmp.deep_view();
            proof {
                assert(fr_wf(self.features.deep_view()[i as int], self.source_code@.len()));
                assert(self.features.deep_view()[i as int] == self.features@[i as int]@);
            }
            let mut fr = self.features[i].duplicate();
            fr.prepare_output(&self.source_code);
            tmp.push(fr);
            proof {
                assert(tmp.deep_view() =~= pre_tmp.push(fr@));
            }
            i = i + 1;
        }
        proof {
            assert(tmp.deep_view() =~= fill_all(
                old(self).features.deep_view(),
                old(self).source_code@,
            ));
        }
        self.found_features = sort_by_lookup_key(tmp);
    }

    /// Hands the feature map out, consuming the report.
    pub fn get_features(self) -> (r: Vec<FeatureReport>)
        ensures
            r.deep_view() == self.features.deep_view(),
    {
        self.features
    }
}

} // verus!
