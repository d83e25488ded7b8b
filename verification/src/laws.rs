//! Laws relating the scanner, the aggregator and the resolver across
//! operations: what one matched construct yields end to end, and that every
//! aggregated report observes exactly the support its feature resolves to.

use vstd::prelude::*;
use crate::bcd::BrowserSupportModel;
use crate::pipeline::{aggregate, aggregate_step};
use crate::report::{fill_all, first_feature_idx, FeatureReportModel};
use crate::resolver::{feature_mdn, feature_support, Resolver};
use crate::scan::{scan_occurrences, AstNode, Occurrence};

verus! {

/// Law: every feature report an aggregation produces carries exactly the
/// support map and documentation reference that the resolver's memo gives
/// its feature. Resolution is consulted once per feature and report, yet
/// each entry's data is the memoized record's, however often the feature
/// occurred.
pub proof fn lemma_aggregate_entry_support(occs: Seq<Occurrence>, res: Resolver, i: int)
    requires
        0 <= i < aggregate(occs, res).len(),
    ensures
        aggregate(occs, res)[i].support == feature_support(
            res,
            aggregate(occs, res)[i].feat_type,
        ),
        aggregate(occs, res)[i].mdn_url == feature_mdn(res, aggregate(occs, res)[i].feat_type),
    decreases occs.len(),
{
    if occs.len() == 0 {
    } else {
        let prev = aggregate(occs.drop_last(), res);
        let o = occs.last();
        let fi = first_feature_idx(prev, o.feature);
        crate::report::lemma_first_feature_idx(prev, o.feature);
        if fi < prev.len() {
            if i == fi {
                lemma_aggregate_entry_support(occs.drop_last(), res, fi);
            } else {
                lemma_aggregate_entry_support(occs.drop_last(), res, i);
            }
        } else {
            if i < prev.len() {
                lemma_aggregate_entry_support(occs.drop_last(), res, i);
            }
        }
    }
}

/// Law: two occurrence streams aggregated against one resolver state
/// observe identical support and documentation data for a shared feature,
/// even though each report resolved it independently.
pub proof fn lemma_same_resolver_same_support(
    occs1: Seq<Occurrence>,
    occs2: Seq<Occurrence>,
    res: Resolver,
    i: int,
    j: int,
)
    requires
        0 <= i < aggregate(occs1, res).len(),
        0 <= j < aggregate(occs2, res).len(),
        aggregate(occs1, res)[i].feat_type == aggregate(occs2, res)[j].feat_type,
    ensures
        aggregate(occs1, res)[i].support == aggregate(occs2, res)[j].support,
        aggregate(occs1, res)[i].mdn_url == aggregate(occs2, res)[j].mdn_url,
{
    lemma_aggregate_entry_support(occs1, res, i);
    lemma_aggregate_entry_support(occs2, res, j);
}

/// Law: a node stream whose scan yields exactly one occurrence aggregates
/// to exactly one feature report holding that one span, and finalizing
/// materializes precisely the source bytes the span covers.
pub proof fn lemma_single_occurrence(
    nodes: Seq<AstNode>,
    src: Seq<u8>,
    res: Resolver,
    o: Occurrence,
)
    requires
        scan_occurrences(nodes, src) == seq![o],
    ensures
        ({
            let frs = aggregate(scan_occurrences(nodes, src), res);
            &&& frs.len() == 1
            &&& frs[0].feat_type == o.feature
            &&& frs[0].found_in == seq![o.span]
            &&& frs[0].support == feature_support(res, o.feature)
            &&& fill_all(frs, src)[0].locations.len() == 1
            &&& fill_all(frs, src)[0].locations[0].code == src.subrange(
                o.span.start as int,
                o.span.end as int,
            )
        }),
{
    let occs = scan_occurrences(nodes, src);
    assert(occs.len() == 1);
    assert(occs.drop_last() =~= Seq::<Occurrence>::empty());
    assert(occs.last() == o);
    let prev = aggregate(occs.drop_last(), res);
    assert(prev.len() == 0);
    let frs = aggregate(occs, res);
    assert(frs == aggregate_step(prev, o, feature_support(res, o.feature), feature_mdn(res, o.feature)));
    assert(first_feature_idx(prev, o.feature) == 0);
}

} // verus!
