//! The syntax scanner: a fixed table of structural patterns applied to an
//! externally parsed node stream. Each visited node yields zero or more
//! feature occurrences, every one carrying the byte span it was matched at.

use vstd::prelude::*;
use crate::features::JsFeature;
use crate::text::{seq_contains_sub, str_contains_sub, str_eq};

verus! {

/// A half-open byte-offset range `[start, end)` into source text.
#[derive(Clone, Copy, Debug, PartialEq, Eq, Structural)]
pub struct Span {
    pub start: usize,
    pub end: usize,
}

/// A span that lies within a source text of `len` bytes.
pub open spec fn span_wf(s: Span, len: nat) -> bool {
    s.start <= s.end <= len
}

/// The bytes of `src` covered by `s`.
pub open spec fn span_slice(src: Seq<u8>, s: Span) -> Seq<u8> {
    src.subrange(s.start as int, s.end as int)
}

/// One member of a class body, reduced to what the pattern table reads:
/// whether its key is a private name, whether it is a field rather than a
/// method, and the span of the key.
#[derive(Clone, Copy, Debug, PartialEq, Eq, Structural)]
pub struct ClassElement {
    pub private_key: bool,
    pub is_property: bool,
    pub key_span: Span,
}

/// One node of the externally parsed syntax tree, reduced to the closed set
/// of shapes the pattern table distinguishes. Everything else arrives as
/// `Other` and yields no occurrence.
#[derive(Debug)]
pub enum AstNode {
    /// A logical expression and its operator text (`&&`, `||`, `??`).
    Logical { operator: String, span: Span },
    /// An optional-chaining wrapper expression.
    Chain { span: Span },
    /// A class body with its member list.
    ClassBody { elements: Vec<ClassElement> },
    /// An await expression.
    Await { span: Span },
    /// An assignment expression and its operator text (`=`, `&&=`, ...).
    Assignment { operator: String, span: Span },
    /// A numeric literal; separator use is read off the source bytes.
    Numeric { span: Span },
    /// A dynamic import expression.
    Import { span: Span },
    /// A catch clause, with or without a bound parameter.
    Catch { has_param: bool, span: Span },
    /// A `for ... of` loop, awaited or not.
    ForOf { is_await: bool, span: Span },
    /// A spread element in call, array or object position.
    Spread { span: Span },
    /// A static member expression: the root identifier's name, if the chain
    /// is rooted at a plain identifier, and the property name, if static.
    Member { root: Option<String>, property: Option<String>, span: Span },
    /// A call expression and its resolved callee name, if any.
    Call { callee: Option<String>, span: Span },
    /// Any node shape the table does not inspect.
    Other,
}

/// A feature together with the span it was matched at.
#[derive(Clone, Copy, Debug, PartialEq, Eq, Structural)]
pub struct Occurrence {
    pub feature: JsFeature,
    pub span: Span,
}

/// All spans mentioned by a node lie within a source of `len` bytes.
pub open spec fn node_wf(n: AstNode, len: nat) -> bool {
    match n {
        AstNode::Logical { operator, span } => span_wf(span, len),
        AstNode::Chain { span } => span_wf(span, len),
        AstNode::ClassBody { elements } => forall|i: int|
            0 <= i < elements@.len() ==> span_wf(#[trigger] elements@[i].key_span, len),
        AstNode::Await { span } => span_wf(span, len),
        AstNode::Assignment { operator, span } => span_wf(span, len),
        AstNode::Numeric { span } => span_wf(span, len),
        AstNode::Import { span } => span_wf(span, len),
        AstNode::Catch { has_param, span } => span_wf(span, len),
        AstNode::ForOf { is_await, span } => span_wf(span, len),
        AstNode::Spread { span } => span_wf(span, len),
        AstNode::Member { root, property, span } => span_wf(span, len),
        AstNode::Call { callee, span } => span_wf(span, len),
        AstNode::Other => true,
    }
}

/// The occurrences a single class member yields: its key span, attributed to
/// `PrivateField` for fields and `PrivateMethod` for methods, and only when
/// the key is a private name.
pub open spec fn class_element_occurrences(e: ClassElement) -> Seq<Occurrence> {
    if e.private_key {
        if e.is_property {
            seq![Occurrence { feature: JsFeature::PrivateField, span: e.key_span }]
        } else {
            seq![Occurrence { feature: JsFeature::PrivateMethod, span: e.key_span }]
        }
    } else {
        Seq::empty()
    }
}

/// The occurrences of a whole class body, in member order.
pub open spec fn class_body_occurrences(es: Seq<ClassElement>) -> Seq<Occurrence>
    decreases es.len(),
{
    if es.len() == 0 {
        Seq::empty()
    } else {
        class_body_occurrences(es.drop_last()) + class_element_occurrences(es.last())
    }
}

/// The §4.3 pattern table: the occurrences one node yields against the
/// source bytes `src`.
pub open spec fn node_occurrences(n: AstNode, src: Seq<u8>) -> Seq<Occurrence> {
    match n {
        AstNode::Logical { operator, span } => if operator@ == "??"@ {
            seq![Occurrence { feature: JsFeature::NullishCoalescing, span }]
        } else {
            Seq::empty()
        },
        AstNode::Chain { span } => seq![
            Occurrence { feature: JsFeature::OptionalChaining, span },
        ],
        AstNode::ClassBody { elements } => class_body_occurrences(elements@),
        AstNode::Await { span } => seq![Occurrence { feature: JsFeature::Await, span }],
        AstNode::Assignment { operator, span } => if operator@ == "&&="@ || operator@ == "||="@
            || operator@ == "??="@ {
            seq![Occurrence { feature: JsFeature::LogicalAssignment, span }]
        } else {
            Seq::empty()
        },
        AstNode::Numeric { span } => if span_slice(src, span).contains(95u8) {
            seq![Occurrence { feature: JsFeature::NumericSeparator, span }]
        } else {
            Seq::empty()
        },
        AstNode::Import { span } => seq![
            Occurrence { feature: JsFeature::DynamicImport, span },
        ],
        AstNode::Catch { has_param, span } => if !has_param {
            seq![Occurrence { feature: JsFeature::OptionalCatchBinding, span }]
        } else {
            Seq::empty()
        },
        AstNode::ForOf { is_await, span } => if is_await {
            seq![Occurrence { feature: JsFeature::AsyncIteration, span }]
        } else {
            Seq::empty()
        },
        AstNode::Spread { span } => seq![Occurrence { feature: JsFeature::RestSpread, span }],
        AstNode::Member { root, property, span } => if root is Some && property is Some {
            if root.unwrap()@ == "navigator"@ && property.unwrap()@ == "serviceWorker"@ {
                seq![Occurrence { feature: JsFeature::ServiceWorker, span }]
            } else if root.unwrap()@ == "performance"@ && property.unwrap()@ == "now"@ {
                seq![Occurrence { feature: JsFeature::PerformanceNow, span }]
            } else {
                Seq::empty()
            }
        } else {
            Seq::empty()
        },
        AstNode::Call { callee, span } => if callee is Some && seq_contains_sub(
            callee.unwrap()@,
            "requestIdleCallback"@,
        ) {
            seq![Occurrence { feature: JsFeature::RequestIdleCallback, span }]
        } else {
            Seq::empty()
        },
        AstNode::Other => Seq::empty(),
    }
}

/// The occurrences of a whole node stream, in visit order.
pub open spec fn scan_occurrences(nodes: Seq<AstNode>, src: Seq<u8>) -> Seq<Occurrence>
    decreases nodes.len(),
{
    if nodes.len() == 0 {
        Seq::empty()
    } else {
        scan_occurrences(nodes.drop_last(), src) + node_occurrences(nodes.last(), src)
    }
}

/// Whether the bytes of `source` covered by `span` contain `b`.
fn span_has_byte(source: &Vec<u8>, span: Span, b: u8) -> (r: bool)
    requires
        span_wf(span, source@.len()),
    ensures
        r == span_slice(source@, span).contains(b),
{
    let mut k: usize = span.start;
    while k < span.end
        invariant
            span_wf(span, source@.len()),
            span.start <= k <= span.end,
            forall|m: int| span.start <= m < k ==> source@[m] != b,
        decreases span.end - k,
    {
        if source[k] == b {
            assert(span_slice(source@, span)[k - span.start] == b);
            return true;
        }
        k = k + 1;
    }
    assert forall|idx: int| 0 <= idx < span_slice(source@, span).len() implies span_slice(
        source@,
        span,
    )[idx] != b by {
        assert(span_slice(source@, span)[idx] == source@[span.start + idx]);
    }
    false
}

/// Applies the pattern table to every node of an already parsed tree, in
/// visit order, and returns the feature occurrences it matched.
pub fn scan(nodes: &Vec<AstNode>, source: &Vec<u8>) -> (r: Vec<Occurrence>)
    requires
        forall|i: int| 0 <= i < nodes@.len() ==> node_wf(#[trigger] nodes@[i], source@.len()),
    ensures
        r@ == scan_occurrences(nodes@, source@),
        forall|k: int| 0 <= k < r@.len() ==> span_wf(#[trigger] r@[k].span, source@.len()),
{
    let mut out: Vec<Occurrence> = Vec::new();
    let mut i: usize = 0;
    while i < nodes.len()
        invariant
            forall|k: int| 0 <= k < nodes@.len() ==> node_wf(#[trigger] nodes@[k], source@.len()),
            i <= nodes@.len(),
            out@ == scan_occurrences(nodes@.subrange(0, i as int), source@),
            forall|k: int| 0 <= k < out@.len() ==> span_wf(#[trigger] out@[k].span, source@.len()),
        decreases nodes@.len() - i,
    {
        let ghost prefix = nodes@.subrange(0, i as int);
        match &nodes[i] {
            AstNode::Logical { operator, span } => {
                if str_eq(operator.as_str(), "??") {
                    out.push(Occurrence { feature: JsFeature::NullishCoalescing, span: *span });
                }
            },
            AstNode::Chain { span } => {
                out.push(Occurrence { feature: JsFeature::OptionalChaining, span: *span });
            },
            AstNode::ClassBody { elements } => {
                let mut j: usize = 0;
                while j < elements.len()
                    invariant
                        node_wf(nodes@[i as int], source@.len()),
                        nodes@[i as int] matches AstNode::ClassBody { elements: es } && es@
                            == elements@,
                        i < nodes@.len(),
                        j <= elements@.len(),
                        out@ == scan_occurrences(prefix, source@) + class_body_occurrences(
                            elements@.subrange(0, j as int),
                        ),
                        forall|k: int|
                            0 <= k < out@.len() ==> span_wf(
                                #[trigger] out@[k].span,
                                source@.len(),
                            ),
                    decreases elements@.len() - j,
                {
                    let e = elements[j];
                    proof {
                        assert(elements@.subrange(0, j as int + 1).drop_last() =~= elements@
                            .subrange(0, j as int));
                        assert(elements@.subrange(0, j as int + 1).last() == elements@[j as int]);
                        assert(span_wf(elements@[j as int].key_span, source@.len()));
                    }
                    if e.private_key {
                        if e.is_property {
                            out.push(
                                Occurrence { feature: JsFeature::PrivateField, span: e.key_span },
                            );
                        } else {
                            out.push(
                                Occurrence { feature: JsFeature::PrivateMethod, span: e.key_span },
                            );
                        }
                    }
                    j = j + 1;
                }
                proof {
                    assert(elements@.subrange(0, elements@.len() as int) =~= elements@);
                }
            },
            AstNode::Await { span } => {
                out.push(Occurrence { feature: JsFeature::Await, span: *span });
            },
            AstNode::Assignment { operator, span } => {
                if str_eq(operator.as_str(), "&&=") || str_eq(operator.as_str(), "||=") || str_eq(
                    operator.as_str(),
                    "??=",
                ) {
                    out.push(Occurrence { feature: JsFeature::LogicalAssignment, span: *span });
                }
            },
            AstNode::Numeric { span } => {
                if span_has_byte(source, *span, 95u8) {
                    out.push(Occurrence { feature: JsFeature::NumericSeparator, span: *span });
                }
            },
            AstNode::Import { span } => {
                out.push(Occurrence { feature: JsFeature::DynamicImport, span: *span });
            },
            AstNode::Catch { has_param, span } => {
                if !*has_param {
                    out.push(Occurrence { feature: JsFeature::OptionalCatchBinding, span: *span });
                }
            },
            AstNode::ForOf { is_await, span } => {
                if *is_await {
                    out.push(Occurrence { feature: JsFeature::AsyncIteration, span: *span });
                }
            },
            AstNode::Spread { span } => {
                out.push(Occurrence { feature: JsFeature::RestSpread, span: *span });
            },
            AstNode::Member { root, property, span } => {
                match (root, property) {
                    (Some(r), Some(p)) => {
                        if str_eq(r.as_str(), "navigator") && str_eq(p.as_str(), "serviceWorker") {
                            out.push(
                                Occurrence { feature: JsFeature::ServiceWorker, span: *span },
                            );
                        } else if str_eq(r.as_str(), "performance") && str_eq(p.as_str(), "now") {
                            out.push(
                                Occurrence { feature: JsFeature::PerformanceNow, span: *span },
                            );
                        }
                    },
                    _ => {},
                }
            },
            AstNode::Call { callee, span } => {
                match callee {
                    Some(c) => {
                        if str_contains_sub(c.as_str(), "requestIdleCallback") {
                            out.push(
                                Occurrence { feature: JsFeature::RequestIdleCallback, span: *span },
                            );
                        }
                    },
                    None => {},
                }
            },
            AstNode::Other => {},
        }
        proof {
            assert(nodes@.subrange(0, i as int + 1).drop_last() =~= nodes@.subrange(0, i as int));
            assert(nodes@.subrange(0, i as int + 1).last() == nodes@[i as int]);
            assert(out@ =~= scan_occurrences(nodes@.subrange(0, i as int + 1), source@));
        }
        i = i + 1;
    }
    proof {
        assert(nodes@.subrange(0, nodes@.len() as int) =~= nodes@);
    }
    out
}

} // verus!
