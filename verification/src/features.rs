//! The feature catalog: the closed set of recognized JavaScript features,
//! each with a stable dotted lookup key into the compatibility dataset.

use vstd::prelude::*;

verus! {

/// Number of features in the catalog.
pub const FEATURE_COUNT: usize = 27;

/// A distinguishable JavaScript language or runtime-API capability.
#[derive(Clone, Copy, Debug, PartialEq, Eq, Structural)]
pub enum JsFeature {
    OptionalChaining,
    NullishCoalescing,
    PrivateField,
    PrivateMethod,
    TopLevelAwait,
    ClassStaticBlock,
    LogicalAssignment,
    NumericSeparator,
    BigInt,
    DynamicImport,
    OptionalCatchBinding,
    AsyncIteration,
    RestSpread,
    Await,
    Decorator,
    ServiceWorker,
    PerformanceNow,
    RequestIdleCallback,
    TypedArray,
    Int8Array,
    Uint8Array,
    Int16Array,
    Uint16Array,
    Int32Array,
    Uint32Array,
    Float32Array,
    Float64Array,
}

impl JsFeature {
    /// The dot-separated path of this feature's entry in the compatibility
    /// dataset. `OptionalCatchBinding` deliberately shares the key of
    /// `OptionalChaining`: the source catalog aliases the two entries.
    pub open spec fn spec_key(self) -> Seq<char> {
        match self {
            JsFeature::OptionalChaining => "javascript.operators.optional_chaining"@,
            JsFeature::NullishCoalescing => "javascript.operators.nullish_coalescing"@,
            JsFeature::PrivateField => "javascript.classes.private_class_fields"@,
            JsFeature::PrivateMethod => "javascript.classes.private_class_methods"@,
            JsFeature::TopLevelAwait => "javascript.statements.top_level_await"@,
            JsFeature::ClassStaticBlock => "javascript.classes.class_static_block"@,
            JsFeature::LogicalAssignment => "javascript.operators.logical_assignment_operators"@,
            JsFeature::NumericSeparator => "javascript.operators.numeric_separators"@,
            JsFeature::BigInt => "javascript.builtins.bigint"@,
            JsFeature::DynamicImport => "javascript.operators.import"@,
            JsFeature::OptionalCatchBinding => "javascript.operators.optional_chaining"@,
            JsFeature::AsyncIteration => "javascript.builtins.AsyncIterator"@,
            JsFeature::RestSpread => "javascript.operators.spread"@,
            JsFeature::Await => "javascript.operators.await"@,
            JsFeature::Decorator => "javascript.builtins.decorators"@,
            JsFeature::ServiceWorker => "api.ServiceWorker"@,
            JsFeature::PerformanceNow => "api.Performance.now"@,
            JsFeature::RequestIdleCallback => "api.Window.requestIdleCallback"@,
            JsFeature::TypedArray => "javascript.builtins.TypedArray"@,
            JsFeature::Int8Array => "javascript.builtins.Int8Array"@,
            JsFeature::Uint8Array => "javascript.builtins.Uint8Array"@,
            JsFeature::Int16Array => "javascript.builtins.Int16Array"@,
            JsFeature::Uint16Array => "javascript.builtins.Uint16Array"@,
            JsFeature::Int32Array => "javascript.builtins.Int32Array"@,
            JsFeature::Uint32Array => "javascript.builtins.Uint32Array"@,
            JsFeature::Float32Array => "javascript.builtins.Float32Array"@,
            JsFeature::Float64Array => "javascript.builtins.Float64Array"@,
        }
    }

    /// The lookup key consulted by both the scanner and the resolver.
    pub fn key(&self) -> (r: &'static str)
        ensures
            r@ == self.spec_key(),
    {
        match self {
            JsFeature::OptionalChaining => "javascript.operators.optional_chaining",
            JsFeature::NullishCoalescing => "javascript.operators.nullish_coalescing",
            JsFeature::PrivateField => "javascript.classes.private_class_fields",
            JsFeature::PrivateMethod => "javascript.classes.private_class_methods",
            JsFeature::TopLevelAwait => "javascript.statements.top_level_await",
            JsFeature::ClassStaticBlock => "javascript.classes.class_static_block",
            JsFeature::LogicalAssignment => "javascript.operators.logical_assignment_operators",
            JsFeature::NumericSeparator => "javascript.operators.numeric_separators",
            JsFeature::BigInt => "javascript.builtins.bigint",
            JsFeature::DynamicImport => "javascript.operators.import",
            JsFeature::OptionalCatchBinding => "javascript.operators.optional_chaining",
            JsFeature::AsyncIteration => "javascript.builtins.AsyncIterator",
            JsFeature::RestSpread => "javascript.operators.spread",
            JsFeature::Await => "javascript.operators.await",
            JsFeature::Decorator => "javascript.builtins.decorators",
            JsFeature::ServiceWorker => "api.ServiceWorker",
            JsFeature::PerformanceNow => "api.Performance.now",
            JsFeature::RequestIdleCallback => "api.Window.requestIdleCallback",
            JsFeature::TypedArray => "javascript.builtins.TypedArray",
            JsFeature::Int8Array => "javascript.builtins.Int8Array",
            JsFeature::Uint8Array => "javascript.builtins.Uint8Array",
            JsFeature::Int16Array => "javascript.builtins.Int16Array",
            JsFeature::Uint16Array => "javascript.builtins.Uint16Array",
            JsFeature::Int32Array => "javascript.builtins.Int32Array",
            JsFeature::Uint32Array => "javascript.builtins.Uint32Array",
            JsFeature::Float32Array => "javascript.builtins.Float32Array",
            JsFeature::Float64Array => "javascript.builtins.Float64Array",
        }
    }

    /// Position of this feature in the catalog; distinct per feature.
    pub open spec fn spec_index(self) -> int {
        match self {
            JsFeature::OptionalChaining => 0,
            JsFeature::NullishCoalescing => 1,
            JsFeature::PrivateField => 2,
            JsFeature::PrivateMethod => 3,
            JsFeature::TopLevelAwait => 4,
            JsFeature::ClassStaticBlock => 5,
            JsFeature::LogicalAssignment => 6,
            JsFeature::NumericSeparator => 7,
            JsFeature::BigInt => 8,
            JsFeature::DynamicImport => 9,
            JsFeature::OptionalCatchBinding => 10,
            JsFeature::AsyncIteration => 11,
            JsFeature::RestSpread => 12,
            JsFeature::Await => 13,
            JsFeature::Decorator => 14,
            JsFeature::ServiceWorker => 15,
            JsFeature::PerformanceNow => 16,
            JsFeature::RequestIdleCallback => 17,
            JsFeature::TypedArray => 18,
            JsFeature::Int8Array => 19,
            JsFeature::Uint8Array => 20,
            JsFeature::Int16Array => 21,
            JsFeature::Uint16Array => 22,
            JsFeature::Int32Array => 23,
            JsFeature::Uint32Array => 24,
            JsFeature::Float32Array => 25,
            JsFeature::Float64Array => 26,
        }
    }

    /// Catalog position, used to index the resolver's memo table.
    pub fn index(&self) -> (i: usize)
        ensures
            i == self.spec_index(),
            i < FEATURE_COUNT,
    {
        match self {
            JsFeature::OptionalChaining => 0,
            JsFeature::NullishCoalescing => 1,
            JsFeature::PrivateField => 2,
            JsFeature::PrivateMethod => 3,
            JsFeature::TopLevelAwait => 4,
            JsFeature::ClassStaticBlock => 5,
            JsFeature::LogicalAssignment => 6,
            JsFeature::NumericSeparator => 7,
            JsFeature::BigInt => 8,
            JsFeature::DynamicImport => 9,
            JsFeature::OptionalCatchBinding => 10,
            JsFeature::AsyncIteration => 11,
            JsFeature::RestSpread => 12,
            JsFeature::Await => 13,
            JsFeature::Decorator => 14,
            JsFeature::ServiceWorker => 15,
            JsFeature::PerformanceNow => 16,
            JsFeature::RequestIdleCallback => 17,
            JsFeature::TypedArray => 18,
            JsFeature::Int8Array => 19,
            JsFeature::Uint8Array => 20,
            JsFeature::Int16Array => 21,
            JsFeature::Uint16Array => 22,
            JsFeature::Int32Array => 23,
            JsFeature::Uint32Array => 24,
            JsFeature::Float32Array => 25,
            JsFeature::Float64Array => 26,
        }
    }
}

} // verus!
