//! The compatibility resolver: looks a feature's record up in the parsed
//! dataset, derives its browser support, and memoizes each feature's record
//! in a compute-once table so that resolving a feature twice yields the
//! identical data. The dataset itself is navigated through a small trusted
//! surface over its JSON values.

use vstd::prelude::*;
use vstd::string::*;
use crate::bcd::{
    Compatibility, CompatibilityModel, Status, SupportInfo, SupportInfoModel, SupportMap,
    VersionAdded, VersionAddedModel, VersionSupport, VersionSupportModel,
};
use crate::cache::{decode_compat, parse_compat};
use crate::features::{JsFeature, FEATURE_COUNT};
use crate::targets::find_dot;

verus! {

/// Mathematical image of a JSON value. Numbers carry no payload: no rule of
/// the resolver reads one.
pub enum Json {
    Null,
    Bool(bool),
    Text(Seq<char>),
    Number,
    Arr(Seq<Json>),
    Obj(Map<Seq<char>, Json>),
}

/// Declares serde_json::Value so that dataset values can flow through
/// signatures; what one holds is spoken of only through `json_model`.
#[verifier::external_type_specification]
#[verifier::external_body]
pub struct ExValue(serde_json::Value);

/// The JSON value a `serde_json::Value` holds.
pub uninterp spec fn json_model(v: serde_json::Value) -> Json;

/// The JSON document a text parses to, if it is one.
pub uninterp spec fn json_doc_of(text: Seq<char>) -> Option<Json>;

/// Relies on serde_json::from_str: parses a JSON document, deterministically
/// in the text.
#[verifier::external_body]
fn json_parse(text: &str) -> (r: Option<serde_json::Value>)
    ensures
        r is Some <==> json_doc_of(text@) is Some,
        r matches Some(v) ==> Some(json_model(v)) == json_doc_of(text@),
{
    serde_json::from_str(text).ok()
}

/// Relies on serde_json::Value::get with a string index: looks a key up in
/// an object and returns nothing for every other shape.
#[verifier::external_body]
fn json_get<'a>(v: &'a serde_json::Value, key: &str) -> (r: Option<&'a serde_json::Value>)
    ensures
        match json_model(*v) {
            Json::Obj(m) => {
                &&& r is Some <==> m.contains_key(key@)
                &&& (r matches Some(w) ==> m.contains_key(key@) && json_model(*w) == m[key@])
            },
            _ => r is None,
        },
{
    v.get(key)
}

/// Relies on serde_json::Value::as_str: the characters of a string value.
#[verifier::external_body]
fn json_as_str<'a>(v: &'a serde_json::Value) -> (r: Option<&'a str>)
    ensures
        match json_model(*v) {
            Json::Text(t) => r matches Some(s) && s@ == t,
            _ => r is None,
        },
{
    v.as_str()
}

/// Relies on serde_json::Value::as_bool: the value of a boolean.
#[verifier::external_body]
fn json_as_bool(v: &serde_json::Value) -> (r: Option<bool>)
    ensures
        match json_model(*v) {
            Json::Bool(b) => r == Some(b),
            _ => r is None,
        },
{
    v.as_bool()
}

/// Relies on serde_json::Value::is_null.
#[verifier::external_body]
fn json_is_null(v: &serde_json::Value) -> (r: bool)
    ensures
        r == (json_model(*v) is Null),
{
    v.is_null()
}

/// Relies on serde_json::Value::as_array: the elements of an array value.
#[verifier::external_body]
fn json_as_array<'a>(v: &'a serde_json::Value) -> (r: Option<&'a Vec<serde_json::Value>>)
    ensures
        match json_model(*v) {
            Json::Arr(elems) => r matches Some(a) && a@.len() == elems.len() && (forall|i: int|
                0 <= i < elems.len() ==> json_model(#[trigger] a@[i]) == elems[i]),
            _ => r is None,
        },
{
    v.as_array()
}

/// Navigating a dot-separated path through nested objects.
pub open spec fn path_lookup(j: Json, path: Seq<char>) -> Option<Json>
    decreases path.len(),
{
    let i = find_dot(path);
    let part = path.take(i);
    match j {
        Json::Obj(m) => if m.contains_key(part) {
            if 0 <= i && i < path.len() {
                path_lookup(m[part], path.skip(i + 1))
            } else {
                Some(m[part])
            }
        } else {
            None
        },
        _ => None,
    }
}

/// Reads the value at a dot-separated path of nested object keys.
pub fn read_from_path<'a>(v: &'a serde_json::Value, path: &str) -> (r: Option<
    &'a serde_json::Value,
>)
    ensures
        match r {
            Some(w) => path_lookup(json_model(*v), path@) == Some(json_model(*w)),
            None => path_lookup(json_model(*v), path@) is None,
        },
    decreases path@.len(),
{
    let n = path.unicode_len();
    proof {
        crate::targets::lemma_find_dot(path@);
    }
    let mut dot: usize = 0;
    let mut found = false;
    while dot < n && !found
        invariant
            n == path@.len(),
            dot <= n,
            forall|k: int| 0 <= k < dot ==> path@[k] != '.',
            found ==> dot < n && path@[dot as int] == '.',
        decreases n - dot + (if found { 0int } else { 1int }),
    {
        if path.get_char(dot) == '.' {
            found = true;
        } else {
            dot = dot + 1;
        }
    }
    proof {
        assert(dot == find_dot(path@));
    }
    let part = path.substring_char(0, dot);
    proof {
        assert(part@ =~= path@.take(find_dot(path@)));
    }
    match json_get(v, part) {
        None => None,
        Some(w) => {
            if dot == n {
                Some(w)
            } else {
                let rest = path.substring_char(dot + 1, n);
                proof {
                    assert(rest@ =~= path@.skip(find_dot(path@) + 1));
                }
                read_from_path(w, rest)
            }
        },
    }
}

/// The version entry an object encodes, if its `version_added` member is a
/// boolean, a string or null.
pub open spec fn va_of_json(j: Json) -> Option<VersionAddedModel> {
    match j {
        Json::Bool(b) => Some(VersionAddedModel::Bool(b)),
        Json::Text(t) => Some(VersionAddedModel::Text(t)),
        Json::Null => Some(VersionAddedModel::Null),
        _ => None,
    }
}

/// The support entry an object encodes: it must carry a recognizable
/// `version_added` member.
pub open spec fn info_of_json(j: Json) -> Option<SupportInfoModel> {
    match j {
        Json::Obj(m) => if m.contains_key("version_added"@) {
            match va_of_json(m["version_added"@]) {
                Some(v) => Some(SupportInfoModel { version_added: v }),
                None => None,
            }
        } else {
            None
        },
        _ => None,
    }
}

/// A browser's support value: a single entry, else a list of entries, else
/// an unrecognized shape.
pub open spec fn vs_of_json(j: Json) -> VersionSupportModel {
    match info_of_json(j) {
        Some(i) => VersionSupportModel::Single(i),
        None => match j {
            Json::Arr(elems) => if forall|k: int|
                0 <= k < elems.len() ==> info_of_json(#[trigger] elems[k]) is Some {
                VersionSupportModel::Multiple(
                    Seq::new(elems.len(), |k: int| info_of_json(elems[k]).unwrap()),
                )
            } else {
                VersionSupportModel::Unknown
            },
            _ => VersionSupportModel::Unknown,
        },
    }
}

/// One tracked browser's support value inside a support object.
pub open spec fn opt_vs_of_json(m: Map<Seq<char>, Json>, key: Seq<char>) -> Option<
    VersionSupportModel,
> {
    if m.contains_key(key) {
        Some(vs_of_json(m[key]))
    } else {
        None
    }
}

/// An optional string member: absent and null both mean none; any value
/// other than a string is a schema mismatch.
pub open spec fn opt_str_of_json(m: Map<Seq<char>, Json>, key: Seq<char>) -> Option<
    Option<Seq<char>>,
> {
    if m.contains_key(key) {
        match m[key] {
            Json::Null => Some(None),
            Json::Text(t) => Some(Some(t)),
            _ => None,
        }
    } else {
        Some(None)
    }
}

/// The status block of a record; all three flags must be booleans.
pub open spec fn status_of_json(j: Json) -> Option<Status> {
    match j {
        Json::Obj(m) => if m.contains_key("deprecated"@) && m["deprecated"@] is Bool
            && m.contains_key("experimental"@) && m["experimental"@] is Bool && m.contains_key(
            "standard_track"@,
        ) && m["standard_track"@] is Bool {
            Some(
                Status {
                    deprecated: m["deprecated"@]->Bool_0,
                    experimental: m["experimental"@]->Bool_0,
                    standard_track: m["standard_track"@]->Bool_0,
                },
            )
        } else {
            None
        },
        _ => None,
    }
}

/// The compatibility record a `__compat` object encodes, or nothing on a
/// schema mismatch.
pub open spec fn compat_of_json(j: Json) -> Option<CompatibilityModel> {
    match j {
        Json::Obj(m) => match opt_str_of_json(m, "description"@) {
            Some(desc) => match opt_str_of_json(m, "mdn_url"@) {
                Some(mdn) => if m.contains_key("status"@) && status_of_json(
                    m["status"@],
                ) is Some && m.contains_key("support"@) && m["support"@] is Obj {
                    let sm = m["support"@]->Obj_0;
                    Some(
                        CompatibilityModel {
                            description: desc,
                            mdn_url: mdn,
                            status: status_of_json(m["status"@]).unwrap(),
                            support: crate::bcd::SupportMapModel {
                                chrome: opt_vs_of_json(sm, "chrome"@),
                                firefox: opt_vs_of_json(sm, "firefox"@),
                                safari: opt_vs_of_json(sm, "safari"@),
                                edge: opt_vs_of_json(sm, "edge"@),
                            },
                        },
                    )
                } else {
                    None
                },
                None => None,
            },
            None => None,
        },
        _ => None,
    }
}

fn va_from_value(v: &serde_json::Value) -> (r: Option<VersionAdded>)
    ensures
        match r {
            Some(va) => va_of_json(json_model(*v)) == Some(va@),
            None => va_of_json(json_model(*v)) is None,
        },
{
    match json_as_bool(v) {
        Some(b) => Some(VersionAdded::Bool(b)),
        None => {
            match json_as_str(v) {
                Some(t) => Some(VersionAdded::Text(t.to_owned())),
                None => {
                    if json_is_null(v) {
                        Some(VersionAdded::Null)
                    } else {
                        None
                    }
                },
            }
        },
    }
}

fn info_from_value(v: &serde_json::Value) -> (r: Option<SupportInfo>)
    ensures
        match r {
            Some(i) => info_of_json(json_model(*v)) == Some(i@),
            None => info_of_json(json_model(*v)) is None,
        },
{
    match json_get(v, "version_added") {
        Some(w) => match va_from_value(w) {
            Some(va) => Some(SupportInfo { version_added: va }),
            None => None,
        },
        None => None,
    }
}

fn vs_from_value(v: &serde_json::Value) -> (r: VersionSupport)
    ensures
        r@ == vs_of_json(json_model(*v)),
{
    match info_from_value(v) {
        Some(i) => VersionSupport::Single(i),
        None => {
            match json_as_array(v) {
                Some(arr) => {
                    let ghost elems = json_model(*v)->Arr_0;
                    let mut out: Vec<SupportInfo> = Vec::new();
                    let mut k: usize = 0;
                    while k < arr.len()
                        invariant
                            json_model(*v) is Arr,
                            elems == json_model(*v)->Arr_0,
                            arr@.len() == elems.len(),
                            forall|i: int|
                                0 <= i < elems.len() ==> json_model(#[trigger] arr@[i])
                                    == elems[i],
                            k <= elems.len(),
                            out.deep_view().len() == k,
                            forall|i: int|
                                0 <= i < k ==> info_of_json(elems[i]) == Some(
                                    #[trigger] out.deep_view()[i],
                                ),
                        decreases arr@.len() - k,
                    {
                        match info_from_value(&arr[k]) {
                            Some(i) => {
                                let ghost pre = out.deep_view();
                                out.push(i);
                                proof {
                                    assert(out.deep_view() =~= pre.push(i@));
                                }
                                k = k + 1;
                            },
                            None => {
                                proof {
                                    assert(info_of_json(elems[k as int]) is None);
                                }
                                return VersionSupport::Unknown;
                            },
                        }
                    }
                    proof {
                        assert forall|i: int| 0 <= i < elems.len() implies info_of_json(
                            #[trigger] elems[i],
                        ) is Some by {
                            assert(info_of_json(elems[i]) == Some(out.deep_view()[i]));
                        }
                        assert(out.deep_view() =~= Seq::new(
                            elems.len(),
                            |i: int| info_of_json(elems[i]).unwrap(),
                        ));
                    }
                    VersionSupport::Multiple(out)
                },
                None => VersionSupport::Unknown,
            }
        },
    }
}

fn opt_str_from_obj(v: &serde_json::Value, key: &str) -> (r: Option<Option<String>>)
    requires
        json_model(*v) is Obj,
    ensures
        match r {
            Some(o) => opt_str_of_json(json_model(*v)->Obj_0, key@) == Some(o.deep_view()),
            None => opt_str_of_json(json_model(*v)->Obj_0, key@) is None,
        },
{
    match json_get(v, key) {
        None => Some(None),
        Some(w) => {
            if json_is_null(w) {
                Some(None)
            } else {
                match json_as_str(w) {
                    Some(t) => Some(Some(t.to_owned())),
                    None => None,
                }
            }
        },
    }
}

/// Builds a record from a `__compat` JSON object, exactly when its shape
/// matches the dataset schema.
pub fn compat_from_value(v: &serde_json::Value) -> (r: Option<Compatibility>)
    ensures
        match r {
            Some(c) => compat_of_json(json_model(*v)) == Some(c@),
            None => compat_of_json(json_model(*v)) is None,
        },
{
    if !json_is_object(v) {
        return None;
    }
    let desc = match opt_str_from_obj(v, "description") {
        Some(o) => o,
        None => {
            return None;
        },
    };
    let mdn = match opt_str_from_obj(v, "mdn_url") {
        Some(o) => o,
        None => {
            return None;
        },
    };
    let status = match json_get(v, "status") {
        Some(st) => {
            let dep = json_get_bool(st, "deprecated");
            let exp = json_get_bool(st, "experimental");
            let tr = json_get_bool(st, "standard_track");
            match (dep, exp, tr) {
                (Some(d), Some(e), Some(t)) => Status {
                    deprecated: d,
                    experimental: e,
                    standard_track: t,
                },
                _ => {
                    return None;
                },
            }
        },
        None => {
            return None;
        },
    };
    match json_get(v, "support") {
        Some(sup) => {
            let chrome = vs_from_key(sup, "chrome");
            let firefox = vs_from_key(sup, "firefox");
            let safari = vs_from_key(sup, "safari");
            let edge = vs_from_key(sup, "edge");
            if json_is_object(sup) {
                Some(
                    Compatibility {
                        description: desc,
                        mdn_url: mdn,
                        status,
                        support: SupportMap { chrome, firefox, safari, edge },
                    },
                )
            } else {
                None
            }
        },
        None => None,
    }
}

/// Relies on serde_json::Value::is_object.
#[verifier::external_body]
fn json_is_object(v: &serde_json::Value) -> (r: bool)
    ensures
        r == (json_model(*v) is Obj),
{
    v.is_object()
}

fn json_get_bool(v: &serde_json::Value, key: &str) -> (r: Option<bool>)
    ensures
        match r {
            Some(b) => json_model(*v) is Obj && (json_model(*v)->Obj_0).contains_key(key@) && (
            json_model(*v)->Obj_0)[key@] == Json::Bool(b),
            None => !(json_model(*v) is Obj && (json_model(*v)->Obj_0).contains_key(key@) && (
            json_model(*v)->Obj_0)[key@] is Bool),
        },
{
    match json_get(v, key) {
        Some(w) => json_as_bool(w),
        None => None,
    }
}

/// Why a feature could not be resolved.
#[derive(Clone, Copy, Debug, PartialEq, Eq, Structural)]
pub enum ResolveError {
    DataUnavailable,
    NotFound,
    SchemaMismatch,
}

/// The record the dataset document holds for a feature: the value at the
/// feature's lookup key must be an object whose `__compat` member is a
/// well-shaped record.
pub open spec fn dataset_record(doc: Json, f: JsFeature) -> Result<CompatibilityModel, ResolveError> {
    match path_lookup(doc, f.spec_key()) {
        None => Err(ResolveError::NotFound),
        Some(node) => match node {
            Json::Obj(m) => if m.contains_key("__compat"@) {
                match compat_of_json(m["__compat"@]) {
                    Some(c) => Ok(c),
                    None => Err(ResolveError::SchemaMismatch),
                }
            } else {
                Err(ResolveError::SchemaMismatch)
            },
            _ => Err(ResolveError::SchemaMismatch),
        },
    }
}

/// Distinct features occupy distinct memo slots.
pub proof fn lemma_feature_index_injective(a: JsFeature, b: JsFeature)
    ensures
        a.spec_index() == b.spec_index() ==> a == b,
{
}

/// The resolver: one compute-once memo cell per catalog feature. A record,
/// once stored, is what every later resolution of that feature observes.
pub struct Resolver {
    pub memo: Vec<Option<Compatibility>>,
}

/// The memo table has one slot per catalog feature.
pub open spec fn resolver_wf(r: Resolver) -> bool {
    r.memo@.len() == FEATURE_COUNT
}

impl Resolver {
    /// The record memoized for `f`, if any.
    pub open spec fn memo_at(self, f: JsFeature) -> Option<CompatibilityModel> {
        match self.memo@[f.spec_index()] {
            Some(c) => Some(c@),
            None => None,
        }
    }

    /// A fresh resolver with nothing resolved.
    pub fn new() -> (r: Resolver)
        ensures
            resolver_wf(r),
            forall|f: JsFeature| r.memo_at(f) is None,
    {
        let mut memo: Vec<Option<Compatibility>> = Vec::new();
        let mut i: usize = 0;
        while i < FEATURE_COUNT
            invariant
                memo@.len() == i,
                i <= FEATURE_COUNT,
                forall|k: int| 0 <= k < i ==> memo@[k] is None,
            decreases FEATURE_COUNT - i,
        {
            memo.push(None);
            i = i + 1;
        }
        let r = Resolver { memo };
        proof {
            assert forall|f: JsFeature| r.memo_at(f) is None by {
                assert(0 <= f.spec_index() < FEATURE_COUNT);
            }
        }
        r
    }

    /// The memoized record for `f`, if resolution already happened.
    pub fn lookup(&self, f: JsFeature) -> (r: Option<&Compatibility>)
        requires
            resolver_wf(*self),
        ensures
            match r {
                Some(c) => self.memo_at(f) == Some(c@),
                None => self.memo_at(f) is None,
            },
    {
        let idx = f.index();
        match &self.memo[idx] {
            Some(c) => Some(c),
            None => None,
        }
    }

    /// Memoizes the record for `f`, leaving every other feature untouched.
    pub fn store(&mut self, f: JsFeature, c: Compatibility)
        requires
            resolver_wf(*old(self)),
        ensures
            resolver_wf(*final(self)),
            final(self).memo_at(f) == Some(c@),
            forall|g: JsFeature| g != f ==> final(self).memo_at(g) == old(self).memo_at(g),
    {
        let idx = f.index();
        let ghost cm = c@;
        self.memo.set(idx, Some(c));
        proof {
            assert forall|g: JsFeature| g != f implies final(self).memo_at(g) == old(
                self,
            ).memo_at(g) by {
                lemma_feature_index_injective(g, f);
            }
        }
    }

    /// Restores a record from its per-feature cache file text; true exactly
    /// when the text is one well-formed encoded record, which is then
    /// memoized.
    pub fn load_cache_text(&mut self, f: JsFeature, text: &str) -> (r: bool)
        requires
            resolver_wf(*old(self)),
        ensures
            resolver_wf(*final(self)),
            r == (parse_compat(text@, 0) matches Some(p) && p.1 == text@.len()),
            r ==> (parse_compat(text@, 0) matches Some(p) && p.1 == text@.len()
                && final(self).memo_at(f) == Some(p.0)),
            !r ==> *final(self) == *old(self),
            forall|g: JsFeature| g != f ==> final(self).memo_at(g) == old(self).memo_at(g),
    {
        match decode_compat(text) {
            Some(c) => {
                self.store(f, c);
                true
            },
            None => false,
        }
    }

    /// Resolves `f` against the whole dataset document and memoizes the
    /// record. Fails with `NotFound` when the dataset has no entry at the
    /// feature's key, and with `SchemaMismatch` when the entry's shape is
    /// not a record; a failure changes nothing.
    pub fn resolve_from_dataset(&mut self, f: JsFeature, data: &serde_json::Value) -> (r: Result<
        (),
        ResolveError,
    >)
        requires
            resolver_wf(*old(self)),
        ensures
            resolver_wf(*final(self)),
            match r {
                Ok(_) => (dataset_record(json_model(*data), f) matches Ok(cm)
                    && final(self).memo_at(f) == Some(cm)),
                Err(e) => dataset_record(json_model(*data), f) == Err::<
                    CompatibilityModel,
                    ResolveError,
                >(e) && *final(self) == *old(self),
            },
            forall|g: JsFeature| g != f ==> final(self).memo_at(g) == old(self).memo_at(g),
    {
        match read_from_path(data, f.key()) {
            None => Err(ResolveError::NotFound),
            Some(node) => {
                match json_get(node, "__compat") {
                    None => Err(ResolveError::SchemaMismatch),
                    Some(cv) => {
                        match compat_from_value(cv) {
                            None => Err(ResolveError::SchemaMismatch),
                            Some(c) => {
                                self.store(f, c);
                                Ok(())
                            },
                        }
                    },
                }
            },
        }
    }

    /// The browser support `f` resolves to under this resolver's memo: the
    /// record's map, or the empty map while nothing is memoized.
    pub fn support_for(&self, f: JsFeature) -> (bs: crate::bcd::BrowserSupport)
        requires
            resolver_wf(*self),
        ensures
            bs@ == feature_support(*self, f),
    {
        match self.lookup(f) {
            Some(c) => crate::bcd::browser_support(c),
            None => crate::bcd::BrowserSupport::empty(),
        }
    }

    /// The documentation reference `f` resolves to, or the empty string.
    pub fn mdn_for(&self, f: JsFeature) -> (r: String)
        requires
            resolver_wf(*self),
        ensures
            r@ == feature_mdn(*self, f),
    {
        match self.lookup(f) {
            Some(c) => crate::bcd::mdn_url_of(c),
            None => String::new(),
        }
    }
}

/// The support map `f` resolves to under resolver state `r`.
pub open spec fn feature_support(r: Resolver, f: JsFeature) -> crate::bcd::BrowserSupportModel {
    match r.memo_at(f) {
        Some(cm) => crate::bcd::spec_browser_support(cm),
        None => crate::bcd::BrowserSupportModel {
            chrome: None,
            firefox: None,
            safari: None,
            edge: None,
        },
    }
}

/// The documentation reference `f` resolves to under resolver state `r`.
pub open spec fn feature_mdn(r: Resolver, f: JsFeature) -> Seq<char> {
    match r.memo_at(f) {
        Some(cm) => crate::bcd::spec_mdn_url(cm),
        None => Seq::empty(),
    }
}

/// Parses the downloaded or cached dataset document.
/// Relies on serde_json::from_str through `json_parse`.
pub fn parse_dataset(text: &str) -> (r: Option<serde_json::Value>)
    ensures
        r is Some <==> json_doc_of(text@) is Some,
        r matches Some(v) ==> Some(json_model(v)) == json_doc_of(text@),
{
    json_parse(text)
}

/// Pointwise replacement of dots, the filesystem-safe transform of a lookup
/// key.
pub open spec fn spec_replace_dots(s: Seq<char>) -> Seq<char> {
    Seq::new(
        s.len(),
        |i: int|
            if s[i] == '.' {
                '_'
            } else {
                s[i]
            },
    )
}

/// The per-feature cache file's name: the lookup key with dots replaced,
/// plus a suffix naming the codec's own record format.
pub open spec fn spec_cache_file_name(f: JsFeature) -> Seq<char> {
    spec_replace_dots(f.spec_key()) + seq!['.', 'r', 'e', 'c']
}

fn replace_dots(s: &str) -> (r: String)
    ensures
        r@ == spec_replace_dots(s@),
{
    let n = s.unicode_len();
    let mut out = String::new();
    let mut i: usize = 0;
    while i < n
        invariant
            n == s@.len(),
            i <= n,
            out@ == spec_replace_dots(s@).take(i as int),
        decreases n - i,
    {
        let c = s.get_char(i);
        if c == '.' {
            out.append("_");
            proof {
                reveal_strlit("_");
                assert(out@ =~= spec_replace_dots(s@).take(i as int + 1));
            }
        } else {
            let piece = s.substring_char(i, i + 1);
            out.append(piece);
            proof {
                assert(piece@ =~= s@.subrange(i as int, i as int + 1));
                assert(out@ =~= spec_replace_dots(s@).take(i as int + 1));
            }
        }
        i = i + 1;
    }
    proof {
        assert(spec_replace_dots(s@).take(n as int) =~= spec_replace_dots(s@));
    }
    out
}

/// The cache file a feature's record is kept in.
pub fn cache_file_name(f: &JsFeature) -> (r: String)
    ensures
        r@ == spec_cache_file_name(*f),
{
    let mut out = replace_dots(f.key());
    out.append(".rec");
    proof {
        reveal_strlit(".rec");
        assert(".rec"@ =~= seq!['.', 'r', 'e', 'c']);
        assert(out@ =~= spec_cache_file_name(*f));
    }
    out
}

fn vs_from_key(v: &serde_json::Value, key: &str) -> (r: Option<VersionSupport>)
    ensures
        (json_model(*v) is Obj ==> crate::bcd::option_view(&r) == opt_vs_of_json(
            json_model(*v)->Obj_0,
            key@,
        )),
{
    match json_get(v, key) {
        Some(w) => Some(vs_from_value(w)),
        None => None,
    }
}

} // verus!
