//! The compatibility data model: the shape of one feature's entry in the
//! browser-compatibility dataset, and the version-selection logic that turns
//! it into a per-browser minimum-version map.

use vstd::prelude::*;
use vstd::string::*;

verus! {

/// The status block of a compatibility record.
#[derive(Clone, Copy, Debug, PartialEq, Eq, Structural)]
pub struct Status {
    pub deprecated: bool,
    pub experimental: bool,
    pub standard_track: bool,
}

/// When a browser gained a feature: since always (`Bool(true)`), never
/// (`Bool(false)`), at a concrete version (`Text`), or no data (`Null`).
#[derive(Debug)]
pub enum VersionAdded {
    Bool(bool),
    Text(String),
    Null,
}

/// One support entry for one browser.
#[derive(Debug)]
pub struct SupportInfo {
    pub version_added: VersionAdded,
}

/// A browser's support value: a single entry, an ordered list of alternative
/// entries, or a shape the dataset schema does not promise.
#[derive(Debug)]
pub enum VersionSupport {
    Single(SupportInfo),
    Multiple(Vec<SupportInfo>),
    Unknown,
}

/// The support values of the four tracked browsers; absent browsers carry
/// `None`.
#[derive(Debug)]
pub struct SupportMap {
    pub chrome: Option<VersionSupport>,
    pub firefox: Option<VersionSupport>,
    pub safari: Option<VersionSupport>,
    pub edge: Option<VersionSupport>,
}

/// One feature's compatibility record.
#[derive(Debug)]
pub struct Compatibility {
    pub description: Option<String>,
    pub mdn_url: Option<String>,
    pub status: Status,
    pub support: SupportMap,
}

/// Minimum supported version per tracked browser; browsers with no data are
/// omitted. `"true"` is the "supported since always" sentinel and `"false"`
/// means never supported.
#[derive(Debug)]
pub struct BrowserSupport {
    pub chrome: Option<String>,
    pub firefox: Option<String>,
    pub safari: Option<String>,
    pub edge: Option<String>,
}

/// Mathematical image of a `VersionAdded`.
pub enum VersionAddedModel {
    Bool(bool),
    Text(Seq<char>),
    Null,
}

impl View for VersionAdded {
    type V = VersionAddedModel;

    open spec fn view(&self) -> VersionAddedModel {
        match self {
            VersionAdded::Bool(b) => VersionAddedModel::Bool(*b),
            VersionAdded::Text(s) => VersionAddedModel::Text(s@),
            VersionAdded::Null => VersionAddedModel::Null,
        }
    }
}

/// Mathematical image of a `SupportInfo`.
pub struct SupportInfoModel {
    pub version_added: VersionAddedModel,
}

impl View for SupportInfo {
    type V = SupportInfoModel;

    open spec fn view(&self) -> SupportInfoModel {
        SupportInfoModel { version_added: self.version_added@ }
    }
}

impl DeepView for SupportInfo {
    type V = SupportInfoModel;

    open spec fn deep_view(&self) -> SupportInfoModel {
        self.view()
    }
}

/// Mathematical image of a `VersionSupport`.
pub enum VersionSupportModel {
    Single(SupportInfoModel),
    Multiple(Seq<SupportInfoModel>),
    Unknown,
}

impl View for VersionSupport {
    type V = VersionSupportModel;

    open spec fn view(&self) -> VersionSupportModel {
        match self {
            VersionSupport::Single(info) => VersionSupportModel::Single(info@),
            VersionSupport::Multiple(infos) => VersionSupportModel::Multiple(infos.deep_view()),
            VersionSupport::Unknown => VersionSupportModel::Unknown,
        }
    }
}

/// Spec-level `Option` of a viewed value.
pub open spec fn option_view<T: View>(o: &Option<T>) -> Option<T::V> {
    match o {
        Some(v) => Some(v.view()),
        None => None,
    }
}

/// Mathematical image of a `SupportMap`.
pub struct SupportMapModel {
    pub chrome: Option<VersionSupportModel>,
    pub firefox: Option<VersionSupportModel>,
    pub safari: Option<VersionSupportModel>,
    pub edge: Option<VersionSupportModel>,
}

impl View for SupportMap {
    type V = SupportMapModel;

    open spec fn view(&self) -> SupportMapModel {
        SupportMapModel {
            chrome: option_view(&self.chrome),
            firefox: option_view(&self.firefox),
            safari: option_view(&self.safari),
            edge: option_view(&self.edge),
        }
    }
}

/// Mathematical image of a `Compatibility`.
pub struct CompatibilityModel {
    pub description: Option<Seq<char>>,
    pub mdn_url: Option<Seq<char>>,
    pub status: Status,
    pub support: SupportMapModel,
}

impl View for Compatibility {
    type V = CompatibilityModel;

    open spec fn view(&self) -> CompatibilityModel {
        CompatibilityModel {
            description: self.description.deep_view(),
            mdn_url: self.mdn_url.deep_view(),
            status: self.status,
            support: self.support@,
        }
    }
}

/// Mathematical image of a `BrowserSupport`.
pub struct BrowserSupportModel {
    pub chrome: Option<Seq<char>>,
    pub firefox: Option<Seq<char>>,
    pub safari: Option<Seq<char>>,
    pub edge: Option<Seq<char>>,
}

impl View for BrowserSupport {
    type V = BrowserSupportModel;

    open spec fn view(&self) -> BrowserSupportModel {
        BrowserSupportModel {
            chrome: self.chrome.deep_view(),
            firefox: self.firefox.deep_view(),
            safari: self.safari.deep_view(),
            edge: self.edge.deep_view(),
        }
    }
}

/// The version string a single support entry selects.
pub open spec fn spec_entry_version(info: SupportInfoModel) -> Option<Seq<char>> {
    match info.version_added {
        VersionAddedModel::Bool(b) => if b {
            Some("true"@)
        } else {
            Some("false"@)
        },
        VersionAddedModel::Text(v) => Some(v),
        VersionAddedModel::Null => None,
    }
}

/// The version string a browser's support value selects: the single entry,
/// or the first of an alternative list, or nothing for unrecognized shapes
/// and missing browsers.
pub open spec fn spec_version_added(support: Option<VersionSupportModel>) -> Option<Seq<char>> {
    match support {
        Some(VersionSupportModel::Single(info)) => spec_entry_version(info),
        Some(VersionSupportModel::Multiple(infos)) => if infos.len() == 0 {
            None
        } else {
            spec_entry_version(infos[0])
        },
        Some(VersionSupportModel::Unknown) => None,
        None => None,
    }
}

fn entry_version(info: &SupportInfo) -> (r: Option<String>)
    ensures
        r.deep_view() == spec_entry_version(info@),
{
    match &info.version_added {
        VersionAdded::Bool(b) => if *b {
            Some(String::from_str("true"))
        } else {
            Some(String::from_str("false"))
        },
        VersionAdded::Text(v) => Some(v.clone()),
        VersionAdded::Null => None,
    }
}

/// Selects the minimum version recorded for one browser. A list of
/// alternative entries is decided by its first entry alone; alternatives are
/// not merged.
pub fn get_version_added(support: Option<&VersionSupport>) -> (r: Option<String>)
    ensures
        r.deep_view() == spec_version_added(match support {
            Some(v) => Some(v@),
            None => None,
        }),
{
    match support {
        Some(VersionSupport::Single(info)) => entry_version(info),
        Some(VersionSupport::Multiple(infos)) => {
            if infos.len() == 0 {
                None
            } else {
                let r = entry_version(&infos[0]);
                proof {
                    assert(infos.deep_view()[0] == infos@[0]@);
                }
                r
            }
        },
        Some(VersionSupport::Unknown) => None,
        None => None,
    }
}

/// The per-browser minimum-version map a record resolves to.
pub open spec fn spec_browser_support(c: CompatibilityModel) -> BrowserSupportModel {
    BrowserSupportModel {
        chrome: spec_version_added(c.support.chrome),
        firefox: spec_version_added(c.support.firefox),
        safari: spec_version_added(c.support.safari),
        edge: spec_version_added(c.support.edge),
    }
}

/// Derives the `BrowserSupport` map of a record: for each tracked browser,
/// the version its support value selects, omitting browsers with no data.
pub fn browser_support(c: &Compatibility) -> (r: BrowserSupport)
    ensures
        r@ == spec_browser_support(c@),
{
    BrowserSupport {
        chrome: get_version_added(c.support.chrome.as_ref()),
        firefox: get_version_added(c.support.firefox.as_ref()),
        safari: get_version_added(c.support.safari.as_ref()),
        edge: get_version_added(c.support.edge.as_ref()),
    }
}

/// The documentation reference of a record; empty when the record has none.
pub open spec fn spec_mdn_url(c: CompatibilityModel) -> Seq<char> {
    match c.mdn_url {
        Some(u) => u,
        None => Seq::empty(),
    }
}

/// The record's documentation reference, or the empty string.
pub fn mdn_url_of(c: &Compatibility) -> (r: String)
    ensures
        r@ == spec_mdn_url(c@),
{
    match &c.mdn_url {
        Some(u) => u.clone(),
        None => String::new(),
    }
}

/// Right-biased union of two support maps: entries present in `b` replace
/// those of `a`.
pub open spec fn bs_union(a: BrowserSupportModel, b: BrowserSupportModel) -> BrowserSupportModel {
    BrowserSupportModel {
        chrome: if b.chrome is Some {
            b.chrome
        } else {
            a.chrome
        },
        firefox: if b.firefox is Some {
            b.firefox
        } else {
            a.firefox
        },
        safari: if b.safari is Some {
            b.safari
        } else {
            a.safari
        },
        edge: if b.edge is Some {
            b.edge
        } else {
            a.edge
        },
    }
}

fn clone_opt_string(o: &Option<String>) -> (r: Option<String>)
    ensures
        r.deep_view() == o.deep_view(),
{
    match o {
        Some(s) => Some(s.clone()),
        None => None,
    }
}

impl BrowserSupport {
    /// An empty map: no browser has data.
    pub fn empty() -> (r: BrowserSupport)
        ensures
            r@.chrome is None,
            r@.firefox is None,
            r@.safari is None,
            r@.edge is None,
    {
        BrowserSupport { chrome: None, firefox: None, safari: None, edge: None }
    }

    /// A field-for-field copy.
    pub fn duplicate(&self) -> (r: BrowserSupport)
        ensures
            r@ == self@,
    {
        BrowserSupport {
            chrome: clone_opt_string(&self.chrome),
            firefox: clone_opt_string(&self.firefox),
            safari: clone_opt_string(&self.safari),
            edge: clone_opt_string(&self.edge),
        }
    }

    /// Merges `other` into `self`; entries of `other` win.
    pub fn extend(&mut self, other: &BrowserSupport)
        ensures
            final(self)@ == bs_union(old(self)@, other@),
    {
        if other.chrome.is_some() {
            self.chrome = clone_opt_string(&other.chrome);
        }
        if other.firefox.is_some() {
            self.firefox = clone_opt_string(&other.firefox);
        }
        if other.safari.is_some() {
            self.safari = clone_opt_string(&other.safari);
        }
        if other.edge.is_some() {
            self.edge = clone_opt_string(&other.edge);
        }
    }
}

} // verus!
