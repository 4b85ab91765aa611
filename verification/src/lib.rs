//! Lockfile dependency and license metadata extraction for
//! open-source license compliance auditing.
//!
//! The crate resolves a canonical identity for each package record,
//! folds records into a dependency map with fail-fast provenance
//! checking, and classifies raw license strings against a static
//! license registry.

use vstd::prelude::*;

verus! {

/// A unique identifier for a given package.
///
/// Equality is scoped to the active variant's payload: two identifiers
/// of different variants are never equal, even if the underlying
/// name and version coincide.
#[derive(Debug, PartialEq, Eq, Hash)]
pub enum CratePackageUID<C, N, V, S> {
    Checksum(C),
    NameAndVersion { name: N, version: V },
    NameVersionAndSource { name: N, version: V, source: S },
}

/// Mathematical value of a package identifier: the active variant
/// together with its payload, as sequences of characters.
#[verifier::ext_equal]
pub enum UidView {
    Checksum(Seq<char>),
    NameAndVersion { name: Seq<char>, version: Seq<char> },
    NameVersionAndSource { name: Seq<char>, version: Seq<char>, source: Seq<char> },
}

impl View for CratePackageUID<String, String, String, String> {
    type V = UidView;

    open spec fn view(&self) -> UidView {
        match self {
            CratePackageUID::Checksum(c) => UidView::Checksum(c@),
            CratePackageUID::NameAndVersion { name, version } => UidView::NameAndVersion {
                name: name@,
                version: version@,
            },
            CratePackageUID::NameVersionAndSource { name, version, source } => UidView::NameVersionAndSource {
                name: name@,
                version: version@,
                source: source@,
            },
        }
    }
}

/// A value that can hand out a canonical identifier for itself.
pub trait UID<U: View>: View {
    /// The identifier this value resolves to, as a mathematical value.
    spec fn uid_spec(&self) -> U::V;

    /// Resolves the canonical identifier.
    fn uid(&self) -> (u: U)
        ensures
            u@ == self.uid_spec(),
    ;
}

/// The mathematical value of an optional string.
pub open spec fn opt_str_view(o: Option<String>) -> Option<Seq<char>> {
    match o {
        Option::Some(s) => Option::Some(s@),
        Option::None => Option::None,
    }
}

/// How a package names its authors.
#[derive(Debug, PartialEq, Eq)]
pub enum Authors {
    Single(String),
    Multiple(Vec<String>),
}

/// Mathematical value of [`Authors`].
#[verifier::ext_equal]
pub enum AuthorsView {
    Single(Seq<char>),
    Multiple(Seq<Seq<char>>),
}

impl View for Authors {
    type V = AuthorsView;

    open spec fn view(&self) -> AuthorsView {
        match self {
            Authors::Single(s) => AuthorsView::Single(s@),
            Authors::Multiple(names) => AuthorsView::Multiple(names.deep_view()),
        }
    }
}

/// The outcome of classifying a raw license string.
#[derive(Debug, Clone, PartialEq, Eq)]
pub enum License {
    /// A valid, SPDX-recognized license was provided.
    Valid { name: String, id: String, category: String },
    /// Not a valid SPDX license.
    Unrecognized,
    /// No license provided.
    Absent,
}

/// Mathematical value of a classification outcome.
#[verifier::ext_equal]
pub enum LicenseView {
    Valid { name: Seq<char>, id: Seq<char>, category: Seq<char> },
    Unrecognized,
    Absent,
}

impl View for License {
    type V = LicenseView;

    open spec fn view(&self) -> LicenseView {
        match self {
            License::Valid { name, id, category } => LicenseView::Valid {
                name: name@,
                id: id@,
                category: category@,
            },
            License::Unrecognized => LicenseView::Unrecognized,
            License::Absent => LicenseView::Absent,
        }
    }
}

impl License {
    /// Whether the outcome records a license recognized by the Open
    /// Source Initiative: a valid license whose category says so.
    pub fn is_osi(&self) -> (r: bool)
        ensures
            r == (self@ matches LicenseView::Valid { category, .. } && category == "OSI Approved"@),
    {
        match self {
            License::Valid { category, .. } => {
                let osi: String = "OSI Approved".to_owned();
                *category == osi
            },
            _ => false,
        }
    }
}

/// Aggregate report entry for one package.
#[derive(Debug, PartialEq, Eq)]
pub struct Package {
    pub package_name: String,
    pub authors: Authors,
    /// Home page of the package, if known.
    pub home: Option<String>,
    /// Source repository of the package, if known.
    pub repo: Option<String>,
    /// Names of the packages this package depends on.
    pub depends: Vec<String>,
    /// Names of the packages that depend on this package.
    pub depended: Vec<String>,
    pub license: License,
}

/// Mathematical value of a [`Package`] report entry.
#[verifier::ext_equal]
pub struct PackageView {
    pub package_name: Seq<char>,
    pub authors: AuthorsView,
    pub home: Option<Seq<char>>,
    pub repo: Option<Seq<char>>,
    pub depends: Seq<Seq<char>>,
    pub depended: Seq<Seq<char>>,
    pub license: LicenseView,
}

impl View for Package {
    type V = PackageView;

    open spec fn view(&self) -> PackageView {
        PackageView {
            package_name: self.package_name@,
            authors: self.authors@,
            home: opt_str_view(self.home),
            repo: opt_str_view(self.repo),
            depends: self.depends.deep_view(),
            depended: self.depended.deep_view(),
            license: self.license@,
        }
    }
}

/// The package manager whose lockfile shape is modeled.
#[derive(Debug, Copy, Clone, PartialEq, Eq)]
pub enum PackageManager {
    Cargo,
}

} // verus!

pub mod cargo;
pub mod codec;
pub mod license;
