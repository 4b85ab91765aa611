//! The static license registry and the classifier that matches raw
//! license strings against it.

use vstd::prelude::*;

verus! {

/// One registry row of the embedded SPDX license dataset.
#[derive(Debug, Clone, PartialEq, Eq)]
pub struct License {
    /// Reference URL of the license text.
    pub reference: String,
    pub is_deprecated_license_id: bool,
    pub details_url: String,
    pub reference_number: i64,
    pub name: String,
    pub license_id: String,
    pub see_also: Vec<String>,
    pub is_osi_approved: bool,
    pub is_fsf_libre: Option<bool>,
}

/// Mathematical value of a registry row.
#[verifier::ext_equal]
pub struct LicenseEntryView {
    pub reference: Seq<char>,
    pub is_deprecated_license_id: bool,
    pub details_url: Seq<char>,
    pub reference_number: int,
    pub name: Seq<char>,
    pub license_id: Seq<char>,
    pub see_also: Seq<Seq<char>>,
    pub is_osi_approved: bool,
    pub is_fsf_libre: Option<bool>,
}

impl View for License {
    type V = LicenseEntryView;

    open spec fn view(&self) -> LicenseEntryView {
        LicenseEntryView {
            reference: self.reference@,
            is_deprecated_license_id: self.is_deprecated_license_id,
            details_url: self.details_url@,
            reference_number: self.reference_number as int,
            name: self.name@,
            license_id: self.license_id@,
            see_also: self.see_also.deep_view(),
            is_osi_approved: self.is_osi_approved,
            is_fsf_libre: self.is_fsf_libre,
        }
    }
}

/// The immutable license registry: the known licenses together with
/// dataset version metadata.
#[derive(Debug, Clone, PartialEq, Eq)]
pub struct List {
    pub license_list_version: String,
    pub licenses: Vec<License>,
    pub release_date: String,
}

/// Mathematical value of the registry.
#[verifier::ext_equal]
pub struct ListView {
    pub license_list_version: Seq<char>,
    pub licenses: Seq<LicenseEntryView>,
    pub release_date: Seq<char>,
}

impl View for List {
    type V = ListView;

    open spec fn view(&self) -> ListView {
        ListView {
            license_list_version: self.license_list_version@,
            licenses: self.licenses@.map_values(|l: License| l@),
            release_date: self.release_date@,
        }
    }
}

/// Whether some registry entry carries exactly this identifier.
pub open spec fn has_id(entries: Seq<LicenseEntryView>, id: Seq<char>) -> bool {
    exists|i: int| 0 <= i < entries.len() && entries[i].license_id == id
}

/// Index of the first registry entry carrying this identifier.
pub open spec fn index_of_id(entries: Seq<LicenseEntryView>, id: Seq<char>) -> int
    decreases entries.len(),
{
    if entries.len() == 0 {
        0
    } else if entries[0].license_id == id {
        0
    } else {
        1 + index_of_id(entries.drop_first(), id)
    }
}

proof fn lemma_index_of_id(entries: Seq<LicenseEntryView>, id: Seq<char>, i: int)
    requires
        0 <= i < entries.len(),
        entries[i].license_id == id,
        forall|j: int| 0 <= j < i ==> entries[j].license_id != id,
    ensures
        index_of_id(entries, id) == i,
    decreases i,
{
    if i == 0 {
    } else {
        assert(entries[0].license_id != id);
        let rest = entries.drop_first();
        assert(rest[i - 1] == entries[i]);
        assert(forall|j: int| 0 <= j < i - 1 ==> rest[j] == entries[j + 1]);
        lemma_index_of_id(rest, id, i - 1);
    }
}

impl List {
    /// Exact-match (case-sensitive) lookup by license identifier:
    /// the first entry carrying `id`, or `None` when the registry has
    /// no such entry.
    pub fn find(&self, id: &String) -> (r: Option<&License>)
        ensures
            match r {
                Option::Some(entry) => {
                    &&& has_id(self@.licenses, id@)
                    &&& entry@ == self@.licenses[index_of_id(self@.licenses, id@)]
                },
                Option::None => !has_id(self@.licenses, id@),
            },
    {
        let n = self.licenses.len();
        let mut j: usize = 0;
        while j < n
            invariant
                j <= n,
                n == self.licenses.len(),
                forall|t: int| 0 <= t < j ==> self@.licenses[t].license_id != id@,
            decreases n - j,
        {
            if self.licenses[j].license_id == *id {
                proof {
                    lemma_index_of_id(self@.licenses, id@, j as int);
                }
                return Option::Some(&self.licenses[j]);
            }
            j += 1;
        }
        Option::None
    }
}

/// A raw license identifier, validated against the registry.
#[derive(Debug, PartialEq, Eq)]
pub enum Id {
    /// A recognized SPDX identifier.
    Spdx(String),
    /// An identifier the registry does not know.
    Unknown(String),
}

/// Mathematical value of a validated identifier.
#[verifier::ext_equal]
pub enum IdView {
    Spdx(Seq<char>),
    Unknown(Seq<char>),
}

impl View for Id {
    type V = IdView;

    open spec fn view(&self) -> IdView {
        match self {
            Id::Spdx(s) => IdView::Spdx(s@),
            Id::Unknown(s) => IdView::Unknown(s@),
        }
    }
}

impl Id {
    /// Validates `id` against the registry: `Spdx` exactly when some
    /// entry matches it, `Unknown` otherwise. The payload is `id`
    /// either way.
    pub fn new(list: &List, id: String) -> (r: Id)
        ensures
            r@ == if has_id(list@.licenses, id@) {
                IdView::Spdx(id@)
            } else {
                IdView::Unknown(id@)
            },
    {
        match list.find(&id) {
            Option::Some(_) => Id::Spdx(id),
            Option::None => Id::Unknown(id),
        }
    }
}

/// The outcome the classifier owes for a raw license string under a
/// given registry: no string or an empty string is `None`, an exact
/// registry match is `Valid` with the entry's display name and a
/// category derived from OSI approval, anything else is
/// `Unrecognized`.
pub open spec fn classify_spec(entries: Seq<LicenseEntryView>, raw: Option<Seq<char>>) -> crate::LicenseView {
    match raw {
        Option::None => crate::LicenseView::Absent,
        Option::Some(s) => {
            if s.len() == 0 {
                crate::LicenseView::Absent
            } else if has_id(entries, s) {
                crate::LicenseView::Valid {
                    name: entries[index_of_id(entries, s)].name,
                    id: entries[index_of_id(entries, s)].license_id,
                    category: if entries[index_of_id(entries, s)].is_osi_approved {
                        "OSI Approved"@
                    } else {
                        "Other"@
                    },
                }
            } else {
                crate::LicenseView::Unrecognized
            }
        },
    }
}

/// The mathematical value of the classifier's input.
pub open spec fn raw_view(raw: Option<&String>) -> Option<Seq<char>> {
    match raw {
        Option::Some(s) => Option::Some(s@),
        Option::None => Option::None,
    }
}

/// Classifies a raw license string against the registry.
pub fn classify(list: &List, raw: Option<&String>) -> (r: crate::License)
    ensures
        r@ == classify_spec(list@.licenses, raw_view(raw)),
{
    match raw {
        Option::None => crate::License::Absent,
        Option::Some(s) => {
            if s.as_str().is_empty() {
                crate::License::Absent
            } else {
                match list.find(s) {
                    Option::Some(entry) => {
                        let category: String = if entry.is_osi_approved {
                            "OSI Approved".to_owned()
                        } else {
                            "Other".to_owned()
                        };
                        crate::License::Valid {
                            name: entry.name.clone(),
                            id: entry.license_id.clone(),
                            category,
                        }
                    },
                    Option::None => crate::License::Unrecognized,
                }
            }
        },
    }
}

} // verus!
