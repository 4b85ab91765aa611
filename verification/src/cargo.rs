//! Package records of one lockfile, canonical package identities, and
//! the dependency map builder with fail-fast provenance checking.

use vstd::prelude::*;

use crate::CratePackageUID;
use crate::UID;
use crate::UidView;
use crate::opt_str_view;

verus! {

/// The concrete package identifier: checksum, name, version and
/// source are all plain strings.
pub type PackageUID = CratePackageUID<String, String, String, String>;

/// A dependency spec: the name and version a package depends on.
#[derive(Debug, Clone, PartialEq, Eq)]
pub struct Dependency {
    pub name: String,
    pub version: String,
}

/// Mathematical value of a dependency spec.
#[verifier::ext_equal]
pub struct DependencyView {
    pub name: Seq<char>,
    pub version: Seq<char>,
}

impl View for Dependency {
    type V = DependencyView;

    open spec fn view(&self) -> DependencyView {
        DependencyView { name: self.name@, version: self.version@ }
    }
}

/// The mathematical value of a dependency list.
pub open spec fn deps_view(s: Seq<Dependency>) -> Seq<DependencyView> {
    s.map_values(|d: Dependency| d@)
}

/// One raw package record, as handed over by the lockfile loader.
#[derive(Debug, PartialEq, Eq)]
pub struct PackageRecord {
    pub name: String,
    pub version: String,
    /// Content checksum, when the lockfile pins one.
    pub checksum: Option<String>,
    /// Source registry or repository the package came from, if any.
    pub source: Option<String>,
    pub dependencies: Vec<Dependency>,
    /// Raw license expression string, when one is declared.
    pub license: Option<String>,
}

/// Mathematical value of a package record.
#[verifier::ext_equal]
pub struct RecordView {
    pub name: Seq<char>,
    pub version: Seq<char>,
    pub checksum: Option<Seq<char>>,
    pub source: Option<Seq<char>>,
    pub dependencies: Seq<DependencyView>,
    pub license: Option<Seq<char>>,
}

impl View for PackageRecord {
    type V = RecordView;

    open spec fn view(&self) -> RecordView {
        RecordView {
            name: self.name@,
            version: self.version@,
            checksum: opt_str_view(self.checksum),
            source: opt_str_view(self.source),
            dependencies: deps_view(self.dependencies@),
            license: opt_str_view(self.license),
        }
    }
}

/// The canonical identity of a record. Precedence: a checksum is the
/// strongest signal and wins outright; otherwise a source, if
/// present, joins name and version; otherwise name and version alone.
pub open spec fn uid_of(r: RecordView) -> UidView {
    match r.checksum {
        Option::Some(c) => UidView::Checksum(c),
        Option::None => match r.source {
            Option::Some(s) => UidView::NameVersionAndSource {
                name: r.name,
                version: r.version,
                source: s,
            },
            Option::None => UidView::NameAndVersion { name: r.name, version: r.version },
        },
    }
}

impl UID<PackageUID> for PackageRecord {
    open spec fn uid_spec(&self) -> UidView {
        uid_of(self@)
    }

    fn uid(&self) -> (u: PackageUID) {
        match &self.checksum {
            Option::Some(c) => CratePackageUID::Checksum(c.clone()),
            Option::None => match &self.source {
                Option::Some(s) => CratePackageUID::NameVersionAndSource {
                    name: self.name.clone(),
                    version: self.version.clone(),
                    source: s.clone(),
                },
                Option::None => CratePackageUID::NameAndVersion {
                    name: self.name.clone(),
                    version: self.version.clone(),
                },
            },
        }
    }
}

impl From<PackageRecord> for PackageUID {
    /// Consumes a record into its canonical identity, moving the
    /// strongest available fields out: the checksum when present,
    /// else name, version and the source when present, else name and
    /// version alone.
    fn from(value: PackageRecord) -> (r: Self) {
        match value {
            PackageRecord { checksum: Option::Some(sum), .. } => CratePackageUID::Checksum(sum),
            PackageRecord { name, version, source: Option::Some(source), .. } =>
                CratePackageUID::NameVersionAndSource { name, version, source },
            PackageRecord { name, version, .. } => CratePackageUID::NameAndVersion {
                name,
                version,
            },
        }
    }
}

impl vstd::std_specs::convert::FromSpecImpl<PackageRecord> for PackageUID {
    open spec fn obeys_from_spec() -> bool {
        true
    }

    open spec fn from_spec(value: PackageRecord) -> Self {
        match value.checksum {
            Option::Some(sum) => CratePackageUID::Checksum(sum),
            Option::None => match value.source {
                Option::Some(source) => CratePackageUID::NameVersionAndSource {
                    name: value.name,
                    version: value.version,
                    source,
                },
                Option::None => CratePackageUID::NameAndVersion {
                    name: value.name,
                    version: value.version,
                },
            },
        }
    }
}

/// Variant-scoped equality on package identifiers.
pub fn uid_eq(a: &PackageUID, b: &PackageUID) -> (r: bool)
    ensures
        r == (a@ == b@),
{
    match (a, b) {
        (CratePackageUID::Checksum(x), CratePackageUID::Checksum(y)) => *x == *y,
        (
            CratePackageUID::NameAndVersion { name: n1, version: v1 },
            CratePackageUID::NameAndVersion { name: n2, version: v2 },
        ) => *n1 == *n2 && *v1 == *v2,
        (
            CratePackageUID::NameVersionAndSource { name: n1, version: v1, source: s1 },
            CratePackageUID::NameVersionAndSource { name: n2, version: v2, source: s2 },
        ) => *n1 == *n2 && *v1 == *v2 && *s1 == *s2,
        _ => false,
    }
}

/// A batch construction error.
#[derive(Debug, PartialEq, Eq)]
pub enum Error {
    /// A package record lacks a source, so its origin cannot be
    /// attributed for compliance auditing.
    MissingPackageSource { name: String, version: String },
}

/// Mathematical value of an error.
#[verifier::ext_equal]
pub enum ErrorView {
    MissingPackageSource { name: Seq<char>, version: Seq<char> },
}

impl View for Error {
    type V = ErrorView;

    open spec fn view(&self) -> ErrorView {
        match self {
            Error::MissingPackageSource { name, version } => ErrorView::MissingPackageSource {
                name: name@,
                version: version@,
            },
        }
    }
}

/// Keys of the entry list are pairwise distinct.
pub open spec fn distinct_keys(s: Seq<(PackageUID, Vec<Dependency>)>) -> bool {
    forall|i: int, j: int| 0 <= i < j < s.len() ==> s[i].0@ != s[j].0@
}

/// The map an entry list stands for, folding the entries in order.
pub open spec fn entries_map(s: Seq<(PackageUID, Vec<Dependency>)>) -> Map<UidView, Seq<DependencyView>>
    decreases s.len(),
{
    if s.len() == 0 {
        Map::empty()
    } else {
        entries_map(s.drop_last()).insert(s.last().0@, deps_view(s.last().1@))
    }
}

proof fn lemma_entries_map_contains(s: Seq<(PackageUID, Vec<Dependency>)>)
    ensures
        forall|k: UidView|
            entries_map(s).dom().contains(k) <==> (exists|i: int|
                0 <= i < s.len() && s[i].0@ == k),
    decreases s.len(),
{
    if s.len() == 0 {
    } else {
        let pre = s.drop_last();
        lemma_entries_map_contains(pre);
        assert forall|k: UidView| entries_map(s).dom().contains(k) implies (exists|i: int|
            0 <= i < s.len() && s[i].0@ == k) by {
            if k == s.last().0@ {
                assert(s[s.len() - 1].0@ == k);
            } else {
                assert(entries_map(pre).dom().contains(k));
                let i = choose|i: int| 0 <= i < pre.len() && pre[i].0@ == k;
                assert(pre[i] == s[i]);
                assert(s[i].0@ == k);
            }
        }
        assert forall|k: UidView| (exists|i: int| 0 <= i < s.len() && s[i].0@ == k)
            implies entries_map(s).dom().contains(k) by {
            let i = choose|i: int| 0 <= i < s.len() && s[i].0@ == k;
            assert(entries_map(s) == entries_map(pre).insert(s.last().0@, deps_view(s.last().1@)));
            if i < s.len() - 1 {
                assert(pre[i] == s[i]);
                assert(pre[i].0@ == k);
                assert(entries_map(pre).dom().contains(k));
            } else {
                assert(k == s.last().0@);
            }
        }
    }
}

proof fn lemma_entries_map_len(s: Seq<(PackageUID, Vec<Dependency>)>)
    requires
        distinct_keys(s),
    ensures
        entries_map(s).dom().finite(),
        entries_map(s).dom().len() == s.len(),
    decreases s.len(),
{
    if s.len() == 0 {
    } else {
        let pre = s.drop_last();
        assert(distinct_keys(pre));
        lemma_entries_map_len(pre);
        lemma_entries_map_contains(pre);
        let k = s.last().0@;
        assert(forall|i: int| 0 <= i < pre.len() ==> pre[i].0@ != k);
        assert(!entries_map(pre).dom().contains(k));
    }
}

proof fn lemma_entries_map_index(s: Seq<(PackageUID, Vec<Dependency>)>, i: int)
    requires
        distinct_keys(s),
        0 <= i < s.len(),
    ensures
        entries_map(s).dom().contains(s[i].0@),
        entries_map(s)[s[i].0@] == deps_view(s[i].1@),
    decreases s.len(),
{
    if i == s.len() - 1 {
    } else {
        let pre = s.drop_last();
        assert(distinct_keys(pre));
        lemma_entries_map_index(pre, i);
        assert(pre[i] == s[i]);
        assert(s.last().0@ != s[i].0@);
    }
}

proof fn lemma_entries_map_update(
    s: Seq<(PackageUID, Vec<Dependency>)>,
    j: int,
    e: (PackageUID, Vec<Dependency>),
)
    requires
        distinct_keys(s),
        0 <= j < s.len(),
        e.0@ == s[j].0@,
    ensures
        entries_map(s.update(j, e)) == entries_map(s).insert(e.0@, deps_view(e.1@)),
    decreases s.len(),
{
    let su = s.update(j, e);
    if j == s.len() - 1 {
        assert(su.drop_last() =~= s.drop_last());
        assert(su.last() == e);
        assert(entries_map(su) =~= entries_map(s).insert(e.0@, deps_view(e.1@)));
    } else {
        let pre = s.drop_last();
        assert(distinct_keys(pre));
        assert(pre[j] == s[j]);
        lemma_entries_map_update(pre, j, e);
        assert(su.drop_last() =~= pre.update(j, e));
        assert(su.last() == s.last());
        assert(s[j].0@ != s.last().0@);
        assert(entries_map(su) =~= entries_map(s).insert(e.0@, deps_view(e.1@)));
    }
}

/// The dependency map: each canonical package identity maps to the
/// dependency list taken from its record. Each identity appears at
/// most once.
#[derive(Debug)]
pub struct DependencyMap {
    entries: Vec<(PackageUID, Vec<Dependency>)>,
}

impl View for DependencyMap {
    type V = Map<UidView, Seq<DependencyView>>;

    closed spec fn view(&self) -> Map<UidView, Seq<DependencyView>> {
        entries_map(self.entries@)
    }
}

impl DependencyMap {
    /// Internal invariant: no identity appears twice.
    pub closed spec fn wf(&self) -> bool {
        distinct_keys(self.entries@)
    }

    /// An empty map.
    pub fn new() -> (m: DependencyMap)
        ensures
            m.wf(),
            m@ == Map::<UidView, Seq<DependencyView>>::empty(),
    {
        DependencyMap { entries: Vec::new() }
    }

    /// How many packages the map holds.
    pub fn len(&self) -> (n: usize)
        requires
            self.wf(),
        ensures
            n == self@.dom().len(),
    {
        proof {
            lemma_entries_map_len(self.entries@);
        }
        self.entries.len()
    }

    /// Binds `uid` to `deps`, replacing any earlier binding of the
    /// same identity.
    pub fn insert(&mut self, uid: PackageUID, deps: Vec<Dependency>)
        requires
            old(self).wf(),
        ensures
            final(self).wf(),
            final(self)@ == old(self)@.insert(uid@, deps_view(deps@)),
    {
        let n = self.entries.len();
        let mut j: usize = 0;
        while j < n
            invariant
                j <= n,
                n == self.entries.len(),
                *self == *old(self),
                old(self).wf(),
                forall|t: int| 0 <= t < j ==> self.entries@[t].0@ != uid@,
            decreases n - j,
        {
            if uid_eq(&self.entries[j].0, &uid) {
                let ghost before = self.entries@;
                let entry = (uid, deps);
                self.entries[j] = entry;
                proof {
                    assert(self.entries@ == before.update(j as int, entry));
                    assert(entry.0@ == before[j as int].0@);
                    lemma_entries_map_update(before, j as int, entry);
                    assert forall|a: int, b: int| 0 <= a < b < self.entries@.len()
                        implies self.entries@[a].0@ != self.entries@[b].0@ by {
                        assert(before[a].0@ != before[b].0@);
                    }
                }
                return;
            }
            j += 1;
        }
        self.entries.push((uid, deps));
        proof {
            assert(self.entries@.drop_last() =~= old(self).entries@);
            assert(self.entries@.last() == (uid, deps));
        }
    }

    /// Shared read-only access to the bindings, for reporting: each
    /// identity exactly once, bound to the list the map holds for it.
    pub fn entries(&self) -> (r: &Vec<(PackageUID, Vec<Dependency>)>)
        requires
            self.wf(),
        ensures
            r@.len() == self@.dom().len(),
            forall|t: int| 0 <= t < r@.len()
                ==> self@.dom().contains(#[trigger] r@[t].0@) && self@[r@[t].0@] == deps_view(
                    r@[t].1@,
                ),
            forall|i: int, j: int| 0 <= i < j < r@.len() ==> r@[i].0@ != r@[j].0@,
    {
        proof {
            lemma_entries_map_len(self.entries@);
            assert forall|t: int| 0 <= t < self.entries@.len()
                implies self@.dom().contains(#[trigger] self.entries@[t].0@)
                && self@[self.entries@[t].0@] == deps_view(self.entries@[t].1@) by {
                lemma_entries_map_index(self.entries@, t);
            }
        }
        &self.entries
    }

    /// Looks an identity up: the dependency list bound to it, if any.
    pub fn get(&self, uid: &PackageUID) -> (r: Option<&Vec<Dependency>>)
        requires
            self.wf(),
        ensures
            match r {
                Option::Some(deps) => {
                    &&& self@.dom().contains(uid@)
                    &&& deps_view(deps@) == self@[uid@]
                },
                Option::None => !self@.dom().contains(uid@),
            },
    {
        let n = self.entries.len();
        let mut j: usize = 0;
        while j < n
            invariant
                j <= n,
                n == self.entries.len(),
                self.wf(),
                forall|t: int| 0 <= t < j ==> self.entries@[t].0@ != uid@,
            decreases n - j,
        {
            if uid_eq(&self.entries[j].0, uid) {
                proof {
                    lemma_entries_map_index(self.entries@, j as int);
                }
                return Option::Some(&self.entries[j].1);
            }
            j += 1;
        }
        proof {
            lemma_entries_map_contains(self.entries@);
        }
        Option::None
    }
}

/// The mathematical value of a record list.
pub open spec fn records_view(s: Seq<PackageRecord>) -> Seq<RecordView> {
    s.map_values(|p: PackageRecord| p@)
}

/// The set of package records taken from one lockfile.
#[derive(Debug, PartialEq, Eq)]
pub struct Licenses {
    pub packages: Vec<PackageRecord>,
}

impl View for Licenses {
    type V = Seq<RecordView>;

    open spec fn view(&self) -> Seq<RecordView> {
        records_view(self.packages@)
    }
}

/// Every record carries a source.
pub open spec fn all_have_source(s: Seq<RecordView>) -> bool {
    forall|i: int| 0 <= i < s.len() ==> s[i].source is Some
}

/// Index of the first record without a source.
pub open spec fn first_missing_source(s: Seq<RecordView>) -> int
    decreases s.len(),
{
    if s.len() == 0 {
        0
    } else if s[0].source is None {
        0
    } else {
        1 + first_missing_source(s.drop_first())
    }
}

proof fn lemma_first_missing_source(s: Seq<RecordView>, i: int)
    requires
        0 <= i < s.len(),
        s[i].source is None,
        forall|j: int| 0 <= j < i ==> s[j].source is Some,
    ensures
        first_missing_source(s) == i,
    decreases i,
{
    if i == 0 {
    } else {
        assert(s[0].source is Some);
        let rest = s.drop_first();
        assert(rest[i - 1] == s[i]);
        assert(forall|j: int| 0 <= j < i - 1 ==> rest[j] == s[j + 1]);
        lemma_first_missing_source(rest, i - 1);
    }
}

/// The dependency map a record list folds to: each record's identity
/// bound to its dependency list, in lockfile order, later bindings
/// replacing earlier ones of the same identity.
pub open spec fn map_of(s: Seq<RecordView>) -> Map<UidView, Seq<DependencyView>>
    decreases s.len(),
{
    if s.len() == 0 {
        Map::empty()
    } else {
        map_of(s.drop_last()).insert(uid_of(s.last()), s.last().dependencies)
    }
}

impl Licenses {
    /// Folds every record into a map from canonical identity to the
    /// record's dependency list, consuming the records: the
    /// dependency list is moved into the map, so no consumer can
    /// reach it through the record again. Fails fast with
    /// `Error::MissingPackageSource` on the first record whose origin
    /// cannot be attributed, and no partial map is returned.
    #[verifier::loop_isolation(false)]
    pub fn create_map(self) -> (r: Result<DependencyMap, Error>)
        ensures
            match r {
                Result::Ok(m) => {
                    &&& all_have_source(self@)
                    &&& m.wf()
                    &&& m@ == map_of(self@)
                },
                Result::Err(e) => {
                    &&& !all_have_source(self@)
                    &&& e@ == (ErrorView::MissingPackageSource {
                        name: self@[first_missing_source(self@)].name,
                        version: self@[first_missing_source(self@)].version,
                    })
                },
            },
    {
        let ghost orig = self@;
        let mut packages = self.packages;
        let mut dependency_map = DependencyMap::new();
        let mut i: usize = 0;
        let n = packages.len();
        while i < n
            invariant
                i <= n,
                orig.len() == n,
                packages@.len() == n - i,
                records_view(packages@) =~= orig.skip(i as int),
                dependency_map.wf(),
                dependency_map@ == map_of(orig.take(i as int)),
                forall|j: int| 0 <= j < i ==> orig[j].source is Some,
            decreases n - i,
        {
            let ghost before = packages@;
            let rec = packages.remove(0);
            proof {
                assert(rec@ == records_view(before)[0]);
                assert(rec@ == orig[i as int]);
                assert forall|t: int| 0 <= t < packages@.len()
                    implies records_view(packages@)[t] == orig.skip(i + 1)[t] by {
                    assert(packages@[t] == before[t + 1]);
                    assert(records_view(before)[t + 1] == orig.skip(i as int)[t + 1]);
                }
            }
            let uid = rec.uid();
            let PackageRecord { name, version, source, dependencies, .. } = rec;
            dependency_map.insert(uid, dependencies);
            proof {
                assert(orig.take(i + 1).drop_last() =~= orig.take(i as int));
                assert(orig.take(i + 1).last() == orig[i as int]);
                assert(deps_view(dependencies@) == orig[i as int].dependencies);
                assert(dependency_map@ == map_of(orig.take(i + 1)));
            }
            if source.is_none() {
                proof {
                    assert(orig[i as int].source is None);
                    lemma_first_missing_source(orig, i as int);
                    assert(!all_have_source(orig));
                }
                return Result::Err(Error::MissingPackageSource { name, version });
            }
            proof {
                assert(orig[i as int].source is Some);
            }
            i += 1;
        }
        proof {
            assert(orig.take(n as int) =~= orig);
        }
        Result::Ok(dependency_map)
    }
}

/// Identity is checksum-determined: a record carrying a checksum
/// resolves to the `Checksum` variant, whatever its name, version and
/// source hold.
pub proof fn lemma_uid_checksum_wins(r: RecordView)
    requires
        r.checksum is Some,
    ensures
        uid_of(r) matches UidView::Checksum(c) && Option::Some(c) == r.checksum,
{
}

/// A record without a checksum but with a source resolves to
/// `NameVersionAndSource`; giving the same record a checksum moves
/// its identity to the `Checksum` variant.
pub proof fn lemma_uid_source(r: RecordView, c: Seq<char>)
    requires
        r.checksum is None,
        r.source is Some,
    ensures
        uid_of(r) matches UidView::NameVersionAndSource { name, version, source }
            && name == r.name && version == r.version && Option::Some(source) == r.source,
        uid_of(RecordView { checksum: Option::Some(c), ..r }) == UidView::Checksum(c),
{
}

/// The built map's keys are exactly the identities of the input
/// records: an identity is bound in `map_of` precisely when some
/// record resolves to it.
pub proof fn lemma_map_of_contains(s: Seq<RecordView>)
    ensures
        forall|k: UidView|
            map_of(s).dom().contains(k) <==> (exists|i: int|
                0 <= i < s.len() && uid_of(s[i]) == k),
    decreases s.len(),
{
    if s.len() == 0 {
    } else {
        let pre = s.drop_last();
        lemma_map_of_contains(pre);
        assert forall|k: UidView| map_of(s).dom().contains(k) implies (exists|i: int|
            0 <= i < s.len() && uid_of(s[i]) == k) by {
            if k == uid_of(s.last()) {
                assert(uid_of(s[s.len() - 1]) == k);
            } else {
                assert(map_of(pre).dom().contains(k));
                let i = choose|i: int| 0 <= i < pre.len() && uid_of(pre[i]) == k;
                assert(pre[i] == s[i]);
                assert(uid_of(s[i]) == k);
            }
        }
        assert forall|k: UidView| (exists|i: int| 0 <= i < s.len() && uid_of(s[i]) == k)
            implies map_of(s).dom().contains(k) by {
            let i = choose|i: int| 0 <= i < s.len() && uid_of(s[i]) == k;
            if i < s.len() - 1 {
                assert(pre[i] == s[i]);
                assert(uid_of(pre[i]) == k);
            }
        }
    }
}

/// A batch of records with pairwise-distinct identities builds a
/// dependency map with exactly one entry per record: together with
/// `create_map`'s contract, a lockfile of that shape yields a map of
/// exactly as many entries as records, with no duplicate keys.
pub proof fn lemma_map_of_entry_count(s: Seq<RecordView>)
    requires
        forall|i: int, j: int| 0 <= i < j < s.len() ==> uid_of(s[i]) != uid_of(s[j]),
    ensures
        map_of(s).dom().finite(),
        map_of(s).dom().len() == s.len(),
    decreases s.len(),
{
    if s.len() == 0 {
    } else {
        let pre = s.drop_last();
        assert(forall|i: int, j: int| 0 <= i < j < pre.len() ==> uid_of(pre[i]) != uid_of(pre[j]));
        lemma_map_of_entry_count(pre);
        lemma_map_of_contains(pre);
        let k = uid_of(s.last());
        assert forall|i: int| 0 <= i < pre.len() implies uid_of(pre[i]) != k by {
            assert(pre[i] == s[i]);
            assert(uid_of(s[i]) != uid_of(s[s.len() - 1]));
        }
        assert(!map_of(pre).dom().contains(k));
    }
}

/// When exactly one record lacks a source, map construction fails
/// and blames precisely that record: together with `create_map`'s
/// contract, the error names that record's name and version, and no
/// map is returned.
pub proof fn lemma_single_missing_source_blamed(s: Seq<RecordView>, i: int)
    requires
        0 <= i < s.len(),
        s[i].source is None,
        forall|j: int| 0 <= j < s.len() && j != i ==> s[j].source is Some,
    ensures
        !all_have_source(s),
        first_missing_source(s) == i,
{
    lemma_first_missing_source(s, i);
}

} // verus!
