//! The range cache: per package, the ranges accumulated so far, and the set
//! of packages that were given up.

use crate::semver::{is_highest_admitted, range_allows_all, range_max_satisfying, range_satisfies};
use crate::semver::version_texts;
use crate::semver::{Version, VersionRange};
use vstd::prelude::*;

verus! {

/// What an insertion found.
#[derive(Debug, Clone, Copy, PartialEq, Eq, Structural)]
pub struct RangeCacheResult {
    pub package_is_new: bool,
    pub range_is_new: bool,
}

/// Whether some range of the list admits the version.
pub open spec fn ranges_satisfy(ranges: Seq<Seq<char>>, version: Seq<char>) -> bool {
    exists|i: int| 0 <= i < ranges.len() && range_satisfies(#[trigger] ranges[i], version) == Some(true)
}

/// Whether `range` covers some range of the list, and so adds nothing.
pub open spec fn covers_one(ranges: Seq<Seq<char>>, range: Seq<char>) -> bool {
    exists|i: int| 0 <= i < ranges.len() && range_allows_all(range, #[trigger] ranges[i]) == Some(true)
}

/// The picks of the ranges among `versions`, in the order of the ranges;
/// a range that picks nothing contributes nothing.
pub open spec fn ranges_max_satisfying(ranges: Seq<Seq<char>>, versions: Seq<Seq<char>>) -> Seq<
    Seq<char>,
>
    decreases ranges.len(),
{
    if ranges.len() == 0 {
        Seq::empty()
    } else {
        let rest = ranges_max_satisfying(ranges.drop_last(), versions);
        match range_max_satisfying(ranges.last(), versions) {
            Some(v) => rest.push(v),
            None => rest,
        }
    }
}

/// Whether `pick` renders the highest version of the list that one of the
/// ranges admits.
pub open spec fn is_pick_of(ranges: Seq<Seq<char>>, versions: Seq<Seq<char>>, pick: Seq<char>) -> bool {
    exists|j: int| 0 <= j < ranges.len() && is_highest_admitted(#[trigger] ranges[j], versions, pick)
}

/// Whether each of `picks` renders the highest version of the list that
/// one of the ranges admits.
pub open spec fn all_picks(ranges: Seq<Seq<char>>, versions: Seq<Seq<char>>, picks: Seq<Seq<char>>) -> bool {
    forall|k: int| 0 <= k < picks.len() ==> is_pick_of(ranges, versions, #[trigger] picks[k])
}

/// One pick per range at most: the picks are no more than the ranges, and
/// a single range gives its pick alone, or nothing.
pub proof fn law_one_pick_per_range(ranges: Seq<Seq<char>>, versions: Seq<Seq<char>>)
    ensures
        ranges_max_satisfying(ranges, versions).len() <= ranges.len(),
        ranges.len() == 1 ==> ranges_max_satisfying(ranges, versions) == (match range_max_satisfying(
            ranges[0],
            versions,
        ) {
            Some(v) => seq![v],
            None => Seq::empty(),
        }),
    decreases ranges.len(),
{
    if ranges.len() > 0 {
        law_one_pick_per_range(ranges.drop_last(), versions);
        if ranges.len() == 1 {
            assert(ranges_max_satisfying(ranges.drop_last(), versions) =~= Seq::empty());
            assert(ranges.last() == ranges[0]);
            match range_max_satisfying(ranges[0], versions) {
                Some(v) => {
                    assert(ranges_max_satisfying(ranges, versions) =~= seq![v]);
                },
                None => {},
            }
        }
    }
}

/// The texts of a list of ranges.
pub open spec fn range_texts(ranges: Seq<VersionRange>) -> Seq<Seq<char>> {
    ranges.map_values(|r: VersionRange| r@)
}

/// The ranges accumulated for one package, oldest first.
pub struct Ranges {
    pub inner: Vec<VersionRange>,
}

impl View for Ranges {
    type V = Seq<Seq<char>>;

    open spec fn view(&self) -> Seq<Seq<char>> {
        range_texts(self.inner@)
    }
}

impl Ranges {
    /// Whether some accumulated range admits the version.
    pub fn satisfies(&self, version: &Version) -> (r: bool)
        ensures
            r == ranges_satisfy(self@, version@),
    {
        let n = self.inner.len();
        let mut i: usize = 0;
        while i < n
            invariant
                n == self.inner@.len(),
                i <= n,
                forall|j: int| 0 <= j < i ==> range_satisfies(#[trigger] self@[j], version@) != Some(true),
            decreases n - i,
        {
            if self.inner[i].satisfies(version) {
                assert(range_satisfies(self@[i as int], version@) == Some(true));
                return true;
            }
            i += 1;
        }
        false
    }

    /// For each accumulated range, the highest of `versions` that it admits.
    pub fn max_satisfying(&self, versions: &Vec<Version>) -> (r: Vec<Version>)
        ensures
            version_texts(r@) == ranges_max_satisfying(self@, version_texts(versions@)),
            all_picks(self@, version_texts(versions@), version_texts(r@)),
    {
        let n = self.inner.len();
        let mut picks: Vec<Version> = Vec::new();
        let mut i: usize = 0;
        assert(self@.take(0) =~= Seq::<Seq<char>>::empty());
        assert(version_texts(picks@) =~= Seq::<Seq<char>>::empty());
        while i < n
            invariant
                n == self.inner@.len(),
                i <= n,
                version_texts(picks@) == ranges_max_satisfying(
                    self@.take(i as int),
                    version_texts(versions@),
                ),
                all_picks(self@, version_texts(versions@), version_texts(picks@)),
            decreases n - i,
        {
            let ghost before = picks@;
            assert(self@.take(i + 1).drop_last() =~= self@.take(i as int));
            assert(self@.take(i + 1).last() == self.inner@[i as int]@);
            match self.inner[i].max_satisfying(versions) {
                Some(v) => {
                    picks.push(v);
                    assert(version_texts(picks@) =~= version_texts(before).push(v@));
                    assert(is_highest_admitted(self@[i as int], version_texts(versions@), v@));
                    assert forall|k: int| 0 <= k < version_texts(picks@).len() implies is_pick_of(
                        self@,
                        version_texts(versions@),
                        #[trigger] version_texts(picks@)[k],
                    ) by {
                        if k < before.len() {
                            assert(version_texts(picks@)[k] == version_texts(before)[k]);
                        }
                    }
                },
                None => {},
            }
            i += 1;
        }
        assert(self@.take(n as int) =~= self@);
        picks
    }
}


/// The cache as a mathematical value: the ranges of each live package, and
/// the packages that were given up.
pub struct CacheModel {
    pub ranges: Map<Seq<char>, Seq<Seq<char>>>,
    pub removed: Set<Seq<char>>,
}

impl CacheModel {
    /// The empty cache.
    pub open spec fn empty() -> CacheModel {
        CacheModel { ranges: Map::empty(), removed: Set::empty() }
    }

    /// No package is both live and given up.
    pub open spec fn wf(self) -> bool {
        forall|p: Seq<char>| self.removed.contains(p) ==> !self.ranges.dom().contains(p)
    }

    /// The packages that an insertion or a removal has named so far.
    pub open spec fn seen(self) -> Set<Seq<char>> {
        self.ranges.dom().union(self.removed)
    }

    /// What `insert` reports.
    pub open spec fn insert_result(self, package: Seq<char>, range: Seq<char>) -> RangeCacheResult {
        if self.removed.contains(package) {
            RangeCacheResult { package_is_new: false, range_is_new: false }
        } else if self.ranges.dom().contains(package) {
            if covers_one(self.ranges[package], range) {
                RangeCacheResult { package_is_new: false, range_is_new: false }
            } else {
                RangeCacheResult { package_is_new: false, range_is_new: true }
            }
        } else {
            RangeCacheResult { package_is_new: true, range_is_new: true }
        }
    }

    /// The cache after `insert`: the range is appended where it is new,
    /// and nothing changes otherwise.
    pub open spec fn insert(self, package: Seq<char>, range: Seq<char>) -> CacheModel {
        let res = self.insert_result(package, range);
        if res.package_is_new {
            CacheModel { ranges: self.ranges.insert(package, seq![range]), removed: self.removed }
        } else if res.range_is_new {
            CacheModel {
                ranges: self.ranges.insert(package, self.ranges[package].push(range)),
                removed: self.removed,
            }
        } else {
            self
        }
    }

    /// The cache after `remove`.
    pub open spec fn remove(self, package: Seq<char>) -> CacheModel {
        CacheModel { ranges: self.ranges.remove(package), removed: self.removed.insert(package) }
    }

    /// Whether some accumulated range of a live package admits the version.
    pub open spec fn satisfies(self, package: Seq<char>, version: Seq<char>) -> bool {
        !self.removed.contains(package) && self.ranges.dom().contains(package) && ranges_satisfy(
            self.ranges[package],
            version,
        )
    }

    /// The ranges accumulated for a package; none for a package that is
    /// unknown or given up.
    pub open spec fn live_ranges(self, package: Seq<char>) -> Seq<Seq<char>> {
        if !self.removed.contains(package) && self.ranges.dom().contains(package) {
            self.ranges[package]
        } else {
            Seq::empty()
        }
    }

    /// The picks of a live package's ranges among `versions`.
    pub open spec fn max_satisfying(self, package: Seq<char>, versions: Seq<Seq<char>>) -> Seq<
        Seq<char>,
    > {
        if !self.removed.contains(package) && self.ranges.dom().contains(package) {
            ranges_max_satisfying(self.ranges[package], versions)
        } else {
            Seq::empty()
        }
    }
}

/// One call on the cache.
pub enum CacheOp {
    Insert { package: Seq<char>, range: Seq<char> },
    Remove { package: Seq<char> },
}

impl CacheOp {
    /// Whether the call gives `package` up.
    pub open spec fn removes(self, package: Seq<char>) -> bool {
        self matches CacheOp::Remove { package: p } && p == package
    }

    /// Whether the call is an insertion for `package` that reports the
    /// package as new in state `m`.
    pub open spec fn reports_new(self, m: CacheModel, package: Seq<char>) -> bool {
        self matches CacheOp::Insert { package: p, range } && p == package && m.insert_result(
            p,
            range,
        ).package_is_new
    }
}

impl CacheModel {
    /// The cache after one call.
    pub open spec fn apply(self, op: CacheOp) -> CacheModel {
        match op {
            CacheOp::Insert { package, range } => self.insert(package, range),
            CacheOp::Remove { package } => self.remove(package),
        }
    }

    /// The cache after a sequence of calls, in order.
    pub open spec fn run(self, ops: Seq<CacheOp>) -> CacheModel
        decreases ops.len(),
    {
        if ops.len() == 0 {
            self
        } else {
            self.apply(ops[0]).run(ops.drop_first())
        }
    }

    /// How often a sequence of calls, begun in this state, reports
    /// `package` as new.
    pub open spec fn times_new(self, ops: Seq<CacheOp>, package: Seq<char>) -> nat
        decreases ops.len(),
    {
        if ops.len() == 0 {
            0
        } else {
            let rest = self.apply(ops[0]).times_new(ops.drop_first(), package);
            if ops[0].reports_new(self, package) {
                rest + 1
            } else {
                rest
            }
        }
    }
}

/// One call keeps the cache well formed, forgets no package that was ever
/// named, and revives none that was given up.
pub proof fn lemma_apply_grows(m: CacheModel, op: CacheOp)
    requires
        m.wf(),
    ensures
        m.apply(op).wf(),
        m.seen().subset_of(m.apply(op).seen()),
        m.removed.subset_of(m.apply(op).removed),
{
}

/// A package that was given up has no ranges: no sequence of insertions
/// and removals makes a package both live and given up.
pub proof fn law_removed_has_no_ranges(m: CacheModel, ops: Seq<CacheOp>)
    requires
        m.wf(),
    ensures
        m.run(ops).wf(),
    decreases ops.len(),
{
    if ops.len() > 0 {
        lemma_apply_grows(m, ops[0]);
        law_removed_has_no_ranges(m.apply(ops[0]), ops.drop_first());
    }
}

/// A package that was given up stays given up, whatever is called later.
pub proof fn lemma_removed_stays(m: CacheModel, ops: Seq<CacheOp>, package: Seq<char>)
    requires
        m.removed.contains(package),
    ensures
        m.run(ops).removed.contains(package),
    decreases ops.len(),
{
    if ops.len() > 0 {
        lemma_removed_stays(m.apply(ops[0]), ops.drop_first(), package);
    }
}

/// Tombstone absorption: once a package is removed, then after any further
/// calls no version of it is satisfied, nothing is picked for it, and an
/// insertion for it reports nothing new and changes nothing.
pub proof fn law_tombstone_absorbs(
    m: CacheModel,
    package: Seq<char>,
    later: Seq<CacheOp>,
    range: Seq<char>,
    version: Seq<char>,
    versions: Seq<Seq<char>>,
)
    ensures
        ({
            let after = m.remove(package).run(later);
            &&& !after.satisfies(package, version)
            &&& after.max_satisfying(package, versions) == Seq::<Seq<char>>::empty()
            &&& after.insert_result(package, range) == (RangeCacheResult {
                package_is_new: false,
                range_is_new: false,
            })
            &&& after.insert(package, range) == after
        }),
{
    lemma_removed_stays(m.remove(package), later, package);
}

/// A package that was named before is never reported as new.
pub proof fn lemma_seen_never_new(m: CacheModel, ops: Seq<CacheOp>, package: Seq<char>)
    requires
        m.wf(),
        m.seen().contains(package),
    ensures
        m.times_new(ops, package) == 0,
    decreases ops.len(),
{
    if ops.len() > 0 {
        lemma_apply_grows(m, ops[0]);
        lemma_seen_never_new(m.apply(ops[0]), ops.drop_first(), package);
    }
}

/// Package-new uniqueness: in any sequence of insertions and removals, a
/// package is reported as new at most once.
pub proof fn law_package_new_once(m: CacheModel, ops: Seq<CacheOp>, package: Seq<char>)
    requires
        m.wf(),
    ensures
        m.times_new(ops, package) <= 1,
    decreases ops.len(),
{
    if ops.len() > 0 {
        lemma_apply_grows(m, ops[0]);
        if ops[0].reports_new(m, package) {
            assert(m.apply(ops[0]).seen().contains(package));
            lemma_seen_never_new(m.apply(ops[0]), ops.drop_first(), package);
        } else {
            law_package_new_once(m.apply(ops[0]), ops.drop_first(), package);
        }
    }
}

/// An insertion never takes a satisfied version away, of any package.
pub proof fn lemma_insert_keeps(
    m: CacheModel,
    package: Seq<char>,
    range: Seq<char>,
    other: Seq<char>,
    version: Seq<char>,
)
    requires
        m.satisfies(other, version),
    ensures
        m.insert(package, range).satisfies(other, version),
{
    let after = m.insert(package, range);
    if other == package && m.insert_result(package, range).range_is_new {
        let i = choose|i: int|
            0 <= i < m.ranges[other].len() && range_satisfies(#[trigger] m.ranges[other][i], version)
                == Some(true);
        assert(after.ranges[other][i] == m.ranges[other][i]);
    }
}

/// Range cache monotonicity: a range that an insertion recorded stays
/// covered. Every version that it admits is satisfied after any further
/// calls, as long as none of them removes the package.
pub proof fn law_recorded_range_stays_covered(
    m: CacheModel,
    package: Seq<char>,
    range: Seq<char>,
    later: Seq<CacheOp>,
    version: Seq<char>,
)
    requires
        m.insert_result(package, range).range_is_new,
        forall|i: int| 0 <= i < later.len() ==> !(#[trigger] later[i]).removes(package),
        range_satisfies(range, version) == Some(true),
    ensures
        m.insert(package, range).run(later).satisfies(package, version),
{
    let after = m.insert(package, range);
    let last = after.ranges[package].len() - 1;
    assert(range_satisfies(after.ranges[package][last], version) == Some(true));
    lemma_satisfied_stays(after, later, package, version);
}

/// What is satisfied stays satisfied while the package is not removed.
pub proof fn lemma_satisfied_stays(
    m: CacheModel,
    later: Seq<CacheOp>,
    package: Seq<char>,
    version: Seq<char>,
)
    requires
        m.satisfies(package, version),
        forall|i: int| 0 <= i < later.len() ==> !(#[trigger] later[i]).removes(package),
    ensures
        m.run(later).satisfies(package, version),
    decreases later.len(),
{
    if later.len() > 0 {
        let op = later[0];
        assert(!op.removes(package));
        match op {
            CacheOp::Insert { package: p, range } => {
                lemma_insert_keeps(m, p, range, package, version);
            },
            CacheOp::Remove { package: p } => {
                assert(p != package);
            },
        }
        assert forall|i: int| 0 <= i < later.drop_first().len() implies !(#[trigger] later.drop_first()[i]).removes(
            package,
        ) by {
            assert(later.drop_first()[i] == later[i + 1]);
        }
        lemma_satisfied_stays(m.apply(op), later.drop_first(), package, version);
    }
}

/// An insertion that records nothing for a live package found a recorded
/// range that the new one covers: what is tracked stays as it was.
pub proof fn law_rejected_range_is_dominating(m: CacheModel, package: Seq<char>, range: Seq<char>)
    requires
        !m.removed.contains(package),
        !m.insert_result(package, range).range_is_new,
    ensures
        m.ranges.dom().contains(package),
        covers_one(m.ranges[package], range),
        m.insert(package, range) == m,
{
}

/// Whether entry `i` of the list is the one of `package`.
pub open spec fn entry_of(names: Seq<String>, package: Seq<char>, i: int) -> bool {
    0 <= i < names.len() && names[i]@ == package
}

/// Whether the list names `package`.
pub open spec fn names_contain(names: Seq<String>, package: Seq<char>) -> bool {
    exists|i: int| entry_of(names, package, i)
}

/// No name stands twice in the list.
pub open spec fn names_distinct(names: Seq<String>) -> bool {
    forall|i: int, j: int|
        0 <= i < names.len() && 0 <= j < names.len() && #[trigger] names[i]@ == #[trigger] names[j]@
            ==> i == j
}

/// The position of `package` in a list of names, if it is there.
pub fn position_of(names: &Vec<String>, package: &str) -> (r: Option<usize>)
    ensures
        r matches Some(i) ==> entry_of(names@, package@, i as int),
        r is None ==> !names_contain(names@, package@),
{
    let key = String::from_str(package);
    let n = names.len();
    let mut i: usize = 0;
    while i < n
        invariant
            n == names@.len(),
            i <= n,
            key@ == package@,
            forall|j: int| 0 <= j < i ==> !entry_of(names@, package@, j),
        decreases n - i,
    {
        if names[i] == key {
            return Some(i);
        }
        i += 1;
    }
    None
}

/// The position of `package` in a list of names, if it is there.
spec fn position_hint(names: Seq<String>, package: Seq<char>) -> Option<int> {
    if names_contain(names, package) {
        Some(choose|i: int| entry_of(names, package, i))
    } else {
        None
    }
}

proof fn lemma_position_hint(names: Seq<String>, package: Seq<char>)
    ensures
        position_hint(names, package) matches Some(i) ==> entry_of(names, package, i),
        position_hint(names, package) is None ==> !names_contain(names, package),
{
}

/// Per package the ranges accumulated so far, and the packages given up.
pub struct PackageRangeCache {
    names: Vec<String>,
    ranges: Vec<Ranges>,
    removed: Vec<String>,
}

impl View for PackageRangeCache {
    type V = CacheModel;

    closed spec fn view(&self) -> CacheModel {
        CacheModel {
            ranges: Map::new(
                |p: Seq<char>| names_contain(self.names@, p),
                |p: Seq<char>| self.ranges@[choose|i: int| entry_of(self.names@, p, i)]@,
            ),
            removed: Set::new(|p: Seq<char>| names_contain(self.removed@, p)),
        }
    }
}

impl PackageRangeCache {
    /// Each live package stands once, with its ranges beside it, and none
    /// of them is given up.
    pub closed spec fn wf(&self) -> bool {
        &&& self.names@.len() == self.ranges@.len()
        &&& names_distinct(self.names@)
        &&& forall|i: int|
            0 <= i < self.names@.len() ==> !names_contain(self.removed@, #[trigger] self.names@[i]@)
    }

    /// The live packages, in the order in which they came.
    pub closed spec fn spec_packages(&self) -> Seq<Seq<char>> {
        self.names@.map_values(|s: String| s@)
    }

    proof fn lemma_lookup(&self, package: Seq<char>, i: int)
        requires
            self.wf(),
            entry_of(self.names@, package, i),
        ensures
            self@.ranges.dom().contains(package),
            self@.ranges[package] == self.ranges@[i]@,
    {
        let c = choose|k: int| entry_of(self.names@, package, k);
        assert(c == i);
    }

    /// A well-formed cache is a well-formed model, and its live packages
    /// are the model's.
    pub proof fn lemma_view_wf(&self)
        requires
            self.wf(),
        ensures
            self@.wf(),
            self.spec_packages().no_duplicates(),
            forall|p: Seq<char>| self.spec_packages().contains(p) <==> self@.ranges.dom().contains(p),
    {
        assert forall|p: Seq<char>| self@.removed.contains(p) implies !self@.ranges.dom().contains(
            p,
        ) by {
            if self@.ranges.dom().contains(p) {
                let i = choose|i: int| entry_of(self.names@, p, i);
                assert(!names_contain(self.removed@, self.names@[i]@));
            }
        }
        assert forall|p: Seq<char>| self.spec_packages().contains(p) <==> self@.ranges.dom().contains(
            p,
        ) by {
            if self.spec_packages().contains(p) {
                let i = choose|i: int| 0 <= i < self.spec_packages().len() && self.spec_packages()[i] == p;
                assert(entry_of(self.names@, p, i));
            }
            if self@.ranges.dom().contains(p) {
                let i = choose|i: int| entry_of(self.names@, p, i);
                assert(self.spec_packages()[i] == p);
            }
        }
    }

    /// The empty cache.
    pub fn new() -> (r: PackageRangeCache)
        ensures
            r.wf(),
            r@ == CacheModel::empty(),
            r@.wf(),
    {
        let r = PackageRangeCache { names: Vec::new(), ranges: Vec::new(), removed: Vec::new() };
        assert(r@.ranges =~= Map::empty());
        assert(r@.removed =~= Set::empty());
        r
    }

    /// The live packages, in the order in which they came.
    pub fn packages(&self) -> (r: Vec<String>)
        requires
            self.wf(),
        ensures
            r@.map_values(|s: String| s@) == self.spec_packages(),
            self.spec_packages().no_duplicates(),
            forall|p: Seq<char>| self.spec_packages().contains(p) <==> self@.ranges.dom().contains(p),
    {
        proof {
            self.lemma_view_wf();
        }
        let n = self.names.len();
        let mut out: Vec<String> = Vec::new();
        let mut i: usize = 0;
        while i < n
            invariant
                n == self.names@.len(),
                i <= n,
                out@.len() == i,
                forall|j: int| 0 <= j < i ==> (#[trigger] out@[j])@ == self.names@[j]@,
            decreases n - i,
        {
            out.push(self.names[i].clone());
            i += 1;
        }
        assert(out@.map_values(|s: String| s@) =~= self.spec_packages());
        out
    }

    /// The ranges accumulated for a live package.
    pub fn ranges_of(&self, package: &str) -> (r: Option<&Ranges>)
        requires
            self.wf(),
        ensures
            r is Some <==> self@.ranges.dom().contains(package@),
            r matches Some(ranges) ==> ranges@ == self@.ranges[package@],
    {
        match position_of(&self.names, package) {
            Some(i) => {
                proof {
                    self.lemma_lookup(package@, i as int);
                }
                Some(&self.ranges[i])
            },
            None => None,
        }
    }

    /// Whether the package was given up.
    pub fn is_removed(&self, package: &str) -> (r: bool)
        ensures
            r == self@.removed.contains(package@),
    {
        position_of(&self.removed, package).is_some()
    }

    /// The picks of the package's ranges among `versions`; nothing for a
    /// package that is unknown or given up. Each pick renders the highest
    /// version of the list that one of the package's ranges admits.
    pub fn max_satisfying(&self, package: &str, versions: &Vec<Version>) -> (r: Vec<Version>)
        requires
            self.wf(),
        ensures
            version_texts(r@) == self@.max_satisfying(package@, version_texts(versions@)),
            all_picks(self@.live_ranges(package@), version_texts(versions@), version_texts(r@)),
    {
        if self.is_removed(package) {
            let r: Vec<Version> = Vec::new();
            assert(version_texts(r@) =~= Seq::<Seq<char>>::empty());
            return r;
        }
        match position_of(&self.names, package) {
            Some(i) => {
                proof {
                    self.lemma_lookup(package@, i as int);
                }
                self.ranges[i].max_satisfying(versions)
            },
            None => {
                let r: Vec<Version> = Vec::new();
                assert(version_texts(r@) =~= Seq::<Seq<char>>::empty());
                r
            },
        }
    }

    /// Whether `range` covers one of the ranges of the list.
    fn covers_one_of(ranges: &Ranges, range: &VersionRange) -> (r: bool)
        ensures
            r == covers_one(ranges@, range@),
    {
        let n = ranges.inner.len();
        let mut i: usize = 0;
        while i < n
            invariant
                n == ranges.inner@.len(),
                i <= n,
                forall|j: int| 0 <= j < i ==> range_allows_all(range@, #[trigger] ranges@[j]) != Some(true),
            decreases n - i,
        {
            if range.allows_all(&ranges.inner[i]) {
                assert(range_allows_all(range@, ranges@[i as int]) == Some(true));
                return true;
            }
            i += 1;
        }
        false
    }

    /// Records a range for a package and says what was new. Nothing is
    /// recorded for a package that was given up, nor a range that covers
    /// one already there.
    pub fn insert(&mut self, package: &str, new_range: &VersionRange) -> (res: RangeCacheResult)
        requires
            old(self).wf(),
        ensures
            final(self).wf(),
            res == old(self)@.insert_result(package@, new_range@),
            final(self)@ == old(self)@.insert(package@, new_range@),
            final(self)@.wf(),
            res.package_is_new ==> res.range_is_new,
    {
        proof {
            self.lemma_view_wf();
            lemma_apply_grows(self@, CacheOp::Insert { package: package@, range: new_range@ });
        }
        if self.is_removed(package) {
            return RangeCacheResult { package_is_new: false, range_is_new: false };
        }
        match position_of(&self.names, package) {
            Some(i) => {
                proof {
                    self.lemma_lookup(package@, i as int);
                }
                if Self::covers_one_of(&self.ranges[i], new_range) {
                    return RangeCacheResult { package_is_new: false, range_is_new: false };
                }
                let ghost before = *self;
                let mut list: Vec<VersionRange> = Vec::new();
                std::mem::swap(&mut list, &mut self.ranges[i].inner);
                list.push(new_range.clone());
                self.ranges.set(i, Ranges { inner: list });
                proof {
                    assert(self.ranges@[i as int]@ =~= before.ranges@[i as int]@.push(new_range@));
                    assert(self.wf());
                    let target = before@.insert(package@, new_range@);
                    assert forall|p: Seq<char>| self@.ranges.dom().contains(p) implies #[trigger] self@.ranges[p]
                        == target.ranges[p] by {
                        let k = choose|k: int| entry_of(self.names@, p, k);
                        self.lemma_lookup(p, k);
                        before.lemma_lookup(p, k);
                    }
                    assert(self@.ranges =~= target.ranges);
                    assert(self@.removed =~= target.removed);
                }
                RangeCacheResult { package_is_new: false, range_is_new: true }
            },
            None => {
                let ghost before = *self;
                let mut list: Vec<VersionRange> = Vec::new();
                list.push(new_range.clone());
                self.names.push(String::from_str(package));
                self.ranges.push(Ranges { inner: list });
                proof {
                    let n = before.names@.len() as int;
                    assert(self.ranges@[n]@ =~= seq![new_range@]);
                    assert forall|i: int, j: int|
                        0 <= i < self.names@.len() && 0 <= j < self.names@.len()
                            && #[trigger] self.names@[i]@ == #[trigger] self.names@[j]@ implies i == j by {
                        if i == n && j < n {
                            assert(entry_of(before.names@, package@, j));
                        }
                        if j == n && i < n {
                            assert(entry_of(before.names@, package@, i));
                        }
                    }
                    assert(self.wf());
                    let target = before@.insert(package@, new_range@);
                    assert(entry_of(self.names@, package@, n));
                    assert forall|p: Seq<char>| self@.ranges.dom().contains(p) <==> target.ranges.dom().contains(
                        p,
                    ) by {
                        if self@.ranges.dom().contains(p) {
                            let k = choose|k: int| entry_of(self.names@, p, k);
                            if k < n {
                                assert(entry_of(before.names@, p, k));
                            }
                        }
                        if before@.ranges.dom().contains(p) {
                            let k = choose|k: int| entry_of(before.names@, p, k);
                            assert(entry_of(self.names@, p, k));
                        }
                    }
                    assert forall|p: Seq<char>| self@.ranges.dom().contains(p) implies #[trigger] self@.ranges[p]
                        == target.ranges[p] by {
                        let k = choose|k: int| entry_of(self.names@, p, k);
                        self.lemma_lookup(p, k);
                        if k < n {
                            assert(entry_of(before.names@, p, k));
                            before.lemma_lookup(p, k);
                        }
                    }
                    assert(self@.ranges =~= target.ranges);
                    assert(self@.removed =~= target.removed);
                }
                RangeCacheResult { package_is_new: true, range_is_new: true }
            },
        }
    }

    /// Gives a package up: its ranges are dropped, and from now on nothing
    /// is recorded for it.
    pub fn remove(&mut self, package: &str)
        requires
            old(self).wf(),
        ensures
            final(self).wf(),
            final(self)@ == old(self)@.remove(package@),
            final(self)@.wf(),
    {
        proof {
            self.lemma_view_wf();
            lemma_apply_grows(self@, CacheOp::Remove { package: package@ });
        }
        let ghost before = *self;
        match position_of(&self.names, package) {
            Some(i) => {
                self.names.remove(i);
                self.ranges.remove(i);
                proof {
                    assert forall|a: int| 0 <= a < self.names@.len() implies #[trigger] self.names@[a]
                        == before.names@[if a < i { a } else { a + 1 }] by {}
                    assert forall|a: int| 0 <= a < self.ranges@.len() implies #[trigger] self.ranges@[a]
                        == before.ranges@[if a < i { a } else { a + 1 }] by {}
                }
            },
            None => {},
        }
        if !self.is_removed(package) {
            self.removed.push(String::from_str(package));
        }
        proof {
            let n = before.removed@.len() as int;
            assert forall|p: Seq<char>| names_contain(self.removed@, p) <==> (p == package@
                || names_contain(before.removed@, p)) by {
                if names_contain(self.removed@, p) {
                    let k = choose|k: int| entry_of(self.removed@, p, k);
                    if k < n {
                        assert(entry_of(before.removed@, p, k));
                    }
                }
                if names_contain(before.removed@, p) {
                    let k = choose|k: int| entry_of(before.removed@, p, k);
                    assert(entry_of(self.removed@, p, k));
                }
                if p == package@ {
                    if names_contain(before.removed@, p) {
                    } else {
                        assert(entry_of(self.removed@, p, n));
                    }
                }
            }
            // positions in the new list, as positions in the old one
            let back = |a: int|
                match position_hint(before.names@, package@) {
                    Some(i) => if a < i { a } else { a + 1 },
                    None => a,
                };
            assert forall|a: int| 0 <= a < self.names@.len() implies 0 <= back(a) < before.names@.len()
                && #[trigger] self.names@[a] == before.names@[back(a)] && self.ranges@[a]
                == before.ranges@[back(a)] && self.names@[a]@ != package@ by {
                lemma_position_hint(before.names@, package@);
                if self.names@[a]@ == package@ {
                    assert(entry_of(before.names@, package@, back(a)));
                }
            }
            assert forall|a: int, b: int|
                0 <= a < self.names@.len() && 0 <= b < self.names@.len()
                    && #[trigger] self.names@[a]@ == #[trigger] self.names@[b]@ implies a == b by {
                assert(back(a) == back(b));
            }
            assert forall|a: int| 0 <= a < self.names@.len() implies !names_contain(
                self.removed@,
                #[trigger] self.names@[a]@,
            ) by {
                assert(self.names@[a] == before.names@[back(a)]);
                assert(!names_contain(before.removed@, before.names@[back(a)]@));
            }
            assert(self.wf());
            let target = before@.remove(package@);
            assert forall|p: Seq<char>| self@.ranges.dom().contains(p) <==> target.ranges.dom().contains(
                p,
            ) by {
                lemma_position_hint(before.names@, package@);
                if self@.ranges.dom().contains(p) {
                    let k = choose|k: int| entry_of(self.names@, p, k);
                    assert(entry_of(before.names@, p, back(k)));
                }
                if target.ranges.dom().contains(p) {
                    let k = choose|k: int| entry_of(before.names@, p, k);
                    match position_hint(before.names@, package@) {
                        Some(i) => {
                            assert(k != i);
                            let a = if k < i { k } else { k - 1 };
                            assert(back(a) == k);
                            assert(entry_of(self.names@, p, a));
                        },
                        None => {
                            assert(entry_of(self.names@, p, k));
                        },
                    }
                }
            }
            assert forall|p: Seq<char>| self@.ranges.dom().contains(p) implies #[trigger] self@.ranges[p]
                == target.ranges[p] by {
                let k = choose|k: int| entry_of(self.names@, p, k);
                self.lemma_lookup(p, k);
                assert(entry_of(before.names@, p, back(k)));
                before.lemma_lookup(p, back(k));
            }
            assert(self@.ranges =~= target.ranges);
            assert(self@.removed =~= target.removed);
        }
    }

    /// Whether some accumulated range of the package admits the version;
    /// never for a package that is unknown or given up.
    pub fn satisifies(&self, package: &str, version: &Version) -> (r: bool)
        requires
            self.wf(),
        ensures
            r == self@.satisfies(package@, version@),
    {
        if self.is_removed(package) {
            return false;
        }
        match position_of(&self.names, package) {
            Some(i) => {
                proof {
                    self.lemma_lookup(package@, i as int);
                }
                self.ranges[i].satisfies(version)
            },
            None => false,
        }
    }
}

} // verus!
