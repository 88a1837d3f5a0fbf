//! The traversal: from the manifests' dependencies to the metadata of
//! every package that they reach, and then to the tarballs.

use crate::downloader::{spec_metadata_download, spec_tarball_download, Download, DownloadSpec, Downloader};
use crate::downloader::QueueSpec;
use crate::error::{ErrorKind, ErrorSpec, NpmError, Phase};
use crate::metadata::manifest::Manifest;
use crate::metadata::package_index::{deps_view, IdxDep, IdxDepVersion, IndexSpec, PackageIndex};
use crate::metadata::sparse_metadata::DepSpec;
use crate::options::CliOpts;
use crate::progress::Progress;
use crate::range_cache::{entry_of, position_of, CacheModel, PackageRangeCache, Ranges};
use crate::range_cache::{all_picks, ranges_max_satisfying, ranges_satisfy};
use crate::semver::{range_parses, version_same, version_texts, Version, VersionRange};
use vstd::prelude::*;

verus! {

/// What a mirror run brought.
#[derive(Debug, Clone, Copy, PartialEq, Eq, Structural)]
pub struct MirrorResult {
    pub new_packages: u64,
    pub new_packages_bytes: u64,
}

impl MirrorResult {
    /// The result of a run whose last phase ended with this progress: the
    /// files and the bytes that were received in it.
    pub fn of(progress: &Progress) -> (r: MirrorResult)
        ensures
            r.new_packages == progress.files.spec_success(),
            r.new_packages_bytes == progress.bytes.spec_success(),
    {
        MirrorResult {
            new_packages: progress.files.success(),
            new_packages_bytes: progress.bytes.success(),
        }
    }
}

/// What the traversal has built up: the range cache, the download queue,
/// and the packages to expand in the next round.
pub struct Traversal {
    pub cache: CacheModel,
    pub queue: QueueSpec,
    pub frontier: Seq<Seq<char>>,
}

/// The texts of a list of names.
pub open spec fn name_texts(names: Seq<String>) -> Seq<Seq<char>> {
    names.map_values(|s: String| s@)
}

/// What the traversal has built up, as a value.
pub open spec fn traversal_of(cache: &PackageRangeCache, downloader: &Downloader, packages: Seq<String>) -> Traversal {
    Traversal { cache: cache@, queue: downloader.model(), frontier: name_texts(packages) }
}

/// Taking note of one dependency: its range is recorded; a package that
/// is new has its metadata queued; a package for which anything is new
/// joins the next round, once. Where the queue refuses the download, the
/// range stays recorded and the step fails.
pub open spec fn spec_process(opts: &CliOpts, t: Traversal, dep: Seq<char>, range: Seq<char>) -> (
    Traversal,
    Option<ErrorSpec>,
) {
    let res = t.cache.insert_result(dep, range);
    let cache = t.cache.insert(dep, range);
    let queue = if res.package_is_new {
        t.queue.enqueue(spec_metadata_download(opts, dep))
    } else {
        t.queue
    };
    if res.package_is_new && t.queue.closed {
        (Traversal { cache, queue, frontier: t.frontier }, Some(ErrorSpec::AsyncChannelSend))
    } else {
        (
            Traversal {
                cache,
                queue,
                frontier: if (res.package_is_new || res.range_is_new) && !t.frontier.contains(dep) {
                    t.frontier.push(dep)
                } else {
                    t.frontier
                },
            },
            None,
        )
    }
}

/// Metadata is queued once: taking note of a dependency leaves the
/// package named from then on; for a package that was named before,
/// live or given up, nothing is queued; for any other, its metadata
/// download is queued, the queue being open.
pub proof fn law_metadata_queued_once(opts: &CliOpts, t: Traversal, dep: Seq<char>, range: Seq<char>)
    requires
        t.cache.wf(),
    ensures
        ({
            let after = spec_process(opts, t, dep, range).0;
            &&& after.cache.wf()
            &&& after.cache.seen().contains(dep)
            &&& t.cache.seen().subset_of(after.cache.seen())
            &&& t.cache.seen().contains(dep) ==> after.queue == t.queue
            &&& !t.cache.seen().contains(dep) && !t.queue.closed ==> after.queue.pending
                == t.queue.pending.push(spec_metadata_download(opts, dep))
        }),
{
}

/// Taking note of a first dependency on a package: where the package was
/// never named, the queue is open and the package is not in the next
/// round, the range is recorded as its only one, its metadata download is
/// queued as the last one, the package joins the next round as the last
/// one, and the step succeeds.
pub proof fn law_first_dependency(opts: &CliOpts, t: Traversal, dep: Seq<char>, range: Seq<char>)
    requires
        !t.cache.seen().contains(dep),
        !t.queue.closed,
        !t.frontier.contains(dep),
    ensures
        ({
            let (after, failure) = spec_process(opts, t, dep, range);
            &&& failure is None
            &&& after.cache.ranges.dom().contains(dep)
            &&& after.cache.ranges[dep] == seq![range]
            &&& after.queue.pending == t.queue.pending.push(spec_metadata_download(opts, dep))
            &&& after.queue.expected == crate::progress::wrapped(t.queue.expected, 1)
            &&& after.frontier == t.frontier.push(dep)
        }),
{
}

/// Taking note of the dependency that one entry of an index names: a
/// range as it is; an alias by its package and range; a tag by the
/// version that it stands for in the index, as the range of that version
/// alone, where the index knows the tag. Anything else is passed over. A
/// tag whose version is no range fails the step.
pub open spec fn spec_follow(opts: &CliOpts, t: Traversal, idx: IndexSpec, dep: (Seq<char>, DepSpec)) -> (
    Traversal,
    Option<ErrorSpec>,
) {
    match dep.1 {
        DepSpec::Tag(tag) => match idx.version_by_tag(tag) {
            Some(version) => if range_parses(version) {
                spec_process(opts, t, dep.0, version)
            } else {
                (t, Some(ErrorSpec::SemVer))
            },
            None => (t, None),
        },
        DepSpec::Range(range) => spec_process(opts, t, dep.0, range),
        DepSpec::SubDep { package, range } => spec_process(opts, t, package, range),
        DepSpec::Other(_) => (t, None),
    }
}

/// Taking note of a list of dependencies, in order, up to the first that
/// fails.
pub open spec fn spec_populate(opts: &CliOpts, t: Traversal, idx: IndexSpec, deps: Seq<(Seq<char>, DepSpec)>) -> (
    Traversal,
    Option<ErrorSpec>,
)
    decreases deps.len(),
{
    if deps.len() == 0 {
        (t, None)
    } else {
        let (next, failure) = spec_follow(opts, t, idx, deps[0]);
        if failure is Some {
            (next, failure)
        } else {
            spec_populate(opts, next, idx, deps.drop_first())
        }
    }
}

/// A tag is followed through the index at hand: where the index knows
/// the tag and the text of its version is a range, a dependency on a
/// package by that tag is taken note of as a dependency on that version
/// alone; where the index does not know the tag, nothing happens.
pub proof fn law_tag_is_followed(opts: &CliOpts, t: Traversal, idx: IndexSpec, package: Seq<char>, tag: Seq<char>)
    ensures
        ({
            let outcome = spec_populate(opts, t, idx, seq![(package, DepSpec::Tag(tag))]);
            match idx.version_by_tag(tag) {
                Some(version) => range_parses(version) ==> outcome == spec_process(opts, t, package, version),
                None => outcome == (t, None::<ErrorSpec>),
            }
        }),
{
    let deps = seq![(package, DepSpec::Tag(tag))];
    assert(deps.drop_first() =~= Seq::empty());
    reveal_with_fuel(spec_populate, 2);
}

/// Takes note of one dependency.
pub fn process_version(
    opts: &CliOpts,
    downloader: &mut Downloader,
    range_cache: &mut PackageRangeCache,
    dep: &str,
    version_range: &VersionRange,
    packages: &mut Vec<String>,
) -> (r: Result<(), ErrorKind>)
    requires
        old(range_cache).wf(),
    ensures
        final(range_cache).wf(),
        final(downloader).same_besides_queue(old(downloader)),
        traversal_of(final(range_cache), final(downloader), final(packages)@) == spec_process(
            opts,
            traversal_of(old(range_cache), old(downloader), old(packages)@),
            dep@,
            version_range@,
        ).0,
        r is Ok <==> spec_process(
            opts,
            traversal_of(old(range_cache), old(downloader), old(packages)@),
            dep@,
            version_range@,
        ).1 is None,
        r matches Err(e) ==> Some(e@) == spec_process(
            opts,
            traversal_of(old(range_cache), old(downloader), old(packages)@),
            dep@,
            version_range@,
        ).1,
{
    let res = range_cache.insert(dep, version_range);
    if res.package_is_new {
        match downloader.queue(Download::metadata(opts, dep)) {
            Ok(()) => {},
            Err(e) => {
                return Err(e);
            },
        }
    }
    if res.package_is_new || res.range_is_new {
        let found = position_of(packages, dep);
        proof {
            let names = name_texts(packages@);
            if found is Some {
                assert(names[found.unwrap() as int] == dep@);
            } else {
                if names.contains(dep@) {
                    let i = choose|i: int| 0 <= i < names.len() && names[i] == dep@;
                    assert(entry_of(packages@, dep@, i));
                }
            }
        }
        if found.is_none() {
            let ghost before = packages@;
            packages.push(String::from_str(dep));
            assert(name_texts(packages@) =~= name_texts(before).push(dep@));
        }
    }
    Ok(())
}

/// Takes note of the dependencies of one version, in order, up to the
/// first that fails.
pub fn populate_child_deps(
    idx: &PackageIndex,
    opts: &CliOpts,
    deps: &Vec<IdxDep>,
    downloader: &mut Downloader,
    range_cache: &mut PackageRangeCache,
    packages: &mut Vec<String>,
) -> (r: Result<(), ErrorKind>)
    requires
        old(range_cache).wf(),
    ensures
        final(range_cache).wf(),
        final(downloader).same_besides_queue(old(downloader)),
        traversal_of(final(range_cache), final(downloader), final(packages)@) == spec_populate(
            opts,
            traversal_of(old(range_cache), old(downloader), old(packages)@),
            idx@,
            deps_view(deps@),
        ).0,
        r is Ok <==> spec_populate(
            opts,
            traversal_of(old(range_cache), old(downloader), old(packages)@),
            idx@,
            deps_view(deps@),
        ).1 is None,
        r matches Err(e) ==> Some(e@) == spec_populate(
            opts,
            traversal_of(old(range_cache), old(downloader), old(packages)@),
            idx@,
            deps_view(deps@),
        ).1,
{
    let ghost start = traversal_of(range_cache, downloader, packages@);
    let ghost all = deps_view(deps@);
    let n = deps.len();
    let mut i: usize = 0;
    assert(all.skip(0) =~= all);
    while i < n
        invariant
            n == deps@.len(),
            i <= n,
            all == deps_view(deps@),
            start == traversal_of(old(range_cache), old(downloader), old(packages)@),
            range_cache.wf(),
            downloader.same_besides_queue(old(downloader)),
            spec_populate(opts, start, idx@, all) == spec_populate(
                opts,
                traversal_of(range_cache, downloader, packages@),
                idx@,
                all.skip(i as int),
            ),
        decreases n - i,
    {
        let dep = &deps[i];
        let ghost here = traversal_of(range_cache, downloader, packages@);
        assert(all.skip(i as int)[0] == dep@);
        assert(all.skip(i as int).drop_first() =~= all.skip(i + 1));
        let step: Result<(), ErrorKind> = match &dep.range {
            IdxDepVersion::Tag(tag) => {
                match idx.version_by_tag(tag.as_str()) {
                    Some(version) => {
                        match VersionRange::exactly(version) {
                            Some(range) => process_version(
                                opts,
                                downloader,
                                range_cache,
                                dep.package.as_str(),
                                &range,
                                packages,
                            ),
                            None => Err(ErrorKind::SemVer),
                        }
                    },
                    None => Ok(()),
                }
            },
            IdxDepVersion::Range(range) => process_version(
                opts,
                downloader,
                range_cache,
                dep.package.as_str(),
                range,
                packages,
            ),
            IdxDepVersion::SubDep(sub_dep) => process_version(
                opts,
                downloader,
                range_cache,
                sub_dep.package.as_str(),
                &sub_dep.range,
                packages,
            ),
            IdxDepVersion::Other(_) => Ok(()),
        };
        assert(traversal_of(range_cache, downloader, packages@) == spec_follow(opts, here, idx@, dep@).0);
        assert(step is Ok <==> spec_follow(opts, here, idx@, dep@).1 is None);
        assert(step matches Err(e) ==> Some(e@) == spec_follow(opts, here, idx@, dep@).1);
        match step {
            Ok(()) => {},
            Err(e) => {
                return Err(e);
            },
        }
        i += 1;
    }
    Ok(())
}

/// Taking note of a manifest's dependency: its range is recorded, and a
/// package that is new has its metadata queued. Where the queue refuses
/// the download, the range stays recorded and the step fails.
pub open spec fn spec_seed_one(opts: &CliOpts, cache: CacheModel, queue: QueueSpec, dep: (Seq<char>, Seq<char>)) -> (
    CacheModel,
    QueueSpec,
    Option<ErrorSpec>,
) {
    let res = cache.insert_result(dep.0, dep.1);
    (
        cache.insert(dep.0, dep.1),
        if res.package_is_new {
            queue.enqueue(spec_metadata_download(opts, dep.0))
        } else {
            queue
        },
        if res.package_is_new && queue.closed {
            Some(ErrorSpec::AsyncChannelSend)
        } else {
            None
        },
    )
}

/// Taking note of a manifest's dependencies, in order, up to the first
/// that fails.
pub open spec fn spec_seed(opts: &CliOpts, cache: CacheModel, queue: QueueSpec, deps: Seq<(Seq<char>, Seq<char>)>) -> (
    CacheModel,
    QueueSpec,
    Option<ErrorSpec>,
)
    decreases deps.len(),
{
    if deps.len() == 0 {
        (cache, queue, None)
    } else {
        let next = spec_seed_one(opts, cache, queue, deps[0]);
        if next.2 is Some {
            next
        } else {
            spec_seed(opts, next.0, next.1, deps.drop_first())
        }
    }
}

/// The dependencies of a manifest as values.
pub open spec fn manifest_view(manifest: &Manifest) -> Seq<(Seq<char>, Seq<char>)> {
    manifest.dependencies@.map_values(|d: crate::metadata::manifest::ManifestDep| (d.package@, d.range@))
}

/// The first phase, for one manifest: each of its dependencies is
/// recorded, and the metadata of each package that is new is queued.
pub fn download_metadata(
    opts: &CliOpts,
    downloader: &mut Downloader,
    range_cache: &mut PackageRangeCache,
    manifest: &Manifest,
) -> (r: Result<(), ErrorKind>)
    requires
        old(range_cache).wf(),
    ensures
        final(range_cache).wf(),
        final(downloader).same_besides_queue(old(downloader)),
        final(range_cache)@ == spec_seed(opts, old(range_cache)@, old(downloader).model(), manifest_view(manifest)).0,
        final(downloader).model() == spec_seed(
            opts,
            old(range_cache)@,
            old(downloader).model(),
            manifest_view(manifest),
        ).1,
        r is Ok <==> spec_seed(opts, old(range_cache)@, old(downloader).model(), manifest_view(manifest)).2
            is None,
        r matches Err(e) ==> Some(e@) == spec_seed(
            opts,
            old(range_cache)@,
            old(downloader).model(),
            manifest_view(manifest),
        ).2,
{
    let ghost all = manifest_view(manifest);
    let ghost cache0 = range_cache@;
    let ghost queue0 = downloader.model();
    let n = manifest.dependencies.len();
    let mut i: usize = 0;
    assert(all.skip(0) =~= all);
    while i < n
        invariant
            n == manifest.dependencies@.len(),
            i <= n,
            all == manifest_view(manifest),
            cache0 == old(range_cache)@,
            queue0 == old(downloader).model(),
            range_cache.wf(),
            downloader.same_besides_queue(old(downloader)),
            spec_seed(opts, cache0, queue0, all) == spec_seed(
                opts,
                range_cache@,
                downloader.model(),
                all.skip(i as int),
            ),
        decreases n - i,
    {
        let dep = &manifest.dependencies[i];
        assert(all.skip(i as int)[0] == (dep.package@, dep.range@));
        assert(all.skip(i as int).drop_first() =~= all.skip(i + 1));
        let res = range_cache.insert(dep.package.as_str(), &dep.range);
        if res.package_is_new {
            match downloader.queue(Download::metadata(opts, dep.package.as_str())) {
                Ok(()) => {},
                Err(e) => {
                    return Err(e);
                },
            }
        }
        i += 1;
    }
    Ok(())
}

/// Whether a version of a package was expanded before.
pub open spec fn seen_before(visited: Seq<(Seq<char>, Seq<char>)>, package: Seq<char>, version: Seq<char>) -> bool {
    exists|i: int|
        0 <= i < visited.len() && (#[trigger] visited[i]).0 == package && version_same(visited[i].1, version)
            == Some(true)
}

/// The versions of a list that the cache finds satisfied for a package,
/// in the list's order.
pub open spec fn keep_satisfied(cache: CacheModel, package: Seq<char>, versions: Seq<Seq<char>>) -> Seq<
    Seq<char>,
>
    decreases versions.len(),
{
    if versions.len() == 0 {
        Seq::empty()
    } else {
        let rest = keep_satisfied(cache, package, versions.drop_last());
        if cache.satisfies(package, versions.last()) {
            rest.push(versions.last())
        } else {
            rest
        }
    }
}

/// The versions of an index to expand for a package: every version that
/// is satisfied where all are wanted, else the highest one of each
/// accumulated range.
pub open spec fn spec_select(greedy: bool, cache: CacheModel, package: Seq<char>, versions: Seq<Seq<char>>) -> Seq<
    Seq<char>,
> {
    if greedy {
        keep_satisfied(cache, package, versions)
    } else {
        cache.max_satisfying(package, versions)
    }
}

/// What the second phase has built up: the traversal, and the versions
/// that were expanded.
pub struct Resolution {
    pub traversal: Traversal,
    pub visited: Seq<(Seq<char>, Seq<char>)>,
}

/// Expanding one version of a package: nothing where it was expanded
/// before; else it counts as expanded, and its dependencies are taken
/// note of.
pub open spec fn spec_expand_one(
    opts: &CliOpts,
    r: Resolution,
    idx: IndexSpec,
    package: Seq<char>,
    version: Seq<char>,
) -> (Resolution, Option<ErrorSpec>) {
    if seen_before(r.visited, package, version) {
        (r, None)
    } else {
        let visited = r.visited.push((package, version));
        match idx.deps_by_version(version) {
            Some(deps) => {
                let (traversal, failure) = spec_populate(opts, r.traversal, idx, deps);
                (Resolution { traversal, visited }, failure)
            },
            None => (Resolution { traversal: r.traversal, visited }, None),
        }
    }
}

/// Expanding the selected versions of a package, in order, up to the
/// first that fails.
pub open spec fn spec_expand(
    opts: &CliOpts,
    r: Resolution,
    idx: IndexSpec,
    package: Seq<char>,
    selected: Seq<Seq<char>>,
) -> (Resolution, Option<ErrorSpec>)
    decreases selected.len(),
{
    if selected.len() == 0 {
        (r, None)
    } else {
        let (next, failure) = spec_expand_one(opts, r, idx, package, selected[0]);
        if failure is Some {
            (next, failure)
        } else {
            spec_expand(opts, next, idx, package, selected.drop_first())
        }
    }
}

/// The second phase, for one package: without an index the package is
/// given up; with one, the versions selected are expanded.
pub open spec fn spec_child(opts: &CliOpts, r: Resolution, package: Seq<char>, idx: Option<IndexSpec>) -> (
    Resolution,
    Option<ErrorSpec>,
) {
    match idx {
        None => (
            Resolution {
                traversal: Traversal {
                    cache: r.traversal.cache.remove(package),
                    queue: r.traversal.queue,
                    frontier: r.traversal.frontier,
                },
                visited: r.visited,
            },
            None,
        ),
        Some(index) => spec_expand(
            opts,
            r,
            index,
            package,
            spec_select(opts.greedy, r.traversal.cache, package, index.versions),
        ),
    }
}

/// The versions of a list that the cache finds satisfied for a package.
fn satisfied_versions(range_cache: &PackageRangeCache, package: &str, versions: &Vec<Version>) -> (r: Vec<
    Version,
>)
    requires
        range_cache.wf(),
    ensures
        version_texts(r@) == keep_satisfied(range_cache@, package@, version_texts(versions@)),
{
    let n = versions.len();
    let mut out: Vec<Version> = Vec::new();
    let mut i: usize = 0;
    let ghost texts = version_texts(versions@);
    assert(texts.take(0) =~= Seq::<Seq<char>>::empty());
    assert(version_texts(out@) =~= Seq::<Seq<char>>::empty());
    while i < n
        invariant
            n == versions@.len(),
            i <= n,
            range_cache.wf(),
            texts == version_texts(versions@),
            version_texts(out@) == keep_satisfied(range_cache@, package@, texts.take(i as int)),
        decreases n - i,
    {
        let ghost before = out@;
        assert(texts.take(i + 1).drop_last() =~= texts.take(i as int));
        assert(texts.take(i + 1).last() == versions@[i as int]@);
        if range_cache.satisifies(package, &versions[i]) {
            out.push(versions[i].clone());
            assert(version_texts(out@) =~= version_texts(before).push(versions@[i as int]@));
        }
        i += 1;
    }
    assert(texts.take(n as int) =~= texts);
    out
}

/// The versions of an index to expand for a package. Where only the
/// highest are wanted, each renders the highest version of the list that
/// one of the package's ranges admits.
pub fn select_versions(opts: &CliOpts, range_cache: &PackageRangeCache, package: &str, versions: &Vec<Version>) -> (r:
    Vec<Version>)
    requires
        range_cache.wf(),
    ensures
        version_texts(r@) == spec_select(opts.greedy, range_cache@, package@, version_texts(versions@)),
        !opts.greedy ==> all_picks(
            range_cache@.live_ranges(package@),
            version_texts(versions@),
            version_texts(r@),
        ),
{
    if opts.greedy {
        satisfied_versions(range_cache, package, versions)
    } else {
        range_cache.max_satisfying(package, versions)
    }
}

/// The versions that were expanded, as values.
pub open spec fn visited_view(visited: Seq<(String, Version)>) -> Seq<(Seq<char>, Seq<char>)> {
    visited.map_values(|e: (String, Version)| (e.0@, e.1@))
}

/// The state of the second phase: the packages still to expand in this
/// round, those of the next round, and the versions that were expanded.
pub struct ChildResolver {
    pub packages: Vec<String>,
    pub new_packages: Vec<String>,
    pub visited: Vec<(String, Version)>,
}

impl ChildResolver {
    /// What the second phase has built up, as a value.
    pub open spec fn resolution(&self, cache: &PackageRangeCache, downloader: &Downloader) -> Resolution {
        Resolution {
            traversal: traversal_of(cache, downloader, self.new_packages@),
            visited: visited_view(self.visited@),
        }
    }

    /// The second phase at its start: every live package of the cache is
    /// to be expanded, nothing was expanded yet.
    pub fn start(range_cache: &PackageRangeCache) -> (r: ChildResolver)
        requires
            range_cache.wf(),
        ensures
            name_texts(r.packages@) == range_cache.spec_packages(),
            r.new_packages@.len() == 0,
            r.visited@.len() == 0,
    {
        ChildResolver { packages: range_cache.packages(), new_packages: Vec::new(), visited: Vec::new() }
    }

    /// Takes the next package of this round: the last of the list.
    pub fn next_package(&mut self) -> (r: Option<String>)
        ensures
            final(self).new_packages == old(self).new_packages,
            final(self).visited == old(self).visited,
            old(self).packages@.len() == 0 ==> r is None && final(self).packages@ == old(self).packages@,
            old(self).packages@.len() > 0 ==> r == Some(old(self).packages@.last()) && final(self).packages@
                == old(self).packages@.drop_last(),
    {
        self.packages.pop()
    }

    /// Whether this round has no package left.
    pub fn round_is_over(&self) -> (r: bool)
        ensures
            r == (self.packages@.len() == 0),
    {
        self.packages.len() == 0
    }

    /// Begins the next round, once this one has no package left: the
    /// packages that came up in it are the ones to expand now. The result
    /// says whether there is any; if not, the phase is over.
    pub fn next_round(&mut self) -> (r: bool)
        requires
            old(self).packages@.len() == 0,
        ensures
            final(self).packages == old(self).new_packages,
            final(self).new_packages@.len() == 0,
            final(self).visited == old(self).visited,
            r == (old(self).new_packages@.len() > 0),
    {
        std::mem::swap(&mut self.packages, &mut self.new_packages);
        self.packages.len() > 0
    }

    /// Whether a version of a package was expanded before.
    fn was_visited(&self, package: &str, version: &Version) -> (r: bool)
        ensures
            r == seen_before(visited_view(self.visited@), package@, version@),
    {
        let key = String::from_str(package);
        let n = self.visited.len();
        let mut i: usize = 0;
        let ghost seen = visited_view(self.visited@);
        while i < n
            invariant
                n == self.visited@.len(),
                i <= n,
                key@ == package@,
                seen == visited_view(self.visited@),
                forall|j: int|
                    0 <= j < i ==> !((#[trigger] seen[j]).0 == package@ && version_same(seen[j].1, version@)
                        == Some(true)),
            decreases n - i,
        {
            if self.visited[i].0 == key && self.visited[i].1.same(version) {
                assert(seen[i as int].0 == package@);
                return true;
            }
            i += 1;
        }
        false
    }

    /// The second phase, for one package. Without an index the package
    /// is given up. With one, each selected version that was not expanded
    /// before is expanded: its dependencies are recorded, the metadata of
    /// each package that is new is queued, and each package for which
    /// anything is new joins the next round.
    pub fn download_child_metadata(
        &mut self,
        opts: &CliOpts,
        package: &str,
        idx: Option<&PackageIndex>,
        downloader: &mut Downloader,
        range_cache: &mut PackageRangeCache,
    ) -> (r: Result<(), ErrorKind>)
        requires
            old(range_cache).wf(),
        ensures
            final(range_cache).wf(),
            final(downloader).same_besides_queue(old(downloader)),
            final(self).packages == old(self).packages,
            final(self).resolution(final(range_cache), final(downloader)) == spec_child(
                opts,
                old(self).resolution(old(range_cache), old(downloader)),
                package@,
                match idx {
                    Some(i) => Some(i@),
                    None => None,
                },
            ).0,
            r is Ok <==> spec_child(
                opts,
                old(self).resolution(old(range_cache), old(downloader)),
                package@,
                match idx {
                    Some(i) => Some(i@),
                    None => None,
                },
            ).1 is None,
            r matches Err(e) ==> Some(e@) == spec_child(
                opts,
                old(self).resolution(old(range_cache), old(downloader)),
                package@,
                match idx {
                    Some(i) => Some(i@),
                    None => None,
                },
            ).1,
            idx matches Some(index) ==> (!opts.greedy ==> all_picks(
                old(range_cache)@.live_ranges(package@),
                index@.versions,
                spec_select(opts.greedy, old(range_cache)@, package@, index@.versions),
            )),
    {
        let index = match idx {
            Some(index) => index,
            None => {
                range_cache.remove(package);
                return Ok(());
            },
        };
        let selected = select_versions(opts, range_cache, package, &index.versions);
        let ghost start = self.resolution(range_cache, downloader);
        let ghost all = version_texts(selected@);
        let n = selected.len();
        let mut i: usize = 0;
        assert(all.skip(0) =~= all);
        while i < n
            invariant
                n == selected@.len(),
                i <= n,
                all == version_texts(selected@),
                idx == Some(index),
                all == spec_select(opts.greedy, old(range_cache)@, package@, index@.versions),
                !opts.greedy ==> all_picks(old(range_cache)@.live_ranges(package@), index@.versions, all),
                start == old(self).resolution(old(range_cache), old(downloader)),
                range_cache.wf(),
                downloader.same_besides_queue(old(downloader)),
                self.packages == old(self).packages,
                spec_expand(opts, start, index@, package@, all) == spec_expand(
                    opts,
                    self.resolution(range_cache, downloader),
                    index@,
                    package@,
                    all.skip(i as int),
                ),
            decreases n - i,
        {
            let version = &selected[i];
            let ghost here = self.resolution(range_cache, downloader);
            assert(all.skip(i as int)[0] == version@);
            assert(all.skip(i as int).drop_first() =~= all.skip(i + 1));
            if !self.was_visited(package, version) {
                let ghost before = self.visited@;
                self.visited.push((String::from_str(package), version.clone()));
                assert(visited_view(self.visited@) =~= visited_view(before).push((package@, version@)));
                match index.deps_by_version(version) {
                    Some(deps) => {
                        match populate_child_deps(
                            index,
                            opts,
                            deps,
                            downloader,
                            range_cache,
                            &mut self.new_packages,
                        ) {
                            Ok(()) => {},
                            Err(e) => {
                                assert(self.resolution(range_cache, downloader) == spec_expand_one(
                                    opts,
                                    here,
                                    index@,
                                    package@,
                                    version@,
                                ).0);
                                assert(Some(e@) == spec_expand_one(opts, here, index@, package@, version@).1);
                                return Err(e);
                            },
                        }
                    },
                    None => {},
                }
            }
            assert(self.resolution(range_cache, downloader) == spec_expand_one(
                opts,
                here,
                index@,
                package@,
                version@,
            ).0);
            assert(spec_expand_one(opts, here, index@, package@, version@).1 is None);
            i += 1;
        }
        Ok(())
    }
}

/// The versions of a list that some range of a list admits, in the
/// list's order.
pub open spec fn keep_admitted(ranges: Seq<Seq<char>>, versions: Seq<Seq<char>>) -> Seq<Seq<char>>
    decreases versions.len(),
{
    if versions.len() == 0 {
        Seq::empty()
    } else {
        let rest = keep_admitted(ranges, versions.drop_last());
        if ranges_satisfy(ranges, versions.last()) {
            rest.push(versions.last())
        } else {
            rest
        }
    }
}

/// The versions of an index whose tarballs are fetched for a package with
/// the given ranges.
pub open spec fn spec_choose(greedy: bool, ranges: Seq<Seq<char>>, versions: Seq<Seq<char>>) -> Seq<Seq<char>> {
    if greedy {
        keep_admitted(ranges, versions)
    } else {
        ranges_max_satisfying(ranges, versions)
    }
}

/// Queueing the tarballs of the chosen versions, in order, up to the
/// first that the queue refuses. A version without a tarball is passed
/// over.
pub open spec fn spec_queue_tarballs(
    opts: &CliOpts,
    queue: QueueSpec,
    idx: IndexSpec,
    package: Seq<char>,
    chosen: Seq<Seq<char>>,
) -> (QueueSpec, Option<ErrorSpec>)
    decreases chosen.len(),
{
    if chosen.len() == 0 {
        (queue, None)
    } else {
        match idx.tarball_by_version(chosen[0]) {
            Some(tarball) => {
                let next = queue.enqueue(spec_tarball_download(opts, package, tarball));
                if queue.closed {
                    (next, Some(ErrorSpec::AsyncChannelSend))
                } else {
                    spec_queue_tarballs(opts, next, idx, package, chosen.drop_first())
                }
            },
            None => spec_queue_tarballs(opts, queue, idx, package, chosen.drop_first()),
        }
    }
}

/// The download of the tarball that an index keeps for a version.
pub open spec fn spec_tarball_of(opts: &CliOpts, idx: IndexSpec, package: Seq<char>, version: Seq<char>) -> DownloadSpec {
    spec_tarball_download(opts, package, idx.tarball_by_version(version).unwrap())
}

/// One tarball per chosen version: where the queue is open and the index
/// keeps a tarball for each chosen version, the tarball downloads of the
/// chosen versions are queued behind what was queued, in their order and
/// each once, as many files more are expected, and the step succeeds.
pub proof fn law_tarballs_queued(
    opts: &CliOpts,
    queue: QueueSpec,
    idx: IndexSpec,
    package: Seq<char>,
    chosen: Seq<Seq<char>>,
)
    requires
        !queue.closed,
        forall|k: int| 0 <= k < chosen.len() ==> idx.tarball_by_version(#[trigger] chosen[k]) is Some,
    ensures
        ({
            let (after, failure) = spec_queue_tarballs(opts, queue, idx, package, chosen);
            &&& failure is None
            &&& !after.closed
            &&& after.pending == queue.pending + chosen.map_values(
                |v: Seq<char>| spec_tarball_of(opts, idx, package, v),
            )
            &&& after.pending.len() == queue.pending.len() + chosen.len()
            &&& queue.expected + chosen.len() <= u64::MAX ==> after.expected == queue.expected + chosen.len()
        }),
    decreases chosen.len(),
{
    let downloads = chosen.map_values(|v: Seq<char>| spec_tarball_of(opts, idx, package, v));
    if chosen.len() == 0 {
        assert(queue.pending + downloads =~= queue.pending);
    } else {
        let next = queue.enqueue(spec_tarball_of(opts, idx, package, chosen[0]));
        let rest = chosen.drop_first();
        assert forall|k: int| 0 <= k < rest.len() implies idx.tarball_by_version(#[trigger] rest[k]) is Some by {
            assert(rest[k] == chosen[k + 1]);
        }
        law_tarballs_queued(opts, next, idx, package, rest);
        let rest_downloads = rest.map_values(|v: Seq<char>| spec_tarball_of(opts, idx, package, v));
        assert(queue.pending + downloads =~= next.pending + rest_downloads) by {
            assert forall|k: int| 0 <= k < rest_downloads.len() implies rest_downloads[k] == downloads[k + 1] by {
                assert(rest[k] == chosen[k + 1]);
            }
        }
    }
}

/// Where all are wanted, the versions chosen are those of the list that
/// some range admits: each chosen version is one of the list and is
/// admitted, and where every version of the list is admitted, the list
/// itself is chosen.
pub proof fn law_greedy_choice(ranges: Seq<Seq<char>>, versions: Seq<Seq<char>>)
    ensures
        forall|k: int|
            0 <= k < keep_admitted(ranges, versions).len() ==> versions.contains(
                #[trigger] keep_admitted(ranges, versions)[k],
            ) && ranges_satisfy(ranges, keep_admitted(ranges, versions)[k]),
        (forall|i: int| 0 <= i < versions.len() ==> ranges_satisfy(ranges, #[trigger] versions[i]))
            ==> keep_admitted(ranges, versions) == versions,
    decreases versions.len(),
{
    if versions.len() > 0 {
        let front = versions.drop_last();
        law_greedy_choice(ranges, front);
        let rest = keep_admitted(ranges, front);
        let out = keep_admitted(ranges, versions);
        assert forall|k: int| 0 <= k < out.len() implies versions.contains(#[trigger] out[k]) && ranges_satisfy(
            ranges,
            out[k],
        ) by {
            if k < rest.len() {
                assert(out[k] == rest[k]);
                let i = choose|i: int| 0 <= i < front.len() && front[i] == rest[k];
                assert(versions[i] == front[i]);
            } else {
                assert(out[k] == versions[versions.len() - 1]);
            }
        }
        if forall|i: int| 0 <= i < versions.len() ==> ranges_satisfy(ranges, #[trigger] versions[i]) {
            assert forall|i: int| 0 <= i < front.len() implies ranges_satisfy(ranges, #[trigger] front[i]) by {
                assert(front[i] == versions[i]);
            }
            assert(ranges_satisfy(ranges, versions[versions.len() - 1]));
            assert(out =~= versions);
        }
    }
}

/// The versions of a list that some range of the list admits.
fn admitted_versions(ranges: &Ranges, versions: &Vec<Version>) -> (r: Vec<Version>)
    ensures
        version_texts(r@) == keep_admitted(ranges@, version_texts(versions@)),
{
    let n = versions.len();
    let mut out: Vec<Version> = Vec::new();
    let mut i: usize = 0;
    let ghost texts = version_texts(versions@);
    assert(texts.take(0) =~= Seq::<Seq<char>>::empty());
    assert(version_texts(out@) =~= Seq::<Seq<char>>::empty());
    while i < n
        invariant
            n == versions@.len(),
            i <= n,
            texts == version_texts(versions@),
            version_texts(out@) == keep_admitted(ranges@, texts.take(i as int)),
        decreases n - i,
    {
        let ghost before = out@;
        assert(texts.take(i + 1).drop_last() =~= texts.take(i as int));
        assert(texts.take(i + 1).last() == versions@[i as int]@);
        if ranges.satisfies(&versions[i]) {
            out.push(versions[i].clone());
            assert(version_texts(out@) =~= version_texts(before).push(versions@[i as int]@));
        }
        i += 1;
    }
    assert(texts.take(n as int) =~= texts);
    out
}

/// The third phase, for one package with its ranges. Without an index
/// nothing is queued and the result is `false`. With one, the tarball of
/// each chosen version that has one is queued, without a checksum, and
/// the result is `true`.
pub fn download_packages(
    opts: &CliOpts,
    package: &str,
    ranges: &Ranges,
    idx: Option<&PackageIndex>,
    downloader: &mut Downloader,
) -> (r: Result<bool, ErrorKind>)
    ensures
        final(downloader).same_besides_queue(old(downloader)),
        idx is None ==> (r matches Ok(done) && !done) && final(downloader).model() == old(
            downloader,
        ).model(),
        idx matches Some(index) ==> {
            let outcome = spec_queue_tarballs(
                opts,
                old(downloader).model(),
                index@,
                package@,
                spec_choose(opts.greedy, ranges@, index@.versions),
            );
            &&& final(downloader).model() == outcome.0
            &&& (r matches Ok(done) ==> done && outcome.1 is None)
            &&& (r matches Err(e) ==> Some(e@) == outcome.1)
            &&& r is Ok <==> outcome.1 is None
            &&& !opts.greedy ==> all_picks(
                ranges@,
                index@.versions,
                spec_choose(opts.greedy, ranges@, index@.versions),
            )
        },
{
    let index = match idx {
        Some(index) => index,
        None => {
            return Ok(false);
        },
    };
    let chosen = if opts.greedy {
        admitted_versions(ranges, &index.versions)
    } else {
        ranges.max_satisfying(&index.versions)
    };
    let ghost start = downloader.model();
    let ghost all = version_texts(chosen@);
    let n = chosen.len();
    let mut i: usize = 0;
    assert(all.skip(0) =~= all);
    while i < n
        invariant
            n == chosen@.len(),
            i <= n,
            all == version_texts(chosen@),
            idx == Some(index),
            all == spec_choose(opts.greedy, ranges@, index@.versions),
            !opts.greedy ==> all_picks(ranges@, index@.versions, all),
            start == old(downloader).model(),
            downloader.same_besides_queue(old(downloader)),
            spec_queue_tarballs(opts, start, index@, package@, all) == spec_queue_tarballs(
                opts,
                downloader.model(),
                index@,
                package@,
                all.skip(i as int),
            ),
        decreases n - i,
    {
        let version = &chosen[i];
        let ghost here = downloader.model();
        assert(all.skip(i as int)[0] == version@);
        assert(all.skip(i as int).drop_first() =~= all.skip(i + 1));
        match index.tarball_by_version(version) {
            Some(tarball_url) => {
                assert(index@.tarball_by_version(version@) == Some(tarball_url@));
                match downloader.queue(Download::tarball(opts, package, tarball_url)) {
                    Ok(()) => {},
                    Err(e) => {
                        return Err(e);
                    },
                }
            },
            None => {},
        }
        i += 1;
    }
    Ok(true)
}

/// What a run does next.
#[derive(Debug)]
pub enum MirrorStep {
    /// Carry out a phase.
    Run(Phase),
    /// The run is over.
    Finish(Result<MirrorResult, NpmError>),
}

/// The phase that follows a phase.
pub open spec fn phase_after(phase: Phase) -> Option<Phase> {
    match phase {
        Phase::Dependencies => Some(Phase::ChildDependencies),
        Phase::ChildDependencies => Some(Phase::Packages),
        Phase::Packages => None,
    }
}

/// Whether the bytes of a phase are added up when it ends: those of the
/// first and of the third.
pub open spec fn phase_is_summed(phase: Phase) -> bool {
    phase != Phase::ChildDependencies
}

/// The number of the step after a step; it wraps at 255.
pub open spec fn step_after(step: u8) -> u8 {
    if step == u8::MAX {
        0u8
    } else {
        (step + 1) as u8
    }
}

/// Whether `after` is the progress at the beginning of the step that
/// follows `before`: the next number, the label `Downloading`, and the
/// counters for files and bytes at zero.
pub open spec fn begins_next_step(before: &Progress, after: &Progress) -> bool {
    &&& after.step == step_after(before.step)
    &&& after.step_name@ == "Downloading"@
    &&& after.files == crate::progress::ProgressPart::zero()
    &&& after.bytes == crate::progress::ProgressPart::zero()
}

/// Whether `after` is the progress of the same step as `before`, with the
/// same counters for files and bytes.
pub open spec fn keeps_step(before: &Progress, after: &Progress) -> bool {
    &&& after.step == before.step
    &&& after.step_name@ == before.step_name@
    &&& after.total_steps == before.total_steps
    &&& after.files == before.files
    &&& after.bytes == before.bytes
}

/// The bytes of all steps so far, once a phase has ended well: those of
/// the first and of the third phase are added to the sum.
pub open spec fn summed_bytes(before: &Progress, phase: Phase) -> u64 {
    if phase_is_summed(phase) {
        crate::progress::wrapped(before.total_bytes, before.bytes.spec_success())
    } else {
        before.total_bytes
    }
}

/// The course of a run: three phases, one after the other. At the start,
/// when nothing is done yet, the steps are counted as three and the first
/// phase begins. A phase that succeeded is followed by the next one, each
/// as the next step, under the label `Downloading` and with its counters
/// at zero; after the third the run ends with what that phase received,
/// and the step stays as it is. A phase that failed ends the run with its
/// error and changes nothing.
pub fn mirror(downloader: &mut Downloader, done: Option<(Phase, Result<(), ErrorKind>)>) -> (r: MirrorStep)
    ensures
        final(downloader).pending == old(downloader).pending,
        final(downloader).closed == old(downloader).closed,
        done is None ==> r == MirrorStep::Run(Phase::Dependencies) && begins_next_step(
            &old(downloader).progress,
            &final(downloader).progress,
        ) && final(downloader).progress.total_steps == 3 && final(downloader).progress.total_bytes == old(
            downloader,
        ).progress.total_bytes,
        done matches Some((phase, Err(e))) ==> r == MirrorStep::Finish(Err(NpmError::in_phase_spec(phase, e)))
            && final(downloader).progress == old(downloader).progress,
        done matches Some((phase, Ok(_))) ==> (match phase_after(phase) {
            Some(next) => r == MirrorStep::Run(next) && begins_next_step(
                &old(downloader).progress,
                &final(downloader).progress,
            ) && final(downloader).progress.total_steps == old(downloader).progress.total_steps,
            None => r == MirrorStep::Finish(
                Ok(
                    MirrorResult {
                        new_packages: old(downloader).progress.files.spec_success(),
                        new_packages_bytes: old(downloader).progress.bytes.spec_success(),
                    },
                ),
            ) && keeps_step(&old(downloader).progress, &final(downloader).progress),
        }) && final(downloader).progress.total_bytes == summed_bytes(&old(downloader).progress, phase),
{
    match done {
        None => {
            downloader.progress.set_total_steps(3);
            downloader.progress.next_step("Downloading");
            MirrorStep::Run(Phase::Dependencies)
        },
        Some((phase, Err(e))) => MirrorStep::Finish(Err(NpmError::in_phase(phase, e))),
        Some((Phase::Dependencies, Ok(()))) => {
            downloader.progress.complete_step();
            downloader.progress.next_step("Downloading");
            MirrorStep::Run(Phase::ChildDependencies)
        },
        Some((Phase::ChildDependencies, Ok(()))) => {
            downloader.progress.next_step("Downloading");
            MirrorStep::Run(Phase::Packages)
        },
        Some((Phase::Packages, Ok(()))) => {
            downloader.progress.complete_step();
            MirrorStep::Finish(Ok(MirrorResult::of(&downloader.progress)))
        },
    }
}

} // verus!
