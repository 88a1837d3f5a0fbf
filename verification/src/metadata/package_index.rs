//! The index of a package: what is kept of its metadata for resolution.

use crate::metadata::sparse_metadata::{Dep, DepSpec, DepVersion, DistTag, SparseMetadata, SubDep};
use crate::metadata::sparse_metadata::{labels_distinct, versions_distinct, VersionEntry, VersionInfo};
use crate::options::CliOpts;
use crate::semver::{version_same, version_texts, Version, VersionRange};
use crate::codec::{encode, frame_of, unframe, INDEX_LEVEL};
use crate::error::ErrorKind;
use crate::meta_cache::{spec_insert, MetaCache};
use crate::text::{chars_of, find, find_first, has_prefix, matches_at, push_all, text_of};
use vstd::prelude::*;

verus! {

/// A dependency specification as the index keeps it.
#[derive(Debug)]
pub enum IdxDepVersion {
    Tag(String),
    Range(VersionRange),
    SubDep(SubDep),
    Other(String),
}

impl View for IdxDepVersion {
    type V = DepSpec;

    open spec fn view(&self) -> DepSpec {
        match self {
            IdxDepVersion::Tag(s) => DepSpec::Tag(s@),
            IdxDepVersion::Range(r) => DepSpec::Range(r@),
            IdxDepVersion::SubDep(d) => DepSpec::SubDep { package: d.package@, range: d.range@ },
            IdxDepVersion::Other(s) => DepSpec::Other(s@),
        }
    }
}

impl IdxDepVersion {
    /// The specification as the index keeps it: the same, variant by
    /// variant.
    pub fn of(value: &DepVersion) -> (r: IdxDepVersion)
        ensures
            r@ == value@,
    {
        match value {
            DepVersion::Tag(s) => IdxDepVersion::Tag(s.clone()),
            DepVersion::Range(range) => IdxDepVersion::Range(range.clone()),
            DepVersion::SubDep(sub_dep) => IdxDepVersion::SubDep(sub_dep.clone()),
            DepVersion::Other(other) => IdxDepVersion::Other(other.clone()),
        }
    }
}

impl From<DepVersion> for IdxDepVersion {
    fn from(value: DepVersion) -> (r: Self) {
        match value {
            DepVersion::Tag(s) => IdxDepVersion::Tag(s),
            DepVersion::Range(range) => IdxDepVersion::Range(range),
            DepVersion::SubDep(sub_dep) => IdxDepVersion::SubDep(sub_dep),
            DepVersion::Other(other) => IdxDepVersion::Other(other),
        }
    }
}

impl vstd::std_specs::convert::FromSpecImpl<DepVersion> for IdxDepVersion {
    open spec fn obeys_from_spec() -> bool {
        true
    }

    open spec fn from_spec(value: DepVersion) -> Self {
        match value {
            DepVersion::Tag(s) => IdxDepVersion::Tag(s),
            DepVersion::Range(range) => IdxDepVersion::Range(range),
            DepVersion::SubDep(sub_dep) => IdxDepVersion::SubDep(sub_dep),
            DepVersion::Other(other) => IdxDepVersion::Other(other),
        }
    }
}

impl Clone for IdxDepVersion {
    fn clone(&self) -> (r: Self)
        ensures
            r@ == self@,
    {
        match self {
            IdxDepVersion::Tag(s) => IdxDepVersion::Tag(s.clone()),
            IdxDepVersion::Range(range) => IdxDepVersion::Range(range.clone()),
            IdxDepVersion::SubDep(sub_dep) => IdxDepVersion::SubDep(sub_dep.clone()),
            IdxDepVersion::Other(other) => IdxDepVersion::Other(other.clone()),
        }
    }
}

/// One dependency of a version.
#[derive(Debug)]
pub struct IdxDep {
    pub package: String,
    pub range: IdxDepVersion,
}

impl View for IdxDep {
    type V = (Seq<char>, DepSpec);

    open spec fn view(&self) -> (Seq<char>, DepSpec) {
        (self.package@, self.range@)
    }
}

impl Clone for IdxDep {
    fn clone(&self) -> (r: Self)
        ensures
            r@ == self@,
    {
        IdxDep { package: self.package.clone(), range: self.range.clone() }
    }
}

/// Where a tarball is to be had, as a mathematical value.
pub enum TarballSpec {
    Short(Seq<char>),
    Full(Seq<char>),
}

/// Where a tarball is to be had: the file's name alone where the URL has
/// the registry's usual shape, the whole URL otherwise.
#[derive(Debug)]
pub enum TarballUrl {
    Short(String),
    Full(String),
}

impl View for TarballUrl {
    type V = TarballSpec;

    open spec fn view(&self) -> TarballSpec {
        match self {
            TarballUrl::Short(s) => TarballSpec::Short(s@),
            TarballUrl::Full(s) => TarballSpec::Full(s@),
        }
    }
}

impl Clone for TarballUrl {
    fn clone(&self) -> (r: Self)
        ensures
            r@ == self@,
    {
        match self {
            TarballUrl::Short(s) => TarballUrl::Short(s.clone()),
            TarballUrl::Full(s) => TarballUrl::Full(s.clone()),
        }
    }
}

/// What marks the usual shape of a tarball URL: the package's name, then
/// `/-/`.
pub open spec fn sentinel(package: Seq<char>) -> Seq<char> {
    package + "/-/"@
}

/// A tarball URL, shortened where it has the registry's usual shape: it
/// begins with the registry's URL, and the package's sentinel stands in
/// the rest. The short form is what follows the first sentinel.
pub open spec fn spec_strip_path(url: Seq<char>, package: Seq<char>, registry: Seq<char>) -> TarballSpec {
    if has_prefix(url, registry) {
        let rest = url.skip(registry.len() as int);
        match find_first(rest, sentinel(package)) {
            Some(at) => TarballSpec::Short(rest.skip(at + sentinel(package).len())),
            None => TarballSpec::Full(url),
        }
    } else {
        TarballSpec::Full(url)
    }
}

/// Shortens a tarball URL where it has the registry's usual shape.
pub fn strip_path(v: &str, package: &str, registry_url: &str) -> (r: TarballUrl)
    ensures
        r@ == spec_strip_path(v@, package@, registry_url@),
{
    let url = chars_of(v);
    let registry = chars_of(registry_url);
    if !matches_at(&url, 0, &registry) {
        return TarballUrl::Full(String::from_str(v));
    }
    let n = url.len();
    let rest = chars_of(text_of(&url, registry.len(), n).as_str());
    assert(rest@ =~= url@.skip(registry@.len() as int));
    let mut mark = chars_of(package);
    let tail = chars_of("/-/");
    push_all(&mut mark, &tail);
    match find(&rest, &mark) {
        Some(at) => {
            let m = rest.len();
            let short = text_of(&rest, at + mark.len(), m);
            assert(short@ =~= rest@.skip(at + mark@.len()));
            TarballUrl::Short(short)
        },
        None => TarballUrl::Full(String::from_str(v)),
    }
}

/// The first position at or after `from` of a version that is the same as
/// `version`.
pub open spec fn position_from(versions: Seq<Seq<char>>, version: Seq<char>, from: int) -> Option<int>
    decreases versions.len() + 1 - from,
{
    if from < 0 || from >= versions.len() {
        None
    } else if version_same(versions[from], version) == Some(true) {
        Some(from)
    } else {
        position_from(versions, version, from + 1)
    }
}

/// The first position of a version that is the same as `version`.
pub open spec fn position_of_version(versions: Seq<Seq<char>>, version: Seq<char>) -> Option<int> {
    position_from(versions, version, 0)
}

/// `position_from` gives the least position of a version that is the
/// same, and nothing only where there is none.
pub proof fn lemma_position_from(versions: Seq<Seq<char>>, version: Seq<char>, from: int)
    requires
        0 <= from,
    ensures
        position_from(versions, version, from) matches Some(i) ==> from <= i < versions.len()
            && version_same(versions[i], version) == Some(true) && forall|j: int|
            from <= j < i ==> version_same(#[trigger] versions[j], version) != Some(true),
        position_from(versions, version, from) is None ==> forall|j: int|
            from <= j < versions.len() ==> version_same(#[trigger] versions[j], version) != Some(true),
    decreases versions.len() + 1 - from,
{
    if from >= versions.len() {
    } else if version_same(versions[from], version) == Some(true) {
    } else {
        lemma_position_from(versions, version, from + 1);
    }
}

/// The first position at or after `from` of an entry with the label.
pub open spec fn tag_from(tags: Seq<(Seq<char>, int)>, label: Seq<char>, from: int) -> Option<int>
    decreases tags.len() + 1 - from,
{
    if from < 0 || from >= tags.len() {
        None
    } else if tags[from].0 == label {
        Some(from)
    } else {
        tag_from(tags, label, from + 1)
    }
}

/// The index of a package. The lists `versions`, `tarballs` and `deps` go
/// together, position by position; a dist-tag names a position.
#[derive(Debug)]
pub struct PackageIndex {
    pub dist_tags: Vec<(String, usize)>,
    pub versions: Vec<Version>,
    pub tarballs: Vec<Option<TarballUrl>>,
    pub deps: Vec<Vec<IdxDep>>,
}

/// An index as a mathematical value.
pub struct IndexSpec {
    pub dist_tags: Seq<(Seq<char>, int)>,
    pub versions: Seq<Seq<char>>,
    pub tarballs: Seq<Option<TarballSpec>>,
    pub deps: Seq<Seq<(Seq<char>, DepSpec)>>,
}

impl IndexSpec {
    /// The lists go together position by position; no label stands twice
    /// among the dist-tags, and each names a position of the list; no two
    /// versions of the list are the same.
    pub open spec fn wf(self) -> bool {
        &&& self.tarballs.len() == self.versions.len()
        &&& self.deps.len() == self.versions.len()
        &&& forall|i: int, j: int|
            0 <= i < j < self.dist_tags.len() ==> (#[trigger] self.dist_tags[i]).0
                != (#[trigger] self.dist_tags[j]).0
        &&& forall|k: int|
            0 <= k < self.dist_tags.len() ==> 0 <= (#[trigger] self.dist_tags[k]).1 < self.versions.len()
        &&& forall|i: int, j: int|
            0 <= i < j < self.versions.len() ==> version_same(
                #[trigger] self.versions[i],
                #[trigger] self.versions[j],
            ) != Some(true)
    }

    /// The version that a dist-tag stands for: the one at the position
    /// that the first entry with that label names, where there is one.
    pub open spec fn version_by_tag(self, tag: Seq<char>) -> Option<Seq<char>> {
        match tag_from(self.dist_tags, tag, 0) {
            Some(k) => if 0 <= self.dist_tags[k].1 < self.versions.len() {
                Some(self.versions[self.dist_tags[k].1])
            } else {
                None
            },
            None => None,
        }
    }

    /// The tarball of the first version that is the same as `version`.
    pub open spec fn tarball_by_version(self, version: Seq<char>) -> Option<TarballSpec> {
        match position_of_version(self.versions, version) {
            Some(i) => if i < self.tarballs.len() {
                self.tarballs[i]
            } else {
                None
            },
            None => None,
        }
    }

    /// The dependencies of the first version that is the same as
    /// `version`.
    pub open spec fn deps_by_version(self, version: Seq<char>) -> Option<Seq<(Seq<char>, DepSpec)>> {
        match position_of_version(self.versions, version) {
            Some(i) => if i < self.deps.len() {
                Some(self.deps[i])
            } else {
                None
            },
            None => None,
        }
    }
}

/// The dependencies of one version as mathematical values.
pub open spec fn deps_view(deps: Seq<IdxDep>) -> Seq<(Seq<char>, DepSpec)> {
    deps.map_values(|d: IdxDep| d@)
}

/// A tarball entry as a mathematical value.
pub open spec fn tarball_view(t: Option<TarballUrl>) -> Option<TarballSpec> {
    match t {
        Some(u) => Some(u@),
        None => None,
    }
}

impl View for PackageIndex {
    type V = IndexSpec;

    open spec fn view(&self) -> IndexSpec {
        IndexSpec {
            dist_tags: self.dist_tags@.map_values(|t: (String, usize)| (t.0@, t.1 as int)),
            versions: version_texts(self.versions@),
            tarballs: self.tarballs@.map_values(|t: Option<TarballUrl>| tarball_view(t)),
            deps: self.deps@.map_values(|d: Vec<IdxDep>| deps_view(d@)),
        }
    }
}

impl Default for PackageIndex {
    /// The empty index.
    fn default() -> (r: Self)
        ensures
            r.dist_tags@.len() == 0,
            r.versions@.len() == 0,
            r.tarballs@.len() == 0,
            r.deps@.len() == 0,
    {
        PackageIndex { dist_tags: Vec::new(), versions: Vec::new(), tarballs: Vec::new(), deps: Vec::new() }
    }
}

/// A dependency table as mathematical values; a table that is absent
/// holds nothing.
pub open spec fn table_view(table: Option<Vec<Dep>>) -> Seq<(Seq<char>, DepSpec)> {
    match table {
        Some(t) => t@.map_values(|d: Dep| (d.package@, d.range@)),
        None => Seq::empty(),
    }
}

/// A table, or nothing where it is to be left out.
pub open spec fn unless(skip: bool, table: Seq<(Seq<char>, DepSpec)>) -> Seq<(Seq<char>, DepSpec)> {
    if skip {
        Seq::empty()
    } else {
        table
    }
}

/// The dependencies kept of one version: its dependencies, then its
/// development, optional and peer dependencies, each unless switched off.
pub open spec fn project_deps(opts: &CliOpts, info: Option<VersionInfo>) -> Seq<(Seq<char>, DepSpec)> {
    match info {
        Some(v) => table_view(v.dependencies) + unless(opts.no_dev_deps, table_view(v.dev_dependencies))
            + unless(opts.no_optional_deps, table_view(v.optional_dependencies)) + unless(
            opts.no_peer_deps,
            table_view(v.peer_dependencies),
        ),
        None => Seq::empty(),
    }
}

/// The tarball kept of one version.
pub open spec fn project_tarball(info: Option<VersionInfo>, package: Seq<char>, registry: Seq<char>) -> Option<
    TarballSpec,
> {
    match info {
        Some(v) => Some(spec_strip_path(v.dist.tarball@, package, registry)),
        None => None,
    }
}

/// The dist-tags kept: each label with the position of its version, in
/// order; a label whose version is not there is dropped.
pub open spec fn project_tags(tags: Seq<DistTag>, versions: Seq<Seq<char>>) -> Seq<(Seq<char>, int)>
    decreases tags.len(),
{
    if tags.len() == 0 {
        Seq::empty()
    } else {
        let rest = project_tags(tags.drop_last(), versions);
        match position_of_version(versions, tags.last().version@) {
            Some(pos) => rest.push((tags.last().label@, pos)),
            None => rest,
        }
    }
}

/// The index that is kept of a metadata document.
pub open spec fn project(opts: &CliOpts, meta: SparseMetadata) -> IndexSpec {
    match meta.versions {
        Some(entries) => {
            let versions = entries@.map_values(|e: VersionEntry| e.version@);
            IndexSpec {
                dist_tags: match meta.dist_tags {
                    Some(tags) => project_tags(tags@, versions),
                    None => Seq::empty(),
                },
                versions,
                tarballs: entries@.map_values(
                    |e: VersionEntry| project_tarball(e.info, meta.name@, opts.registry_url@),
                ),
                deps: entries@.map_values(|e: VersionEntry| project_deps(opts, e.info)),
            }
        },
        None => IndexSpec {
            dist_tags: Seq::empty(),
            versions: Seq::empty(),
            tarballs: Seq::empty(),
            deps: Seq::empty(),
        },
    }
}

/// `tag_from` gives the least position of an entry with the label, and
/// nothing only where there is none.
pub proof fn lemma_tag_from(tags: Seq<(Seq<char>, int)>, label: Seq<char>, from: int)
    requires
        0 <= from,
    ensures
        tag_from(tags, label, from) matches Some(k) ==> from <= k < tags.len() && tags[k].0 == label
            && forall|m: int| from <= m < k ==> (#[trigger] tags[m]).0 != label,
        tag_from(tags, label, from) is None ==> forall|m: int|
            from <= m < tags.len() ==> (#[trigger] tags[m]).0 != label,
    decreases tags.len() + 1 - from,
{
    if from >= tags.len() {
    } else if tags[from].0 == label {
    } else {
        lemma_tag_from(tags, label, from + 1);
    }
}

/// In a well-formed index a label has one entry at most, so the version
/// of a tag is that of whichever entry has the label.
pub proof fn law_tag_lookup_unique(idx: IndexSpec, tag: Seq<char>, k: int)
    requires
        idx.wf(),
        0 <= k < idx.dist_tags.len(),
        idx.dist_tags[k].0 == tag,
    ensures
        idx.version_by_tag(tag) == Some(idx.versions[idx.dist_tags[k].1]),
{
    lemma_tag_from(idx.dist_tags, tag, 0);
    let first = tag_from(idx.dist_tags, tag, 0).unwrap();
    assert(first == k) by {
        if first < k {
            assert(idx.dist_tags[first].0 != idx.dist_tags[k].0);
        }
    }
}

/// What is kept of the dist-tags, for labels that are distinct: labels
/// that are distinct again, each one of the labels given, and positions
/// of the list of versions.
pub proof fn lemma_project_tags(tags: Seq<DistTag>, versions: Seq<Seq<char>>)
    requires
        labels_distinct(tags),
    ensures
        forall|k: int|
            0 <= k < project_tags(tags, versions).len() ==> 0 <= (#[trigger] project_tags(
                tags,
                versions,
            )[k]).1 < versions.len() && exists|m: int|
                0 <= m < tags.len() && (#[trigger] tags[m]).label@ == project_tags(tags, versions)[k].0,
        forall|i: int, j: int|
            0 <= i < j < project_tags(tags, versions).len() ==> (#[trigger] project_tags(tags, versions)[i]).0
                != (#[trigger] project_tags(tags, versions)[j]).0,
    decreases tags.len(),
{
    if tags.len() > 0 {
        let front = tags.drop_last();
        assert forall|i: int, j: int| 0 <= i < j < front.len() implies (#[trigger] front[i]).label@
            != (#[trigger] front[j]).label@ by {
            assert(front[i] == tags[i] && front[j] == tags[j]);
        }
        lemma_project_tags(front, versions);
        let rest = project_tags(front, versions);
        let out = project_tags(tags, versions);
        lemma_position_from(versions, tags.last().version@, 0);
        assert forall|k: int| 0 <= k < out.len() implies 0 <= (#[trigger] out[k]).1 < versions.len()
            && exists|m: int| 0 <= m < tags.len() && (#[trigger] tags[m]).label@ == out[k].0 by {
            if k < rest.len() {
                assert(out[k] == rest[k]);
                let m = choose|m: int| 0 <= m < front.len() && (#[trigger] front[m]).label@ == rest[k].0;
                assert(tags[m] == front[m]);
            } else {
                assert(tags[tags.len() - 1].label@ == out[k].0);
            }
        }
        assert forall|i: int, j: int| 0 <= i < j < out.len() implies (#[trigger] out[i]).0 != (#[trigger] out[j]).0 by {
            assert(out[i] == rest[i]);
            if j < rest.len() {
                assert(out[j] == rest[j]);
            } else {
                let m = choose|m: int| 0 <= m < front.len() && (#[trigger] front[m]).label@ == rest[i].0;
                assert(tags[m] == front[m]);
                assert(tags[m].label@ != tags[tags.len() - 1].label@);
            }
        }
    }
}

/// The index kept of a well-formed document is well formed.
pub proof fn law_projection_is_well_formed(opts: &CliOpts, meta: SparseMetadata)
    requires
        meta.wf(),
    ensures
        project(opts, meta).wf(),
{
    match meta.versions {
        Some(entries) => {
            let versions = entries@.map_values(|e: VersionEntry| e.version@);
            match meta.dist_tags {
                Some(tags) => {
                    lemma_project_tags(tags@, versions);
                },
                None => {},
            }
            assert forall|i: int, j: int| 0 <= i < j < versions.len() implies version_same(
                #[trigger] versions[i],
                #[trigger] versions[j],
            ) != Some(true) by {
                assert(versions[i] == entries@[i].version@ && versions[j] == entries@[j].version@);
            }
        },
        None => {},
    }
}

/// Appends the entries of a table, as the index keeps them.
fn extend_deps(out: &mut Vec<IdxDep>, table: &Option<Vec<Dep>>)
    ensures
        deps_view(final(out)@) == deps_view(old(out)@) + table_view(*table),
{
    match table {
        Some(entries) => {
            let n = entries.len();
            let mut i: usize = 0;
            assert(deps_view(out@) =~= deps_view(old(out)@) + table_view(*table).take(0));
            while i < n
                invariant
                    n == entries@.len(),
                    i <= n,
                    *table == Some(*entries),
                    deps_view(out@) == deps_view(old(out)@) + table_view(*table).take(i as int),
                decreases n - i,
            {
                let ghost before = out@;
                let dep = IdxDep {
                    package: entries[i].package.clone(),
                    range: IdxDepVersion::of(&entries[i].range),
                };
                out.push(dep);
                assert(deps_view(out@) =~= deps_view(before).push(dep@));
                assert(table_view(*table).take(i + 1) =~= table_view(*table).take(i as int).push(dep@));
                assert(deps_view(out@) =~= deps_view(old(out)@) + table_view(*table).take(i + 1));
                i += 1;
            }
            assert(table_view(*table).take(n as int) =~= table_view(*table));
        },
        None => {
            assert(deps_view(out@) =~= deps_view(old(out)@) + table_view(*table));
        },
    }
}

/// The dependencies kept of one version.
fn deps_of(opts: &CliOpts, info: &Option<VersionInfo>) -> (r: Vec<IdxDep>)
    ensures
        deps_view(r@) == project_deps(opts, *info),
{
    let mut v_deps: Vec<IdxDep> = Vec::new();
    assert(deps_view(v_deps@) =~= Seq::empty());
    match info {
        Some(v) => {
            extend_deps(&mut v_deps, &v.dependencies);
            if !opts.no_dev_deps {
                extend_deps(&mut v_deps, &v.dev_dependencies);
            }
            if !opts.no_optional_deps {
                extend_deps(&mut v_deps, &v.optional_dependencies);
            }
            if !opts.no_peer_deps {
                extend_deps(&mut v_deps, &v.peer_dependencies);
            }
            assert(deps_view(v_deps@) =~= project_deps(opts, *info));
        },
        None => {},
    }
    v_deps
}

impl PackageIndex {
    /// The index that is kept of a metadata document: its versions in the
    /// document's order, with the tarball and the dependencies of each,
    /// and the dist-tags whose version is among them.
    pub fn from_sparse(opts: &CliOpts, value: SparseMetadata) -> (r: PackageIndex)
        ensures
            r@ == project(opts, value),
            value.wf() ==> r@.wf(),
    {
        proof {
            if value.wf() {
                law_projection_is_well_formed(opts, value);
            }
        }
        let mut idx = PackageIndex::default();
        match &value.versions {
            Some(entries) => {
                let n = entries.len();
                let mut i: usize = 0;
                while i < n
                    invariant
                        n == entries@.len(),
                        i <= n,
                        idx.dist_tags@.len() == 0,
                        idx.versions@.len() == i,
                        idx.tarballs@.len() == i,
                        idx.deps@.len() == i,
                        forall|j: int| 0 <= j < i ==> (#[trigger] idx.versions@[j])@ == entries@[j].version@,
                        forall|j: int|
                            0 <= j < i ==> tarball_view(#[trigger] idx.tarballs@[j]) == project_tarball(
                                entries@[j].info,
                                value.name@,
                                opts.registry_url@,
                            ),
                        forall|j: int|
                            0 <= j < i ==> deps_view((#[trigger] idx.deps@[j])@) == project_deps(
                                opts,
                                entries@[j].info,
                            ),
                    decreases n - i,
                {
                    let entry = &entries[i];
                    idx.versions.push(entry.version.clone());
                    let tarball = match &entry.info {
                        Some(v) => Some(
                            strip_path(
                                v.dist.tarball.as_str(),
                                value.name.as_str(),
                                opts.registry_url.as_str(),
                            ),
                        ),
                        None => None,
                    };
                    idx.tarballs.push(tarball);
                    let v_deps = deps_of(opts, &entry.info);
                    idx.deps.push(v_deps);
                    i += 1;
                }
                proof {
                    let versions = entries@.map_values(|e: VersionEntry| e.version@);
                    assert(idx@.versions =~= versions);
                    assert(idx@.tarballs =~= entries@.map_values(
                        |e: VersionEntry| project_tarball(e.info, value.name@, opts.registry_url@),
                    ));
                    assert(idx@.deps =~= entries@.map_values(|e: VersionEntry| project_deps(opts, e.info)));
                    assert(idx@.dist_tags =~= Seq::empty());
                }
                match &value.dist_tags {
                    Some(tags) => {
                        let m = tags.len();
                        let mut kept: Vec<(String, usize)> = Vec::new();
                        let mut k: usize = 0;
                        assert(tags@.take(0) =~= Seq::<DistTag>::empty());
                        assert(kept@.map_values(|t: (String, usize)| (t.0@, t.1 as int)) =~= Seq::empty());
                        while k < m
                            invariant
                                m == tags@.len(),
                                k <= m,
                                kept@.map_values(|t: (String, usize)| (t.0@, t.1 as int)) == project_tags(
                                    tags@.take(k as int),
                                    idx@.versions,
                                ),
                            decreases m - k,
                        {
                            let ghost before = kept@;
                            assert(tags@.take(k + 1).drop_last() =~= tags@.take(k as int));
                            assert(tags@.take(k + 1).last() == tags@[k as int]);
                            match idx.pos_by_version(&tags[k].version) {
                                Some(pos) => {
                                    kept.push((tags[k].label.clone(), pos));
                                    assert(kept@.map_values(|t: (String, usize)| (t.0@, t.1 as int))
                                        =~= before.map_values(|t: (String, usize)| (t.0@, t.1 as int)).push(
                                        (tags@[k as int].label@, pos as int),
                                    ));
                                },
                                None => {},
                            }
                            k += 1;
                        }
                        assert(tags@.take(m as int) =~= tags@);
                        let ghost versions = idx@.versions;
                        let ghost tarballs = idx@.tarballs;
                        let ghost deps = idx@.deps;
                        idx.dist_tags = kept;
                        assert(idx@.versions == versions);
                        assert(idx@.tarballs == tarballs);
                        assert(idx@.deps == deps);
                    },
                    None => {},
                }
            },
            None => {
                assert(idx@.versions =~= Seq::empty());
                assert(idx@.tarballs =~= Seq::empty());
                assert(idx@.deps =~= Seq::empty());
                assert(idx@.dist_tags =~= Seq::empty());
            },
        }
        idx
    }

    /// The position of the first version that is the same as `version`.
    pub fn pos_by_version(&self, version: &Version) -> (r: Option<usize>)
        ensures
            r is Some <==> position_of_version(self@.versions, version@) is Some,
            r matches Some(i) ==> position_of_version(self@.versions, version@) == Some(i as int) && i
                < self.versions@.len(),
    {
        let n = self.versions.len();
        let mut i: usize = 0;
        while i < n
            invariant
                n == self.versions@.len(),
                i <= n,
                position_of_version(self@.versions, version@) == position_from(
                    self@.versions,
                    version@,
                    i as int,
                ),
            decreases n - i,
        {
            if self.versions[i].same(version) {
                return Some(i);
            }
            i += 1;
        }
        None
    }

    /// The tarball kept at a position, if one is kept there.
    pub fn tarball_by_pos(&self, pos: usize) -> (r: Option<&TarballUrl>)
        ensures
            r is Some <==> pos < self.tarballs@.len() && self.tarballs@[pos as int] is Some,
            r matches Some(t) ==> Some(*t) == self.tarballs@[pos as int],
    {
        if pos < self.tarballs.len() {
            self.tarballs[pos].as_ref()
        } else {
            None
        }
    }

    /// The tarball of the first version that is the same as `version`.
    pub fn tarball_by_version(&self, version: &Version) -> (r: Option<&TarballUrl>)
        ensures
            r is Some <==> self@.tarball_by_version(version@) is Some,
            r matches Some(t) ==> Some(t@) == self@.tarball_by_version(version@),
    {
        proof {
            lemma_position_from(self@.versions, version@, 0);
        }
        match self.pos_by_version(version) {
            Some(pos) => self.tarball_by_pos(pos),
            None => None,
        }
    }

    /// The dependencies of the first version that is the same as
    /// `version`.
    pub fn deps_by_version(&self, version: &Version) -> (r: Option<&Vec<IdxDep>>)
        ensures
            r is Some <==> self@.deps_by_version(version@) is Some,
            r matches Some(d) ==> Some(deps_view(d@)) == self@.deps_by_version(version@),
    {
        match self.pos_by_version(version) {
            Some(pos) => if pos < self.deps.len() {
                Some(&self.deps[pos])
            } else {
                None
            },
            None => None,
        }
    }

    /// The version that a dist-tag stands for. In a well-formed index a
    /// label has one entry at most, and the version is that of whichever
    /// entry has the label.
    pub fn version_by_tag(&self, tag: &str) -> (r: Option<&Version>)
        ensures
            r is Some <==> self@.version_by_tag(tag@) is Some,
            r matches Some(v) ==> Some(v@) == self@.version_by_tag(tag@),
            self@.wf() ==> forall|k: int|
                0 <= k < self@.dist_tags.len() && (#[trigger] self@.dist_tags[k]).0 == tag@ ==> (r matches Some(
                    v,
                ) && v@ == self@.versions[self@.dist_tags[k].1]),
    {
        proof {
            if self@.wf() {
                assert forall|k: int|
                    0 <= k < self@.dist_tags.len() && (#[trigger] self@.dist_tags[k]).0 == tag@ implies self@.version_by_tag(
                    tag@,
                ) == Some(self@.versions[self@.dist_tags[k].1]) by {
                    law_tag_lookup_unique(self@, tag@, k);
                }
            }
        }
        let key = String::from_str(tag);
        let n = self.dist_tags.len();
        let mut k: usize = 0;
        while k < n
            invariant
                n == self.dist_tags@.len(),
                k <= n,
                key@ == tag@,
                tag_from(self@.dist_tags, tag@, 0) == tag_from(self@.dist_tags, tag@, k as int),
            decreases n - k,
        {
            if self.dist_tags[k].0 == key {
                let pos = self.dist_tags[k].1;
                if pos < self.versions.len() {
                    return Some(&self.versions[pos]);
                } else {
                    return None;
                }
            }
            k += 1;
        }
        None
    }
}

/// Stores a frame that was made for a package: the frame is put into the
/// cache under the package unless the package has one there, and handed
/// back. A frame that could not be made changes nothing, and its error is
/// handed back.
pub fn store_frame(package: &str, framed: Result<Vec<u8>, ErrorKind>, meta_cache: &mut MetaCache) -> (r: Result<
    Vec<u8>,
    ErrorKind,
>)
    requires
        old(meta_cache).wf(),
    ensures
        final(meta_cache).wf(),
        r == framed,
        framed matches Ok(frame) ==> final(meta_cache)@ == spec_insert(old(meta_cache)@, package@, frame@),
        framed is Err ==> final(meta_cache)@ == old(meta_cache)@,
{
    match framed {
        Ok(frame) => {
            meta_cache.insert(package, frame.as_slice());
            Ok(frame)
        },
        Err(e) => Err(e),
    }
}

/// Stores the index of a package: its payload is put into a frame, the
/// frame is put into the cache under the package unless the package has
/// one there, and handed back to be written beside the metadata
/// document.
pub fn write_package_idx(package: &str, payload: &[u8], meta_cache: &mut MetaCache) -> (r: Result<
    Vec<u8>,
    ErrorKind,
>)
    requires
        old(meta_cache).wf(),
    ensures
        final(meta_cache).wf(),
        r matches Ok(frame) && frame@ == frame_of(payload@, INDEX_LEVEL as int) && unframe(frame@) == Some(
            payload@,
        ) && final(meta_cache)@ == spec_insert(old(meta_cache)@, package@, frame@),
{
    store_frame(package, encode(payload), meta_cache)
}

} // verus!
