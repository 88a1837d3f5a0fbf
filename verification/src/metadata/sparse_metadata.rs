//! What is read of a registry's metadata document.

use crate::semver::{range_parses, version_same, Version, VersionRange};
use crate::text::{blank, chars_of, find_last, find_last_char, has_prefix, is_blank, matches_at, text_of};
use vstd::prelude::*;

verus! {

/// A dependency specification as a mathematical value.
pub enum DepSpec {
    /// A dist-tag, to be looked up in the index of the package named.
    Tag(Seq<char>),
    /// A version range.
    Range(Seq<char>),
    /// An alias: another package, with a range.
    SubDep { package: Seq<char>, range: Seq<char> },
    /// Anything that is not followed.
    Other(Seq<char>),
}

/// Whether the text of a specification is one that is not followed: it is
/// blank, or begins with one of the reserved prefixes.
pub open spec fn is_unfollowed(raw: Seq<char>) -> bool {
    ||| is_blank(raw)
    ||| has_prefix(raw, "link:"@)
    ||| has_prefix(raw, "git"@)
    ||| has_prefix(raw, "gist"@)
    ||| has_prefix(raw, "workspace:"@)
    ||| has_prefix(raw, "http"@)
    ||| has_prefix(raw, "file:"@)
    ||| has_prefix(raw, "."@)
    ||| has_prefix(raw, "/"@)
}

/// The alias that a specification names: it begins with `npm:`, and what
/// follows its last `@` is a range. The result holds the name before that
/// `@` and the range after it.
pub open spec fn alias_of(raw: Seq<char>) -> Option<(Seq<char>, Seq<char>)> {
    if has_prefix(raw, "npm:"@) {
        let rest = raw.skip("npm:"@.len() as int);
        match find_last_char(rest, '@', rest.len() as int) {
            Some(at) => if range_parses(rest.skip(at + 1)) {
                Some((rest.take(at), rest.skip(at + 1)))
            } else {
                None
            },
            None => None,
        }
    } else {
        None
    }
}

/// How a specification is read: as a range where it is one; else as not
/// followed; else as an alias; else as a tag.
pub open spec fn classify(raw: Seq<char>) -> DepSpec {
    if range_parses(raw) {
        DepSpec::Range(raw)
    } else if is_unfollowed(raw) {
        DepSpec::Other(raw)
    } else {
        match alias_of(raw) {
            Some((package, range)) => DepSpec::SubDep { package, range },
            None => DepSpec::Tag(raw),
        }
    }
}

/// An alias: the package and range that a dependency stands for.
#[derive(Debug)]
pub struct SubDep {
    pub package: String,
    pub range: VersionRange,
}

impl Clone for SubDep {
    fn clone(&self) -> (r: Self)
        ensures
            r.package@ == self.package@,
            r.range@ == self.range@,
    {
        SubDep { package: self.package.clone(), range: self.range.clone() }
    }
}

/// A dependency specification.
#[derive(Debug)]
pub enum DepVersion {
    Tag(String),
    Range(VersionRange),
    SubDep(SubDep),
    Other(String),
}

impl View for DepVersion {
    type V = DepSpec;

    open spec fn view(&self) -> DepSpec {
        match self {
            DepVersion::Tag(s) => DepSpec::Tag(s@),
            DepVersion::Range(r) => DepSpec::Range(r@),
            DepVersion::SubDep(d) => DepSpec::SubDep { package: d.package@, range: d.range@ },
            DepVersion::Other(s) => DepSpec::Other(s@),
        }
    }
}

/// Whether the text begins with the given prefix.
fn begins_with(s: &Vec<char>, prefix: &str) -> (r: bool)
    ensures
        r == has_prefix(s@, prefix@),
{
    let p = chars_of(prefix);
    matches_at(s, 0, &p)
}

/// Whether the specification is one that is not followed.
fn unfollowed(chars: &Vec<char>) -> (r: bool)
    ensures
        r == is_unfollowed(chars@),
{
    blank(chars) || begins_with(chars, "link:") || begins_with(chars, "git") || begins_with(
        chars,
        "gist",
    ) || begins_with(chars, "workspace:") || begins_with(chars, "http") || begins_with(
        chars,
        "file:",
    ) || begins_with(chars, ".") || begins_with(chars, "/")
}

/// The alias that the specification names, if it names one.
fn alias(chars: &Vec<char>) -> (r: Option<SubDep>)
    ensures
        r is Some <==> alias_of(chars@) is Some,
        r matches Some(d) ==> alias_of(chars@) == Some((d.package@, d.range@)),
{
    let prefix = chars_of("npm:");
    if !matches_at(chars, 0, &prefix) {
        return None;
    }
    let n = chars.len();
    let skip = prefix.len();
    let rest = chars_of(text_of(chars, skip, n).as_str());
    assert(rest@ =~= chars@.skip("npm:"@.len() as int));
    match find_last(&rest, '@') {
        Some(at) => {
            let m = rest.len();
            let range_text = text_of(&rest, at + 1, m);
            assert(range_text@ =~= rest@.skip(at + 1));
            match VersionRange::parse(range_text.as_str()) {
                Some(range) => {
                    let package = text_of(&rest, 0, at);
                    assert(package@ =~= rest@.take(at as int));
                    Some(SubDep { package, range })
                },
                None => None,
            }
        },
        None => None,
    }
}

impl DepVersion {
    /// Reads a dependency specification.
    pub fn classify(raw: &str) -> (r: DepVersion)
        ensures
            r@ == classify(raw@),
    {
        match VersionRange::parse(raw) {
            Some(range) => DepVersion::Range(range),
            None => {
                let chars = chars_of(raw);
                if unfollowed(&chars) {
                    DepVersion::Other(String::from_str(raw))
                } else {
                    match alias(&chars) {
                        Some(d) => DepVersion::SubDep(d),
                        None => DepVersion::Tag(String::from_str(raw)),
                    }
                }
            },
        }
    }
}

/// One entry of a dependency table.
#[derive(Debug)]
pub struct Dep {
    pub package: String,
    pub range: DepVersion,
}

/// Where a version's tarball is to be had.
#[derive(Debug)]
pub struct Dist {
    pub tarball: String,
}

/// What is read of one published version. Each table holds its entries in
/// the order of the document.
#[derive(Debug)]
pub struct VersionInfo {
    pub dist: Dist,
    pub dependencies: Option<Vec<Dep>>,
    pub dev_dependencies: Option<Vec<Dep>>,
    pub optional_dependencies: Option<Vec<Dep>>,
    pub peer_dependencies: Option<Vec<Dep>>,
}

/// A dist-tag: a label and the version that it stands for.
#[derive(Debug)]
pub struct DistTag {
    pub label: String,
    pub version: Version,
}

/// One entry of the `versions` table.
#[derive(Debug)]
pub struct VersionEntry {
    pub version: Version,
    pub info: Option<VersionInfo>,
}

/// What is read of a package's metadata document. Entries stand in the
/// order in which the document's tables are walked.
#[derive(Debug)]
pub struct SparseMetadata {
    pub name: String,
    pub dist_tags: Option<Vec<DistTag>>,
    pub versions: Option<Vec<VersionEntry>>,
}

/// Whether the entries come from a table: no package stands twice. A
/// table that is absent holds nothing.
pub open spec fn table_distinct(table: Option<Vec<Dep>>) -> bool {
    match table {
        Some(t) => forall|i: int, j: int|
            0 <= i < j < t@.len() ==> (#[trigger] t@[i]).package@ != (#[trigger] t@[j]).package@,
        None => true,
    }
}

impl VersionInfo {
    /// Each of the four tables names a package once at most.
    pub open spec fn wf(&self) -> bool {
        &&& table_distinct(self.dependencies)
        &&& table_distinct(self.dev_dependencies)
        &&& table_distinct(self.optional_dependencies)
        &&& table_distinct(self.peer_dependencies)
    }
}

/// Whether no label stands twice among the dist-tags.
pub open spec fn labels_distinct(tags: Seq<DistTag>) -> bool {
    forall|i: int, j: int|
        0 <= i < j < tags.len() ==> (#[trigger] tags[i]).label@ != (#[trigger] tags[j]).label@
}

/// Whether no two entries are of the same version.
pub open spec fn versions_distinct(entries: Seq<VersionEntry>) -> bool {
    forall|i: int, j: int|
        0 <= i < j < entries.len() ==> version_same(
            (#[trigger] entries[i]).version@,
            (#[trigger] entries[j]).version@,
        ) != Some(true)
}

impl SparseMetadata {
    /// The entries come from the tables of a document: no label stands
    /// twice among the dist-tags, no two entries are of the same version,
    /// and no table of a version names a package twice.
    pub open spec fn wf(&self) -> bool {
        &&& match self.dist_tags {
            Some(tags) => labels_distinct(tags@),
            None => true,
        }
        &&& match self.versions {
            Some(entries) => versions_distinct(entries@) && forall|i: int|
                0 <= i < entries@.len() ==> ((#[trigger] entries@[i]).info matches Some(info) ==> info.wf()),
            None => true,
        }
    }
}

} // verus!
