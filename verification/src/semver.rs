//! Versions and version ranges.
//!
//! A version and a range are held as text. Everything that needs the semver
//! grammar or its order is computed by the `nodejs-semver` crate; the
//! functions below that call it are trusted, and the spec functions without
//! a body name what it returns.

use vstd::prelude::*;

verus! {

/// Whether `nodejs_semver::Version::parse` accepts the text.
pub uninterp spec fn version_parses(text: Seq<char>) -> bool;

/// The text that `Display` gives for the version parsed from `text`.
pub uninterp spec fn version_display(text: Seq<char>) -> Seq<char>;

/// What `==` says of the versions parsed from the two texts; `None` where
/// one of them is no version.
pub uninterp spec fn version_same(a: Seq<char>, b: Seq<char>) -> Option<bool>;

/// Whether `nodejs_semver::Range::parse` accepts the text.
pub uninterp spec fn range_parses(text: Seq<char>) -> bool;

/// What `Range::satisfies` says of the range and the version parsed from
/// the two texts; `None` where one of them does not parse.
pub uninterp spec fn range_satisfies(range: Seq<char>, version: Seq<char>) -> Option<bool>;

/// What `Range::allows_all` says of the ranges parsed from the two texts,
/// the first being the receiver; `None` where one of them does not parse.
pub uninterp spec fn range_allows_all(range: Seq<char>, other: Seq<char>) -> Option<bool>;

/// The text of the version that `Range::max_satisfying` picks from
/// `versions`; `None` where it picks none or a text does not parse.
pub uninterp spec fn range_max_satisfying(range: Seq<char>, versions: Seq<Seq<char>>) -> Option<
    Seq<char>,
>;

/// Whether the version parsed from `a` is at most the one parsed from `b`
/// in the order of `nodejs_semver::Version`; it speaks of texts that
/// parse.
pub uninterp spec fn version_at_most(a: Seq<char>, b: Seq<char>) -> bool;

/// Whether `pick` renders the highest version of the list that the range
/// admits: a version of the list that lies in the range, with every
/// version of the list that lies in the range at most as high.
pub open spec fn is_highest_admitted(range: Seq<char>, versions: Seq<Seq<char>>, pick: Seq<char>) -> bool {
    exists|i: int|
        0 <= i < versions.len() && range_satisfies(range, #[trigger] versions[i]) == Some(true) && pick
            == version_display(versions[i]) && forall|j: int|
            0 <= j < versions.len() && range_satisfies(range, #[trigger] versions[j]) == Some(true)
                ==> version_at_most(versions[j], versions[i])
}

/// The texts of a list of versions.
pub open spec fn version_texts(versions: Seq<Version>) -> Seq<Seq<char>> {
    versions.map_values(|v: Version| v@)
}

/// Calls `nodejs_semver::Version::parse` and renders the result with its
/// `Display` impl. Trusted: the result is `Some` exactly when the text
/// parses, and then holds the rendered text.
#[verifier::external_body]
fn semver_version_display(text: &str) -> (r: Option<String>)
    ensures
        r is Some <==> version_parses(text@),
        r matches Some(s) ==> s@ == version_display(text@),
{
    match nodejs_semver::Version::parse(text) {
        Ok(v) => Some(v.to_string()),
        Err(_) => None,
    }
}

/// Compares two versions with `nodejs_semver::Version`'s `==`. Trusted: the
/// result is the named comparison and is `Some` exactly when both texts
/// parse.
#[verifier::external_body]
fn semver_version_same(a: &str, b: &str) -> (r: Option<bool>)
    ensures
        r == version_same(a@, b@),
        r is Some <==> (version_parses(a@) && version_parses(b@)),
{
    match (nodejs_semver::Version::parse(a), nodejs_semver::Version::parse(b)) {
        (Ok(x), Ok(y)) => Some(x == y),
        _ => None,
    }
}

/// Calls `nodejs_semver::Range::parse`. Trusted: the result says whether
/// the text parses.
#[verifier::external_body]
fn semver_range_parses(text: &str) -> (r: bool)
    ensures
        r == range_parses(text@),
{
    nodejs_semver::Range::parse(text).is_ok()
}

/// Calls `nodejs_semver::Range::satisfies`. Trusted: the result is the
/// named answer and is `Some` exactly when both texts parse.
#[verifier::external_body]
fn semver_satisfies(range: &str, version: &str) -> (r: Option<bool>)
    ensures
        r == range_satisfies(range@, version@),
        r is Some <==> (range_parses(range@) && version_parses(version@)),
{
    match (nodejs_semver::Range::parse(range), nodejs_semver::Version::parse(version)) {
        (Ok(r), Ok(v)) => Some(r.satisfies(&v)),
        _ => None,
    }
}

/// Calls `nodejs_semver::Range::allows_all`. Trusted: the result is the
/// named answer and is `Some` exactly when both texts parse.
#[verifier::external_body]
fn semver_allows_all(range: &str, other: &str) -> (r: Option<bool>)
    ensures
        r == range_allows_all(range@, other@),
        r is Some <==> (range_parses(range@) && range_parses(other@)),
{
    match (nodejs_semver::Range::parse(range), nodejs_semver::Range::parse(other)) {
        (Ok(a), Ok(b)) => Some(a.allows_all(&b)),
        _ => None,
    }
}

/// Calls `nodejs_semver::Range::max_satisfying` on the parsed versions and
/// renders the version it picks. Trusted: the result is the named pick; a
/// pick renders a version of the list that satisfies the range, and every
/// version of the list that satisfies the range is at most as high in the
/// order of versions; and where every text parses, nothing is picked
/// exactly when no version of the list satisfies the range.
#[verifier::external_body]
fn semver_max_satisfying(range: &str, versions: &Vec<Version>) -> (r: Option<String>)
    ensures
        r matches Some(s) ==> range_max_satisfying(range@, version_texts(versions@)) == Some(s@),
        r is None ==> range_max_satisfying(range@, version_texts(versions@)) is None,
        r matches Some(s) ==> exists|i: int|
            0 <= i < versions@.len() && range_satisfies(range@, #[trigger] versions@[i]@) == Some(
                true,
            ) && s@ == version_display(versions@[i]@) && forall|j: int|
                0 <= j < versions@.len() && range_satisfies(range@, #[trigger] versions@[j]@) == Some(
                    true,
                ) ==> version_at_most(versions@[j]@, versions@[i]@),
        range_parses(range@) && (forall|i: int|
            0 <= i < versions@.len() ==> version_parses(#[trigger] versions@[i]@)) ==> (r is None
            <==> forall|i: int|
            0 <= i < versions@.len() ==> range_satisfies(range@, #[trigger] versions@[i]@) != Some(
                true,
            )),
{
    let range = nodejs_semver::Range::parse(range).ok()?;
    let mut parsed = Vec::with_capacity(versions.len());
    for v in versions.iter() {
        parsed.push(nodejs_semver::Version::parse(v.text.as_str()).ok()?);
    }
    range.max_satisfying(&parsed).map(|v| v.to_string())
}

/// A semantic version, held as the text that the semver crate renders for
/// it.
#[derive(Debug)]
pub struct Version {
    text: String,
}

impl View for Version {
    type V = Seq<char>;

    closed spec fn view(&self) -> Seq<char> {
        self.text@
    }
}

impl Clone for Version {
    fn clone(&self) -> (r: Self)
        ensures
            r@ == self@,
    {
        Version { text: self.text.clone() }
    }
}

impl Version {
    /// Parses a version. `None` where the text is no version; otherwise the
    /// version, in canonical rendering.
    pub fn parse(text: &str) -> (r: Option<Version>)
        ensures
            r is Some <==> version_parses(text@),
            r matches Some(v) ==> v@ == version_display(text@),
    {
        match semver_version_display(text) {
            Some(s) => Some(Version { text: s }),
            None => None,
        }
    }

    /// The version's text.
    pub fn as_str(&self) -> (r: &str)
        ensures
            r@ == self@,
    {
        self.text.as_str()
    }

    /// The version's text, owned.
    pub fn to_text(&self) -> (r: String)
        ensures
            r@ == self@,
    {
        self.text.clone()
    }

    /// Whether two versions are equal as the semver crate compares them
    /// (build metadata is ignored there). Two texts of which one is no
    /// version are not the same.
    pub open spec fn spec_same(&self, other: &Version) -> bool {
        version_same(self@, other@) == Some(true)
    }

    /// Compares two versions.
    pub fn same(&self, other: &Version) -> (r: bool)
        ensures
            r == self.spec_same(other),
    {
        match semver_version_same(self.text.as_str(), other.text.as_str()) {
            Some(b) => b,
            None => false,
        }
    }
}

/// A version range, held as its source text.
#[derive(Debug)]
pub struct VersionRange {
    text: String,
}

impl View for VersionRange {
    type V = Seq<char>;

    closed spec fn view(&self) -> Seq<char> {
        self.text@
    }
}

impl Clone for VersionRange {
    fn clone(&self) -> (r: Self)
        ensures
            r@ == self@,
    {
        VersionRange { text: self.text.clone() }
    }
}

impl VersionRange {
    /// Parses a range. `None` where the text is no range; otherwise the
    /// range with that text.
    pub fn parse(text: &str) -> (r: Option<VersionRange>)
        ensures
            r is Some <==> range_parses(text@),
            r matches Some(range) ==> range@ == text@,
    {
        if semver_range_parses(text) {
            Some(VersionRange { text: String::from_str(text) })
        } else {
            None
        }
    }

    /// The range that admits exactly the given version, where the version's
    /// text is a range.
    pub fn exactly(version: &Version) -> (r: Option<VersionRange>)
        ensures
            r is Some <==> range_parses(version@),
            r matches Some(range) ==> range@ == version@,
    {
        VersionRange::parse(version.as_str())
    }

    /// The range's text.
    pub fn as_str(&self) -> (r: &str)
        ensures
            r@ == self@,
    {
        self.text.as_str()
    }

    /// Whether the version lies in the range.
    pub open spec fn spec_satisfies(&self, version: &Version) -> bool {
        range_satisfies(self@, version@) == Some(true)
    }

    /// Whether the version lies in the range.
    pub fn satisfies(&self, version: &Version) -> (r: bool)
        ensures
            r == self.spec_satisfies(version),
    {
        match semver_satisfies(self.text.as_str(), version.as_str()) {
            Some(b) => b,
            None => false,
        }
    }

    /// Whether this range is found to cover `other`.
    pub open spec fn spec_allows_all(&self, other: &VersionRange) -> bool {
        range_allows_all(self@, other@) == Some(true)
    }

    /// Whether this range is found to cover `other`.
    pub fn allows_all(&self, other: &VersionRange) -> (r: bool)
        ensures
            r == self.spec_allows_all(other),
    {
        match semver_allows_all(self.text.as_str(), other.as_str()) {
            Some(b) => b,
            None => false,
        }
    }

    /// The pick of `max_satisfying` among the versions, as a text.
    pub open spec fn spec_max_satisfying(&self, versions: Seq<Version>) -> Option<Seq<char>> {
        range_max_satisfying(self@, version_texts(versions))
    }

    /// The highest version of the list that lies in the range, if any
    /// does. The pick is the rendering of a version of the list that lies
    /// in the range, and no version of the list that lies in the range is
    /// higher; where the range and every version parse, there is a pick
    /// exactly when some version of the list lies in the range.
    pub fn max_satisfying(&self, versions: &Vec<Version>) -> (r: Option<Version>)
        ensures
            r is Some <==> self.spec_max_satisfying(versions@) is Some,
            r matches Some(v) ==> self.spec_max_satisfying(versions@) == Some(v@),
            r matches Some(v) ==> is_highest_admitted(self@, version_texts(versions@), v@),
            range_parses(self@) && (forall|i: int|
                0 <= i < versions@.len() ==> version_parses(#[trigger] versions@[i]@)) ==> (r is Some
                <==> exists|i: int| 0 <= i < versions@.len() && self.spec_satisfies(&#[trigger] versions@[i])),
    {
        match semver_max_satisfying(self.text.as_str(), versions) {
            Some(s) => {
                proof {
                    let texts = version_texts(versions@);
                    let i = choose|i: int|
                        0 <= i < versions@.len() && range_satisfies(self@, #[trigger] versions@[i]@) == Some(
                            true,
                        ) && s@ == version_display(versions@[i]@) && forall|j: int|
                            0 <= j < versions@.len() && range_satisfies(self@, #[trigger] versions@[j]@)
                                == Some(true) ==> version_at_most(versions@[j]@, versions@[i]@);
                    assert(texts[i] == versions@[i]@);
                    assert forall|j: int|
                        0 <= j < texts.len() && range_satisfies(self@, #[trigger] texts[j]) == Some(
                            true,
                        ) implies version_at_most(texts[j], texts[i]) by {
                        assert(texts[j] == versions@[j]@);
                    }
                    assert(range_satisfies(self@, texts[i]) == Some(true));
                }
                Some(Version { text: s })
            },
            None => None,
        }
    }
}

} // verus!
