//! The metadata cache: the stored index of each package, kept in memory.
//! Entries are only ever added.

use crate::codec::{decode, unframe};
use crate::error::{ErrorKind, ErrorSpec};
use crate::range_cache::{entry_of, names_contain, names_distinct, position_of};
use vstd::prelude::*;

verus! {

/// What `insert` does to the cache's contents: a package that is there
/// keeps its blob, a new one gets the blob given.
pub open spec fn spec_insert(m: Map<Seq<char>, Seq<u8>>, package: Seq<char>, blob: Seq<u8>) -> Map<
    Seq<char>,
    Seq<u8>,
> {
    if m.dom().contains(package) {
        m
    } else {
        m.insert(package, blob)
    }
}

/// The metadata cache is append-only: a second insertion under a package
/// is refused and changes nothing, so the package keeps the blob of the
/// first one, and what is read for it is the payload of that blob.
pub proof fn law_append_only(m: Map<Seq<char>, Seq<u8>>, package: Seq<char>, first: Seq<u8>, second: Seq<u8>)
    ensures
        ({
            let once = spec_insert(m, package, first);
            let twice = spec_insert(once, package, second);
            &&& once.dom().contains(package)
            &&& twice == once
            &&& !m.dom().contains(package) ==> twice[package] == first && unframe(twice[package]) == unframe(
                first,
            )
        }),
{
}

/// The stored indices, one blob after the other, and where each package's
/// blob lies.
pub struct MetaCache {
    names: Vec<String>,
    spans: Vec<(usize, usize)>,
    data: Vec<u8>,
}

impl View for MetaCache {
    type V = Map<Seq<char>, Seq<u8>>;

    /// The blob of each package.
    closed spec fn view(&self) -> Map<Seq<char>, Seq<u8>> {
        Map::new(
            |p: Seq<char>| names_contain(self.names@, p),
            |p: Seq<char>|
                {
                    let i = choose|i: int| entry_of(self.names@, p, i);
                    self.data@.subrange(self.spans@[i].0 as int, self.spans@[i].0 + self.spans@[i].1)
                },
        )
    }
}

impl MetaCache {
    /// Each package stands once, and its blob lies within the data.
    pub closed spec fn wf(&self) -> bool {
        &&& self.names@.len() == self.spans@.len()
        &&& names_distinct(self.names@)
        &&& forall|i: int|
            0 <= i < self.spans@.len() ==> (#[trigger] self.spans@[i]).0 + self.spans@[i].1
                <= self.data@.len()
    }

    /// The number of bytes stored.
    pub closed spec fn spec_size(&self) -> nat {
        self.data@.len()
    }

    proof fn lemma_lookup(&self, package: Seq<char>, i: int)
        requires
            self.wf(),
            entry_of(self.names@, package, i),
        ensures
            self@.dom().contains(package),
            self@[package] == self.data@.subrange(
                self.spans@[i].0 as int,
                self.spans@[i].0 + self.spans@[i].1,
            ),
    {
        let c = choose|k: int| entry_of(self.names@, package, k);
        assert(c == i);
    }

    /// The empty cache.
    pub fn new() -> (r: MetaCache)
        ensures
            r.wf(),
            r@ == Map::<Seq<char>, Seq<u8>>::empty(),
            r.spec_size() == 0,
    {
        let r = MetaCache { names: Vec::new(), spans: Vec::new(), data: Vec::new() };
        assert(r@ =~= Map::<Seq<char>, Seq<u8>>::empty());
        r
    }

    /// The number of bytes stored.
    pub fn size(&self) -> (r: usize)
        ensures
            r == self.spec_size(),
    {
        self.data.len()
    }

    /// Whether the package has a blob.
    pub fn contains(&self, package: &str) -> (r: bool)
        ensures
            r == self@.dom().contains(package@),
    {
        position_of(&self.names, package).is_some()
    }

    /// Stores a blob under a package, unless the package has one: then
    /// nothing changes. The result says whether the blob was stored.
    pub fn insert(&mut self, package: &str, data: &[u8]) -> (r: bool)
        requires
            old(self).wf(),
        ensures
            final(self).wf(),
            r == !old(self)@.dom().contains(package@),
            final(self)@ == spec_insert(old(self)@, package@, data@),
            final(self).spec_size() == old(self).spec_size() + (if r {
                data@.len()
            } else {
                0
            }),
    {
        if position_of(&self.names, package).is_some() {
            return false;
        }
        let ghost before = *self;
        let len = data.len();
        let pos = self.data.len();
        let mut i: usize = 0;
        while i < len
            invariant
                len == data@.len(),
                i <= len,
                self.names == before.names,
                self.spans == before.spans,
                self.data@ == before.data@ + data@.take(i as int),
                pos == before.data@.len(),
            decreases len - i,
        {
            self.data.push(data[i]);
            assert(before.data@ + data@.take(i + 1) =~= (before.data@ + data@.take(i as int)).push(
                data@[i as int],
            ));
            i += 1;
        }
        self.names.push(String::from_str(package));
        self.spans.push((pos, len));
        proof {
            let n = before.names@.len() as int;
            assert(data@.take(len as int) =~= data@);
            assert forall|a: int, b: int|
                0 <= a < self.names@.len() && 0 <= b < self.names@.len() && #[trigger] self.names@[a]@
                    == #[trigger] self.names@[b]@ implies a == b by {
                if a == n && b < n {
                    assert(entry_of(before.names@, package@, b));
                }
                if b == n && a < n {
                    assert(entry_of(before.names@, package@, a));
                }
            }
            assert(self.wf());
            let target = spec_insert(before@, package@, data@);
            assert(entry_of(self.names@, package@, n));
            assert forall|p: Seq<char>| self@.dom().contains(p) <==> target.dom().contains(p) by {
                if self@.dom().contains(p) {
                    let k = choose|k: int| entry_of(self.names@, p, k);
                    if k < n {
                        assert(entry_of(before.names@, p, k));
                    }
                }
                if before@.dom().contains(p) {
                    let k = choose|k: int| entry_of(before.names@, p, k);
                    assert(entry_of(self.names@, p, k));
                }
            }
            assert forall|p: Seq<char>| self@.dom().contains(p) implies #[trigger] self@[p] == target[p] by {
                let k = choose|k: int| entry_of(self.names@, p, k);
                self.lemma_lookup(p, k);
                if k < n {
                    assert(entry_of(before.names@, p, k));
                    before.lemma_lookup(p, k);
                    assert(self@[p] =~= before@[p]);
                } else {
                    assert(self@[p] =~= data@);
                }
            }
            assert(self@ =~= target);
        }
        true
    }

    /// The blob of a package, as it was stored.
    pub fn blob(&self, package: &str) -> (r: Option<Vec<u8>>)
        requires
            self.wf(),
        ensures
            r is Some <==> self@.dom().contains(package@),
            r matches Some(b) ==> b@ == self@[package@],
    {
        match position_of(&self.names, package) {
            Some(i) => {
                proof {
                    self.lemma_lookup(package@, i as int);
                }
                let (pos, len) = self.spans[i];
                let total = self.data.len();
                let mut out: Vec<u8> = Vec::new();
                let mut k: usize = 0;
                assert(self.data@.subrange(pos as int, pos as int) =~= Seq::<u8>::empty());
                while k < len
                    invariant
                        k <= len,
                        total == self.data@.len(),
                        pos + len <= total,
                        out@ == self.data@.subrange(pos as int, pos + k),
                    decreases len - k,
                {
                    out.push(self.data[pos + k]);
                    assert(self.data@.subrange(pos as int, pos + k + 1) =~= self.data@.subrange(
                        pos as int,
                        pos + k,
                    ).push(self.data@[pos + k]));
                    k += 1;
                }
                Some(out)
            },
            None => None,
        }
    }

    /// The index payload of a package: its blob, taken out of its frame.
    /// `None` for a package that has no blob. The payload of a blob that
    /// is a frame comes back. A blob that is no frame gives an error; the
    /// cache is then corrupt.
    pub fn get(&self, package: &str) -> (r: Option<Result<Vec<u8>, ErrorKind>>)
        requires
            self.wf(),
        ensures
            r is Some <==> self@.dom().contains(package@),
            self@.dom().contains(package@) ==> (unframe(self@[package@]) matches Some(payload) ==> (r matches Some(
                Ok(p),
            ) && p@ == payload)),
            self@.dom().contains(package@) && unframe(self@[package@]) is None ==> r matches Some(Err(_)),
            self@.dom().contains(package@) && self@[package@].len() < 8 ==> (r matches Some(Err(e)) && e@
                == ErrorSpec::Io("frame too short"@)),
    {
        match self.blob(package) {
            Some(b) => Some(decode(b.as_slice())),
            None => None,
        }
    }
}

} // verus!
