//! Deduplicating storage for byte strings, living for one compilation unit.

use vstd::prelude::*;

verus! {

/// A typed dense-integer handle naming one interned byte string.
#[derive(Clone, Copy, Debug, PartialEq, Eq, Structural, Hash, PartialOrd, Ord)]
pub struct StringRef(pub u32);

impl StringRef {
    /// Wraps a raw dense index.
    pub fn new(index: u32) -> (r: Self)
        ensures
            r.0 == index,
    {
        StringRef(index)
    }

    /// The raw dense index behind this reference.
    pub fn index(self) -> (r: u32)
        ensures
            r == self.0,
    {
        self.0
    }
}

/// Deduplicated byte buffers addressed by `StringRef`.
///
/// Interning equal bytes always yields the same reference; entries are never
/// removed individually and live until the whole pool is cleared.
pub struct StringPool {
    strings: Vec<Vec<u8>>,
}

impl StringPool {
    /// The stored byte strings, in allocation order.
    pub closed spec fn contents(self) -> Seq<Seq<u8>> {
        self.strings@.map(|i: int, s: Vec<u8>| s@)
    }

    /// Well-formed pools hold pairwise-distinct contents, addressable by `u32`.
    pub open spec fn wf(self) -> bool {
        &&& forall|i: int, j: int|
            0 <= i < j < self.contents().len() ==> self.contents()[i] != self.contents()[j]
        &&& self.contents().len() <= u32::MAX
    }

    /// An empty pool.
    pub fn new() -> (r: Self)
        ensures
            r.wf(),
            r.contents() =~= Seq::<Seq<u8>>::empty(),
    {
        StringPool { strings: Vec::new() }
    }

    /// How many distinct strings the pool holds.
    pub fn len(&self) -> (r: usize)
        ensures
            r == self.contents().len(),
    {
        self.strings.len()
    }

    /// The bytes behind a reference.
    pub fn get(&self, r: StringRef) -> (s: &Vec<u8>)
        requires
            r.0 < self.contents().len(),
        ensures
            s@ == self.contents()[r.0 as int],
    {
        &self.strings[r.0 as usize]
    }

    /// Returns the existing reference for equal content, else stores the
    /// bytes in a fresh dense slot; equal bytes always map to one reference.
    pub fn intern(&mut self, string: &[u8]) -> (r: StringRef)
        requires
            old(self).wf(),
            old(self).contents().len() < u32::MAX,
        ensures
            final(self).wf(),
            r.0 < final(self).contents().len(),
            final(self).contents()[r.0 as int] == string@,
            forall|i: int|
                0 <= i < final(self).contents().len() && final(self).contents()[i] == string@ ==> i == r.0 as int,
            old(self).contents().contains(string@) ==> final(self).contents() == old(self).contents(),
            !old(self).contents().contains(string@) ==> {
                &&& final(self).contents() =~= old(self).contents().push(string@)
                &&& r.0 == old(self).contents().len()
            },
    {
        let n = self.strings.len();
        let mut i: usize = 0;
        while i < n
            invariant
                n == self.contents().len(),
                i <= n,
                self.wf(),
                forall|j: int| 0 <= j < i ==> self.contents()[j] != string@,
            decreases n - i,
        {
            if bytes_equal(string, &self.strings[i]) {
                assert(self.contents()[i as int] == string@);
                return StringRef(i as u32);
            }
            i += 1;
        }
        assert(forall|j: int| 0 <= j < self.contents().len() ==> self.contents()[j] != string@);
        assert(!self.contents().contains(string@));
        let mut owned: Vec<u8> = Vec::new();
        let mut k: usize = 0;
        while k < string.len()
            invariant
                k <= string@.len(),
                owned@ =~= string@.subrange(0, k as int),
            decreases string@.len() - k,
        {
            owned.push(string[k]);
            k += 1;
        }
        assert(owned@ =~= string@);
        self.strings.push(owned);
        assert(self.contents() =~= old(self).contents().push(string@));
        StringRef(n as u32)
    }

    /// Forgets every entry, returning the pool to its freshly-made state.
    pub fn clear(&mut self)
        ensures
            final(self).wf(),
            final(self).contents() =~= Seq::<Seq<u8>>::empty(),
    {
        self.strings.clear();
    }
}

/// Distinct contents stand behind distinct references: two occupied slots of a
/// well-formed pool never hold the same bytes, so unequal byte strings intern
/// to unequal references.
pub proof fn lemma_distinct_slots_distinct_contents(pool: StringPool, i: int, j: int)
    requires
        pool.wf(),
        0 <= i < pool.contents().len(),
        0 <= j < pool.contents().len(),
        i != j,
    ensures
        pool.contents()[i] != pool.contents()[j],
{
}

fn bytes_equal(a: &[u8], b: &Vec<u8>) -> (r: bool)
    ensures
        r <==> a@ == b@,
{
    if a.len() != b.len() {
        assert(a@.len() != b@.len());
        return false;
    }
    let n = a.len();
    let mut i: usize = 0;
    while i < n
        invariant
            n == a@.len() == b@.len(),
            i <= n,
            forall|j: int| 0 <= j < i ==> a@[j] == b@[j],
        decreases n - i,
    {
        if a[i] != b[i] {
            return false;
        }
        i += 1;
    }
    assert(a@ =~= b@);
    true
}

} // verus!
