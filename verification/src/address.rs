//! Account and contract addresses as plain values.
//!
//! An address is held by its canonical byte encoding (its strkey text); two
//! addresses are the same account exactly when their encodings are equal.
use vstd::prelude::*;

verus! {

/// An account or contract address, by its canonical encoding.
#[derive(Debug)]
pub struct Addr {
    bytes: Vec<u8>,
}

impl View for Addr {
    type V = Seq<u8>;

    closed spec fn view(&self) -> Seq<u8> {
        self.bytes@
    }
}

/// Byte-wise equality of two byte strings.
pub fn bytes_eq(a: &Vec<u8>, b: &Vec<u8>) -> (r: bool)
    ensures
        r == (a@ == b@),
{
    if a.len() != b.len() {
        return false;
    }
    let mut i: usize = 0;
    while i < a.len()
        invariant
            a@.len() == b@.len(),
            i <= a@.len(),
            forall|j: int| 0 <= j < i ==> a@[j] == b@[j],
        decreases a@.len() - i,
    {
        if a[i] != b[i] {
            return false;
        }
        i = i + 1;
    }
    assert(a@ =~= b@);
    true
}

/// Copy of a byte string.
pub fn bytes_copy(a: &Vec<u8>) -> (r: Vec<u8>)
    ensures
        r@ == a@,
{
    let mut r: Vec<u8> = Vec::new();
    let mut i: usize = 0;
    while i < a.len()
        invariant
            i <= a@.len(),
            r@ == a@.subrange(0, i as int),
        decreases a@.len() - i,
    {
        r.push(a[i]);
        i = i + 1;
        assert(r@ =~= a@.subrange(0, i as int));
    }
    assert(a@.subrange(0, a@.len() as int) =~= a@);
    r
}

impl Addr {
    /// The address with the given canonical encoding.
    pub fn new(bytes: Vec<u8>) -> (r: Addr)
        ensures
            r@ == bytes@,
    {
        Addr { bytes }
    }

    /// The canonical encoding.
    pub fn as_bytes(&self) -> (r: &Vec<u8>)
        ensures
            r@ == self@,
    {
        &self.bytes
    }

    /// Whether `self` and `other` are the same address.
    pub fn same_as(&self, other: &Addr) -> (r: bool)
        ensures
            r == (self@ == other@),
    {
        bytes_eq(&self.bytes, &other.bytes)
    }

    /// An equal copy of this address.
    pub fn duplicate(&self) -> (r: Addr)
        ensures
            r@ == self@,
    {
        Addr { bytes: bytes_copy(&self.bytes) }
    }
}

/// The encodings of a sequence of addresses.
pub open spec fn addr_views(s: Seq<Addr>) -> Seq<Seq<u8>> {
    s.map_values(|a: Addr| a@)
}

/// Whether `a` occurs in `v`.
pub fn contains_addr(v: &Vec<Addr>, a: &Addr) -> (r: bool)
    ensures
        r == addr_views(v@).contains(a@),
{
    let mut i: usize = 0;
    while i < v.len()
        invariant
            i <= v@.len(),
            forall|j: int| 0 <= j < i ==> v@[j]@ != a@,
        decreases v@.len() - i,
    {
        if v[i].same_as(a) {
            assert(addr_views(v@)[i as int] == a@);
            return true;
        }
        i = i + 1;
    }
    assert forall|j: int| 0 <= j < addr_views(v@).len() implies addr_views(v@)[j] != a@ by {
        assert(addr_views(v@)[j] == v@[j]@);
    }
    false
}

/// An element-wise copy of a list of addresses.
pub fn copy_addrs(v: &Vec<Addr>) -> (r: Vec<Addr>)
    ensures
        addr_views(r@) == addr_views(v@),
{
    let mut r: Vec<Addr> = Vec::new();
    let mut i: usize = 0;
    while i < v.len()
        invariant
            i <= v@.len(),
            r@.len() == i,
            forall|j: int| 0 <= j < i ==> r@[j]@ == v@[j]@,
        decreases v@.len() - i,
    {
        r.push(v[i].duplicate());
        i = i + 1;
    }
    assert(addr_views(r@) =~= addr_views(v@));
    r
}

} // verus!
