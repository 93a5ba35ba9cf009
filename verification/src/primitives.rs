//! Fixed-width byte values and their order.

use vstd::prelude::*;

verus! {

/// A 256-bit hash or storage key.
#[derive(Clone, Copy, Debug, Default, PartialEq, Eq)]
pub struct H256(pub [u8; 32]);

/// A 160-bit account address.
#[derive(Clone, Copy, Debug, Default, PartialEq, Eq)]
pub struct Address(pub [u8; 20]);

/// A 2048-bit bloom filter.
#[derive(Clone, Copy, Debug, PartialEq, Eq)]
pub struct Bloom(pub [u8; 256]);

/// A 256-bit number.
#[derive(Clone, Copy, Debug, Default, PartialEq, Eq, Structural)]
pub struct U256 {
    pub high: u128,
    pub low: u128,
}

impl Default for Bloom {
    fn default() -> (bloom: Self)
        ensures
            bloom.0@ == Seq::new(256, |i: int| 0u8),
    {
        let bloom = Bloom([0; 256]);
        assert(bloom.0@ =~= Seq::new(256, |i: int| 0u8));
        bloom
    }
}

impl View for H256 {
    type V = Seq<u8>;

    open spec fn view(&self) -> Seq<u8> {
        self.0@
    }
}

impl View for Address {
    type V = Seq<u8>;

    open spec fn view(&self) -> Seq<u8> {
        self.0@
    }
}

/// `a` comes strictly before `b` in the dictionary order of byte strings.
pub open spec fn bytes_before(a: Seq<u8>, b: Seq<u8>) -> bool {
    exists|k: int| agree_until(a, b, k) && smaller_after(a, b, k)
}

/// The first `k` bytes of `a` and `b` agree.
pub open spec fn agree_until(a: Seq<u8>, b: Seq<u8>, k: int) -> bool {
    &&& 0 <= k <= a.len()
    &&& k <= b.len()
    &&& forall|j: int| 0 <= j < k ==> a[j] == b[j]
}

/// Past a common prefix of length `k`, `a` ends or continues with a smaller byte.
pub open spec fn smaller_after(a: Seq<u8>, b: Seq<u8>, k: int) -> bool {
    k < b.len() && (k == a.len() || a[k] < b[k])
}

/// Decides [`bytes_before`].
pub fn is_before(a: &[u8], b: &[u8]) -> (r: bool)
    ensures
        r == bytes_before(a@, b@),
{
    let mut k: usize = 0;
    while k < a.len() && k < b.len() && a[k] == b[k]
        invariant
            agree_until(a@, b@, k as int),
        decreases a.len() - k,
    {
        k = k + 1;
    }
    let r = k < b.len() && (k == a.len() || a[k] < b[k]);
    proof {
        assert(agree_until(a@, b@, k as int));
        assert(r == smaller_after(a@, b@, k as int));
        if bytes_before(a@, b@) {
            let m = choose|m: int| agree_until(a@, b@, m) && smaller_after(a@, b@, m);
            if m < k {
                assert(a@[m] == b@[m]);
            }
        }
    }
    r
}

/// Decides whether two byte strings are equal.
pub fn same_bytes(a: &[u8], b: &[u8]) -> (r: bool)
    ensures
        r == (a@ == b@),
{
    if a.len() != b.len() {
        return false;
    }
    let mut k: usize = 0;
    while k < a.len()
        invariant
            k <= a.len(),
            a.len() == b.len(),
            forall|j: int| 0 <= j < k ==> a@[j] == b@[j],
        decreases a.len() - k,
    {
        if a[k] != b[k] {
            return false;
        }
        k = k + 1;
    }
    assert(a@ =~= b@);
    true
}

impl H256 {
    /// Whether two hashes have the same bytes.
    pub fn same(&self, other: &H256) -> (r: bool)
        ensures
            r == (self@ == other@),
            r == (*self == *other),
    {
        let r = same_bytes(self.0.as_slice(), other.0.as_slice());
        assert(r ==> self.0 =~= other.0);
        r
    }
}

/// Decides whether two lists of hashes are equal.
pub fn same_hashes(a: &[H256], b: &[H256]) -> (r: bool)
    ensures
        r == (a@ == b@),
{
    if a.len() != b.len() {
        return false;
    }
    let mut k: usize = 0;
    while k < a.len()
        invariant
            k <= a.len(),
            a.len() == b.len(),
            forall|j: int| 0 <= j < k ==> a@[j] == b@[j],
        decreases a.len() - k,
    {
        if !a[k].same(&b[k]) {
            return false;
        }
        k = k + 1;
    }
    assert(a@ =~= b@);
    true
}

} // verus!
