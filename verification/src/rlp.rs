//! Recursive length prefix (RLP) encoding.
//!
//! An item is a byte string or a list of items. A string of one byte below `0x80` stands for
//! itself; every other item is a header that gives its kind and length, followed by its content.

use crate::primitives::{Address, H256};
use vstd::prelude::*;

verus! {

/// First header byte of an empty string.
pub const STRING_BASE: u8 = 0x80;

/// First header byte of an empty list.
pub const LIST_BASE: u8 = 0xc0;

/// The big-endian bytes of `n` without leading zeros; zero has none.
pub open spec fn be_bytes(n: nat) -> Seq<u8>
    decreases n,
{
    if n == 0 {
        Seq::empty()
    } else {
        be_bytes(n / 256).push((n % 256) as u8)
    }
}

/// The header of an item of the kind `base` with `len` bytes of content.
pub open spec fn rlp_header(base: u8, len: nat) -> Seq<u8> {
    if len < 56 {
        seq![(base + len) as u8]
    } else {
        seq![(base + 55 + be_bytes(len).len()) as u8] + be_bytes(len)
    }
}

/// The encoding of a byte string.
pub open spec fn rlp_string(content: Seq<u8>) -> Seq<u8> {
    if content.len() == 1 && content[0] < STRING_BASE {
        content
    } else {
        rlp_header(STRING_BASE, content.len()) + content
    }
}

/// The encoding of a list whose items are encoded one after the other in `content`.
pub open spec fn rlp_list(content: Seq<u8>) -> Seq<u8> {
    rlp_header(LIST_BASE, content.len()) + content
}

/// The encoding of a number.
pub open spec fn rlp_uint(n: nat) -> Seq<u8> {
    rlp_string(be_bytes(n))
}

/// The parts one after the other.
pub open spec fn concat(parts: Seq<Seq<u8>>) -> Seq<u8>
    decreases parts.len(),
{
    if parts.len() == 0 {
        Seq::empty()
    } else {
        concat(parts.drop_last()) + parts.last()
    }
}

/// A value with an RLP encoding.
pub trait RLPEncode {
    /// The encoding.
    spec fn rlp(&self) -> Seq<u8>;

    /// Appends the encoding to `buf`.
    fn encode(&self, buf: &mut Vec<u8>)
        ensures
            final(buf)@ == old(buf)@ + self.rlp(),
    ;

    /// The encoding as a fresh byte vector.
    fn encode_to_vec(&self) -> (bytes: Vec<u8>)
        ensures
            bytes@ == self.rlp(),
    {
        let mut bytes: Vec<u8> = Vec::new();
        self.encode(&mut bytes);
        assert(bytes@ =~= self.rlp());
        bytes
    }
}

/// The encodings of the items of a list.
pub open spec fn item_encodings<T: RLPEncode>(items: Seq<T>) -> Seq<Seq<u8>> {
    Seq::new(items.len(), |i: int| items[i].rlp())
}

/// A number below `256^k` has at most `k` big-endian bytes, and a non-zero one starts with a
/// non-zero byte.
pub proof fn be_bytes_bounds(n: nat)
    ensures
        n > 0 ==> be_bytes(n).len() > 0 && be_bytes(n)[0] != 0,
        n < 0x100 ==> be_bytes(n).len() <= 1,
        n < 0x1_0000 ==> be_bytes(n).len() <= 2,
        n < 0x100_0000 ==> be_bytes(n).len() <= 3,
        n < 0x1_0000_0000 ==> be_bytes(n).len() <= 4,
        n < 0x100_0000_0000 ==> be_bytes(n).len() <= 5,
        n < 0x1_0000_0000_0000 ==> be_bytes(n).len() <= 6,
        n < 0x100_0000_0000_0000 ==> be_bytes(n).len() <= 7,
        n < 0x1_0000_0000_0000_0000 ==> be_bytes(n).len() <= 8,
    decreases n,
{
    if n > 0 {
        be_bytes_bounds(n / 256);
    }
}

/// Appends the big-endian bytes of `n`.
fn push_be_bytes(buf: &mut Vec<u8>, n: u64)
    ensures
        final(buf)@ == old(buf)@ + be_bytes(n as nat),
    decreases n,
{
    if n > 0 {
        push_be_bytes(buf, n / 256);
        buf.push((n % 256) as u8);
    }
    assert(buf@ =~= old(buf)@ + be_bytes(n as nat));
}

/// Appends the header of an item.
fn push_header(buf: &mut Vec<u8>, base: u8, len: usize)
    requires
        base <= LIST_BASE,
    ensures
        final(buf)@ == old(buf)@ + rlp_header(base, len as nat),
{
    if len < 56 {
        buf.push(base + len as u8);
    } else {
        let mut digits: Vec<u8> = Vec::new();
        push_be_bytes(&mut digits, len as u64);
        assert(digits@ =~= be_bytes(len as nat));
        proof {
            be_bytes_bounds(len as nat);
        }
        buf.push(base + 55 + digits.len() as u8);
        buf.append(&mut digits);
    }
    assert(buf@ =~= old(buf)@ + rlp_header(base, len as nat));
}

/// Appends the bytes of `content`.
pub fn push_bytes(buf: &mut Vec<u8>, content: &[u8])
    ensures
        final(buf)@ == old(buf)@ + content@,
{
    buf.extend_from_slice(content);
    assert(buf@ =~= old(buf)@ + content@);
}

/// Appends the encoding of the byte string `content`.
pub fn push_string(buf: &mut Vec<u8>, content: &[u8])
    ensures
        final(buf)@ == old(buf)@ + rlp_string(content@),
{
    if !(content.len() == 1 && content[0] < STRING_BASE) {
        push_header(buf, STRING_BASE, content.len());
    }
    push_bytes(buf, content);
    assert(buf@ =~= old(buf)@ + rlp_string(content@));
}

/// Appends the encoding of the list with the encoded items `content`.
pub fn push_list(buf: &mut Vec<u8>, content: Vec<u8>)
    ensures
        final(buf)@ == old(buf)@ + rlp_list(content@),
{
    push_header(buf, LIST_BASE, content.len());
    let mut rest = content;
    buf.append(&mut rest);
    assert(buf@ =~= old(buf)@ + rlp_list(content@));
}

impl RLPEncode for u64 {
    open spec fn rlp(&self) -> Seq<u8> {
        rlp_uint(*self as nat)
    }

    fn encode(&self, buf: &mut Vec<u8>) {
        let mut digits: Vec<u8> = Vec::new();
        push_be_bytes(&mut digits, *self);
        assert(digits@ =~= be_bytes(*self as nat));
        push_string(buf, digits.as_slice());
    }
}

impl RLPEncode for u8 {
    open spec fn rlp(&self) -> Seq<u8> {
        rlp_uint(*self as nat)
    }

    fn encode(&self, buf: &mut Vec<u8>) {
        (*self as u64).encode(buf);
    }
}

impl RLPEncode for bool {
    open spec fn rlp(&self) -> Seq<u8> {
        rlp_uint(if *self { 1 } else { 0 })
    }

    fn encode(&self, buf: &mut Vec<u8>) {
        let n: u64 = if *self { 1 } else { 0 };
        n.encode(buf);
    }
}

impl RLPEncode for H256 {
    open spec fn rlp(&self) -> Seq<u8> {
        rlp_string(self@)
    }

    fn encode(&self, buf: &mut Vec<u8>) {
        push_string(buf, self.0.as_slice());
    }
}

impl RLPEncode for Address {
    open spec fn rlp(&self) -> Seq<u8> {
        rlp_string(self@)
    }

    fn encode(&self, buf: &mut Vec<u8>) {
        push_string(buf, self.0.as_slice());
    }
}

/// A vector is a list of its elements; in particular a vector of bytes is a list of numbers.
impl<T: RLPEncode> RLPEncode for Vec<T> {
    open spec fn rlp(&self) -> Seq<u8> {
        rlp_list(concat(item_encodings(self@)))
    }

    fn encode(&self, buf: &mut Vec<u8>) {
        let mut content: Vec<u8> = Vec::new();
        let mut i: usize = 0;
        while i < self.len()
            invariant
                i <= self.len(),
                content@ == concat(item_encodings(self@.take(i as int))),
            decreases self.len() - i,
        {
            self[i].encode(&mut content);
            i = i + 1;
            proof {
                let parts = item_encodings(self@.take(i as int));
                assert(parts.drop_last() =~= item_encodings(self@.take(i - 1)));
                assert(parts.last() == self@[i - 1].rlp());
            }
        }
        assert(self@.take(i as int) =~= self@);
        push_list(buf, content);
    }
}

} // verus!
