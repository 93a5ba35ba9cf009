//! Laws of the RLP encoding: an encoded item ends where its header says, so two encodings that
//! agree come from equal values.

use crate::rlp::{
    be_bytes, be_bytes_bounds, concat, rlp_header, rlp_list, rlp_string, LIST_BASE, STRING_BASE,
};
use vstd::prelude::*;

verus! {

/// Contents of this length or more do not occur.
pub open spec fn length_limit() -> nat {
    0x1_0000_0000_0000_0000
}

/// `e` is the encoding of an item.
pub open spec fn is_item(e: Seq<u8>) -> bool {
    is_string_item(e) || is_list_item(e)
}

/// `e` is the encoding of a byte string.
pub open spec fn is_string_item(e: Seq<u8>) -> bool {
    exists|content: Seq<u8>| content.len() < length_limit() && e == #[trigger] rlp_string(content)
}

/// `e` is the encoding of a list.
pub open spec fn is_list_item(e: Seq<u8>) -> bool {
    exists|content: Seq<u8>| content.len() < length_limit() && e == #[trigger] rlp_list(content)
}

/// Two numbers with the same big-endian bytes are equal.
pub proof fn be_bytes_is_injective(a: nat, b: nat)
    requires
        be_bytes(a) == be_bytes(b),
    ensures
        a == b,
    decreases a,
{
    if a == 0 || b == 0 {
        assert(be_bytes(a).len() == 0 <==> a == 0);
        assert(be_bytes(b).len() == 0 <==> b == 0);
    } else {
        assert(be_bytes(a).last() == (a % 256) as u8);
        assert(be_bytes(b).last() == (b % 256) as u8);
        assert(be_bytes(a).drop_last() =~= be_bytes(a / 256));
        assert(be_bytes(b).drop_last() =~= be_bytes(b / 256));
        be_bytes_is_injective(a / 256, b / 256);
    }
}

/// A header, whatever follows it, tells the kind and the length of its item.
proof fn header_is_readable(a: u8, m: nat, x: Seq<u8>, b: u8, n: nat, y: Seq<u8>)
    requires
        a == STRING_BASE || a == LIST_BASE,
        b == STRING_BASE || b == LIST_BASE,
        m < length_limit(),
        n < length_limit(),
        rlp_header(a, m) + x == rlp_header(b, n) + y,
    ensures
        a == b,
        m == n,
        x == y,
{
    be_bytes_bounds(m);
    be_bytes_bounds(n);
    let p = rlp_header(a, m);
    let q = rlp_header(b, n);
    assert((p + x)[0] == p[0]);
    assert((q + y)[0] == q[0]);
    assert(a == b);
    if m >= 56 && n >= 56 {
        assert(be_bytes(m).len() == be_bytes(n).len());
        assert(p.len() == q.len());
        assert(be_bytes(m) =~= p.skip(1));
        assert(be_bytes(n) =~= q.skip(1));
        assert(p =~= (p + x).take(p.len() as int));
        assert(q =~= (q + y).take(q.len() as int));
        be_bytes_is_injective(m, n);
    }
    assert(p == q);
    assert(x =~= (p + x).skip(p.len() as int));
    assert(y =~= (q + y).skip(q.len() as int));
}

/// The content of a list can be read back from its encoding, whatever follows it.
pub proof fn list_is_readable(a: Seq<u8>, x: Seq<u8>, b: Seq<u8>, y: Seq<u8>)
    requires
        a.len() < length_limit(),
        b.len() < length_limit(),
        rlp_list(a) + x == rlp_list(b) + y,
    ensures
        a == b,
        x == y,
{
    let p = rlp_header(LIST_BASE, a.len());
    let q = rlp_header(LIST_BASE, b.len());
    assert(rlp_list(a) + x =~= p + (a + x));
    assert(rlp_list(b) + y =~= q + (b + y));
    header_is_readable(LIST_BASE, a.len(), a + x, LIST_BASE, b.len(), b + y);
    assert(a =~= (a + x).take(a.len() as int));
    assert(b =~= (b + y).take(b.len() as int));
    assert(x =~= (a + x).skip(a.len() as int));
    assert(y =~= (b + y).skip(b.len() as int));
}

/// A byte string can be read back from its encoding, whatever follows it.
pub proof fn string_is_readable(a: Seq<u8>, x: Seq<u8>, b: Seq<u8>, y: Seq<u8>)
    requires
        a.len() < length_limit(),
        b.len() < length_limit(),
        rlp_string(a) + x == rlp_string(b) + y,
    ensures
        a == b,
        x == y,
{
    let bare_a = a.len() == 1 && a[0] < STRING_BASE;
    let bare_b = b.len() == 1 && b[0] < STRING_BASE;
    be_bytes_bounds(a.len());
    be_bytes_bounds(b.len());
    assert((rlp_string(a) + x)[0] == rlp_string(a)[0]);
    assert((rlp_string(b) + y)[0] == rlp_string(b)[0]);
    if bare_a || bare_b {
        assert(bare_a && bare_b);
        assert(a =~= b);
        assert(x =~= (a + x).skip(1));
        assert(y =~= (b + y).skip(1));
    } else {
        let p = rlp_header(STRING_BASE, a.len());
        let q = rlp_header(STRING_BASE, b.len());
        assert(rlp_string(a) + x =~= p + (a + x));
        assert(rlp_string(b) + y =~= q + (b + y));
        header_is_readable(STRING_BASE, a.len(), a + x, STRING_BASE, b.len(), b + y);
        assert(a =~= (a + x).take(a.len() as int));
        assert(b =~= (b + y).take(b.len() as int));
        assert(x =~= (a + x).skip(a.len() as int));
        assert(y =~= (b + y).skip(b.len() as int));
    }
}

/// The first byte of an item says whether it is a string or a list.
proof fn kinds_differ(a: Seq<u8>, x: Seq<u8>, b: Seq<u8>, y: Seq<u8>)
    requires
        a.len() < length_limit(),
        b.len() < length_limit(),
    ensures
        rlp_string(a) + x != rlp_list(b) + y,
{
    be_bytes_bounds(a.len());
    be_bytes_bounds(b.len());
    assert((rlp_string(a) + x)[0] == rlp_string(a)[0]);
    assert((rlp_list(b) + y)[0] == rlp_list(b)[0]);
}

/// The end of an encoded item can be told from its beginning: if two byte strings that start
/// with an item agree, the two items agree, and so does what follows them.
pub proof fn item_is_self_delimiting(u: Seq<u8>, x: Seq<u8>, v: Seq<u8>, y: Seq<u8>)
    requires
        is_item(u),
        is_item(v),
        u + x == v + y,
    ensures
        u == v,
        x == y,
{
    if is_string_item(u) {
        let a = choose|c: Seq<u8>| c.len() < length_limit() && u == #[trigger] rlp_string(c);
        if is_string_item(v) {
            let b = choose|c: Seq<u8>| c.len() < length_limit() && v == #[trigger] rlp_string(c);
            string_is_readable(a, x, b, y);
        } else {
            let b = choose|c: Seq<u8>| c.len() < length_limit() && v == #[trigger] rlp_list(c);
            kinds_differ(a, x, b, y);
        }
    } else {
        let a = choose|c: Seq<u8>| c.len() < length_limit() && u == #[trigger] rlp_list(c);
        if is_string_item(v) {
            let b = choose|c: Seq<u8>| c.len() < length_limit() && v == #[trigger] rlp_string(c);
            kinds_differ(b, y, a, x);
        } else {
            let b = choose|c: Seq<u8>| c.len() < length_limit() && v == #[trigger] rlp_list(c);
            list_is_readable(a, x, b, y);
        }
    }
}

/// No item has an empty encoding.
pub proof fn item_is_not_empty(e: Seq<u8>)
    requires
        is_item(e),
    ensures
        e.len() > 0,
{
    if is_string_item(e) {
        let a = choose|c: Seq<u8>| c.len() < length_limit() && e == #[trigger] rlp_string(c);
        assert(rlp_string(a).len() > 0);
    } else {
        let a = choose|c: Seq<u8>| c.len() < length_limit() && e == #[trigger] rlp_list(c);
        assert(rlp_list(a).len() > 0);
    }
}

/// A concatenation starts with its first part.
pub proof fn concat_first(parts: Seq<Seq<u8>>)
    requires
        parts.len() > 0,
    ensures
        concat(parts) == parts[0] + concat(parts.drop_first()),
    decreases parts.len(),
{
    if parts.len() == 1 {
        assert(parts.drop_last() =~= Seq::empty());
        assert(parts.drop_first() =~= Seq::empty());
        assert(concat(parts) =~= parts[0] + concat(parts.drop_first()));
    } else {
        concat_first(parts.drop_last());
        assert(parts.drop_last().drop_first() =~= parts.drop_first().drop_last());
        assert(concat(parts) =~= parts[0] + concat(parts.drop_first()));
    }
}

/// The items of a list can be read back from their concatenated encodings.
pub proof fn items_are_readable(a: Seq<Seq<u8>>, b: Seq<Seq<u8>>)
    requires
        forall|i: int| 0 <= i < a.len() ==> is_item(#[trigger] a[i]),
        forall|i: int| 0 <= i < b.len() ==> is_item(#[trigger] b[i]),
        concat(a) == concat(b),
    ensures
        a == b,
    decreases a.len(),
{
    if a.len() > 0 {
        concat_first(a);
        item_is_not_empty(a[0]);
    }
    if b.len() > 0 {
        concat_first(b);
        item_is_not_empty(b[0]);
    }
    if a.len() > 0 && b.len() > 0 {
        item_is_self_delimiting(a[0], concat(a.drop_first()), b[0], concat(b.drop_first()));
        items_are_readable(a.drop_first(), b.drop_first());
        assert(a =~= seq![a[0]] + a.drop_first());
        assert(b =~= seq![b[0]] + b.drop_first());
    }
    assert(a =~= b);
}

} // verus!
