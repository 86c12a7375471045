//! The order in which command names are kept: that of their UTF-8 encodings,
//! byte by byte, a proper prefix before what extends it.

use vstd::prelude::*;
use vstd::string::*;
use vstd::utf8::*;

verus! {

/// `a` and `b` agree on their first `k` bytes, and at `k` either `a` ends
/// while `b` goes on, or `a` holds the smaller byte.
pub open spec fn parts_at(a: Seq<u8>, b: Seq<u8>, k: int) -> bool {
    &&& 0 <= k <= a.len()
    &&& k < b.len()
    &&& forall|j: int| 0 <= j < k ==> a[j] == b[j]
    &&& (k < a.len() ==> a[k] < b[k])
}

/// Lexicographic order on byte strings.
pub open spec fn bytes_before(a: Seq<u8>, b: Seq<u8>) -> bool {
    exists|k: int| parts_at(a, b, k)
}

/// The strict order on names.
pub open spec fn name_before(a: Seq<char>, b: Seq<char>) -> bool {
    bytes_before(encode_utf8(a), encode_utf8(b))
}

/// How one name stands to another.
#[derive(Clone, Copy, Debug, PartialEq, Eq)]
pub enum Order {
    Before,
    Same,
    After,
}

/// No byte string comes before itself.
pub proof fn lemma_bytes_irreflexive(a: Seq<u8>)
    ensures
        !bytes_before(a, a),
{
}

/// The order on byte strings is transitive.
pub proof fn lemma_bytes_transitive(a: Seq<u8>, b: Seq<u8>, c: Seq<u8>)
    requires
        bytes_before(a, b),
        bytes_before(b, c),
    ensures
        bytes_before(a, c),
{
    let k1 = choose|k: int| parts_at(a, b, k);
    let k2 = choose|k: int| parts_at(b, c, k);
    let k = if k1 <= k2 { k1 } else { k2 };
    assert(parts_at(a, c, k));
}

/// Two names with the same encoding are the same name.
pub proof fn lemma_encoding_injective(a: Seq<char>, b: Seq<char>)
    requires
        encode_utf8(a) == encode_utf8(b),
    ensures
        a == b,
{
    encode_utf8_decode_utf8(a);
    encode_utf8_decode_utf8(b);
}

/// A name never comes before itself, so names in strict order differ.
pub proof fn lemma_name_irreflexive(a: Seq<char>, b: Seq<char>)
    requires
        name_before(a, b),
    ensures
        a != b,
        !name_before(b, a),
{
    lemma_bytes_irreflexive(encode_utf8(a));
    if name_before(b, a) {
        lemma_bytes_transitive(encode_utf8(a), encode_utf8(b), encode_utf8(a));
    }
}

/// The order on names is transitive.
pub proof fn lemma_name_transitive(a: Seq<char>, b: Seq<char>, c: Seq<char>)
    requires
        name_before(a, b),
        name_before(b, c),
    ensures
        name_before(a, c),
{
    lemma_bytes_transitive(encode_utf8(a), encode_utf8(b), encode_utf8(c));
}

/// Compares two names in the order in which a mapping keeps them.
pub fn compare(a: &str, b: &str) -> (o: Order)
    ensures
        match o {
            Order::Before => name_before(a@, b@),
            Order::Same => a@ == b@,
            Order::After => name_before(b@, a@),
        },
{
    let x = a.as_bytes();
    let y = b.as_bytes();
    let mut i: usize = 0;
    while i < x.len() && i < y.len()
        invariant
            i <= x.len(),
            i <= y.len(),
            x@ == encode_utf8(a@),
            y@ == encode_utf8(b@),
            forall|j: int| 0 <= j < i ==> x@[j] == y@[j],
        decreases x.len() - i,
    {
        if x[i] < y[i] {
            assert(parts_at(x@, y@, i as int));
            return Order::Before;
        }
        if x[i] > y[i] {
            assert(parts_at(y@, x@, i as int));
            return Order::After;
        }
        i += 1;
    }
    if i < y.len() {
        assert(parts_at(x@, y@, i as int));
        Order::Before
    } else if i < x.len() {
        assert(parts_at(y@, x@, i as int));
        Order::After
    } else {
        proof {
            assert(x@ =~= y@);
            lemma_encoding_injective(a@, b@);
        }
        Order::Same
    }
}

/// Whether two pieces of text are the same.
pub fn same_text(a: &str, b: &str) -> (r: bool)
    ensures
        r == (a@ == b@),
{
    match compare(a, b) {
        Order::Same => true,
        Order::Before => {
            proof {
                lemma_name_irreflexive(a@, b@);
            }
            false
        },
        Order::After => {
            proof {
                lemma_name_irreflexive(b@, a@);
            }
            false
        },
    }
}

} // verus!
