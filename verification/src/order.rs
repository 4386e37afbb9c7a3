//! Three-way relations between integers and between texts.

use vstd::prelude::*;
use vstd::utf8::encode_utf8;

verus! {

/// How a first item stands to a second.
#[derive(Debug, Clone, Copy, PartialEq, Eq, Structural)]
pub enum Relation {
    Less,
    Equal,
    Greater,
}

impl Relation {
    /// The relation with the two items exchanged.
    pub open spec fn reversed(self) -> Relation {
        match self {
            Relation::Less => Relation::Greater,
            Relation::Equal => Relation::Equal,
            Relation::Greater => Relation::Less,
        }
    }

    /// Computes [`Relation::reversed`].
    pub fn reverse(self) -> (r: Relation)
        ensures
            r == self.reversed(),
    {
        match self {
            Relation::Less => Relation::Greater,
            Relation::Equal => Relation::Equal,
            Relation::Greater => Relation::Less,
        }
    }
}

/// The relation between two integers.
pub open spec fn int_relation(a: int, b: int) -> Relation {
    if a < b {
        Relation::Less
    } else if a == b {
        Relation::Equal
    } else {
        Relation::Greater
    }
}

/// The relation between two byte strings in dictionary order: the first
/// position where they differ decides, and a proper prefix comes first.
pub open spec fn bytes_relation(a: Seq<u8>, b: Seq<u8>) -> Relation
    decreases a.len(),
{
    if a.len() == 0 && b.len() == 0 {
        Relation::Equal
    } else if a.len() == 0 {
        Relation::Less
    } else if b.len() == 0 {
        Relation::Greater
    } else if a[0] != b[0] {
        int_relation(a[0] as int, b[0] as int)
    } else {
        bytes_relation(a.drop_first(), b.drop_first())
    }
}

/// The relation between two texts: dictionary order on their UTF-8 bytes.
pub open spec fn text_relation(a: Seq<char>, b: Seq<char>) -> Relation {
    bytes_relation(encode_utf8(a), encode_utf8(b))
}

/// Byte strings that agree on a prefix stand as their remainders do.
pub proof fn lemma_bytes_relation_skip(a: Seq<u8>, b: Seq<u8>, k: int)
    requires
        0 <= k <= a.len(),
        k <= b.len(),
        a.take(k) == b.take(k),
    ensures
        bytes_relation(a, b) == bytes_relation(a.skip(k), b.skip(k)),
    decreases k,
{
    if k == 0 {
        assert(a.skip(0) =~= a);
        assert(b.skip(0) =~= b);
    } else {
        assert(a[0] == a.take(k)[0]);
        assert(b[0] == b.take(k)[0]);
        let a1 = a.drop_first();
        let b1 = b.drop_first();
        assert(a1.take(k - 1) =~= a.take(k).drop_first());
        assert(b1.take(k - 1) =~= b.take(k).drop_first());
        lemma_bytes_relation_skip(a1, b1, k - 1);
        assert(a1.skip(k - 1) =~= a.skip(k));
        assert(b1.skip(k - 1) =~= b.skip(k));
    }
}

/// Byte strings are in the relation `Equal` exactly when they are equal.
pub proof fn lemma_bytes_relation_equal(a: Seq<u8>, b: Seq<u8>)
    ensures
        bytes_relation(a, b) == Relation::Equal <==> a == b,
    decreases a.len(),
{
    if a.len() > 0 && b.len() > 0 && a[0] == b[0] {
        lemma_bytes_relation_equal(a.drop_first(), b.drop_first());
        if a.drop_first() == b.drop_first() {
            assert(a =~= seq![a[0]] + a.drop_first());
            assert(b =~= seq![b[0]] + b.drop_first());
        }
    } else if a.len() == 0 && b.len() == 0 {
        assert(a =~= b);
    }
}

/// Texts are in the relation `Equal` exactly when they are equal.
pub proof fn lemma_text_relation_equal(a: Seq<char>, b: Seq<char>)
    ensures
        text_relation(a, b) == Relation::Equal <==> a == b,
{
    lemma_bytes_relation_equal(encode_utf8(a), encode_utf8(b));
    vstd::utf8::encode_utf8_decode_utf8(a);
    vstd::utf8::encode_utf8_decode_utf8(b);
}

/// The relation between two machine integers.
pub fn relate_ints(a: i64, b: i64) -> (r: Relation)
    ensures
        r == int_relation(a as int, b as int),
{
    if a < b {
        Relation::Less
    } else if a == b {
        Relation::Equal
    } else {
        Relation::Greater
    }
}

/// The relation between two truth values, `false` before `true`.
pub fn relate_bools(a: bool, b: bool) -> (r: Relation)
    ensures
        r == int_relation(if a { 1 } else { 0 }, if b { 1 } else { 0 }),
{
    if a == b {
        Relation::Equal
    } else if b {
        Relation::Less
    } else {
        Relation::Greater
    }
}

/// The relation between two texts.
pub fn relate_texts(a: &str, b: &str) -> (r: Relation)
    ensures
        r == text_relation(a@, b@),
{
    let left = a.as_bytes();
    let right = b.as_bytes();
    let mut i: usize = 0;
    while i < left.len() && i < right.len()
        invariant
            left@ == encode_utf8(a@),
            right@ == encode_utf8(b@),
            i <= left@.len(),
            i <= right@.len(),
            left@.take(i as int) == right@.take(i as int),
        decreases left@.len() - i,
    {
        if left[i] != right[i] {
            proof {
                lemma_bytes_relation_skip(left@, right@, i as int);
            }
            return if left[i] < right[i] {
                Relation::Less
            } else {
                Relation::Greater
            };
        }
        proof {
            assert(left@.take(i + 1) =~= left@.take(i as int).push(left@[i as int]));
            assert(right@.take(i + 1) =~= right@.take(i as int).push(right@[i as int]));
        }
        i += 1;
    }
    proof {
        lemma_bytes_relation_skip(left@, right@, i as int);
    }
    if left.len() == right.len() {
        Relation::Equal
    } else if i == left.len() {
        Relation::Less
    } else {
        Relation::Greater
    }
}

/// Whether two texts are equal.
pub fn same_text(a: &str, b: &str) -> (r: bool)
    ensures
        r == (a@ == b@),
{
    proof {
        lemma_text_relation_equal(a@, b@);
    }
    match relate_texts(a, b) {
        Relation::Equal => true,
        _ => false,
    }
}

} // verus!
