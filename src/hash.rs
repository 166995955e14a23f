//! Selectors, event topics and interface identifiers derived from canonical
//! signatures with Keccak-256.
use vstd::prelude::*;
use vstd::string::StringSliceAdditionalSpecFns;
use vstd::utf8::encode_utf8;

verus! {

/// The Keccak-256 digest of a byte sequence.
pub uninterp spec fn keccak_of(data: Seq<u8>) -> Seq<u8>;

/// Relies on `alloy_primitives::keccak256`: the 32-byte Keccak-256 digest of `data`.
#[verifier::external_body]
fn keccak(data: &[u8]) -> (r: [u8; 32])
    ensures
        r@ == keccak_of(data@),
{
    alloy_primitives::keccak256(data).0
}

/// A lowercase hexadecimal digit for a value below sixteen.
pub open spec fn hex_digit(v: u8) -> char {
    if v < 10 {
        (48 + v) as u8 as char
    } else {
        (87 + v) as u8 as char
    }
}

/// Two lowercase hexadecimal digits per byte, most significant digit first.
pub open spec fn hex_of(b: Seq<u8>) -> Seq<char>
    decreases b.len(),
{
    if b.len() == 0 {
        Seq::empty()
    } else {
        hex_of(b.drop_last()) + seq![hex_digit(b.last() / 16), hex_digit(b.last() % 16)]
    }
}

/// Relies on `alloy_primitives::hex::encode`: two lowercase hex digits per
/// byte, in order, without a prefix.
#[verifier::external_body]
fn hex_text(b: &[u8]) -> (r: String)
    ensures
        r@ == hex_of(b@),
{
    alloy_primitives::hex::encode(b)
}

/// The UTF-8 bytes of a text.
pub open spec fn utf8_of(s: Seq<char>) -> Seq<u8> {
    encode_utf8(s)
}

/// The full digest of a signature's UTF-8 bytes.
pub open spec fn topic_spec(sig: Seq<char>) -> Seq<u8> {
    keccak_of(utf8_of(sig))
}

/// The first four bytes of the digest of a signature's UTF-8 bytes.
pub open spec fn selector_spec(sig: Seq<char>) -> Seq<u8> {
    topic_spec(sig).subrange(0, 4)
}

/// Byte `k` of the XOR of all selectors in `sels`.
pub open spec fn xor_fold(sels: Seq<Seq<u8>>, k: int) -> u8
    decreases sels.len(),
{
    if sels.len() == 0 {
        0
    } else {
        xor_fold(sels.drop_last(), k) ^ sels.last()[k]
    }
}

/// The byte sequences of a sequence of selectors.
pub open spec fn selector_views(sels: Seq<[u8; 4]>) -> Seq<Seq<u8>> {
    sels.map_values(|s: [u8; 4]| s@)
}

/// The bytewise XOR of all selectors in `sels`.
pub open spec fn xor_id(sels: Seq<Seq<u8>>) -> Seq<u8> {
    seq![xor_fold(sels, 0), xor_fold(sels, 1), xor_fold(sels, 2), xor_fold(sels, 3)]
}

/// Lowercase hexadecimal of a byte slice.
pub fn hex_string(b: &[u8]) -> (r: String)
    ensures
        r@ == hex_of(b@),
        r@.len() == 2 * b@.len(),
{
    proof {
        lemma_hex_len(b@);
    }
    hex_text(b)
}

pub proof fn lemma_hex_len(b: Seq<u8>)
    ensures
        hex_of(b).len() == 2 * b.len(),
    decreases b.len(),
{
    if b.len() > 0 {
        lemma_hex_len(b.drop_last());
    }
}

/// The 32-byte topic of an event signature.
pub fn topic_of(sig: &str) -> (r: [u8; 32])
    ensures
        r@ == topic_spec(sig@),
{
    keccak(sig.as_bytes())
}

/// The 4-byte selector of a function or error signature.
pub fn selector_of(sig: &str) -> (r: [u8; 4])
    ensures
        r@ == selector_spec(sig@),
{
    let h = keccak(sig.as_bytes());
    let r = [h[0], h[1], h[2], h[3]];
    assert(r@ =~= h@.subrange(0, 4));
    r
}

/// The bytewise XOR of a sequence of selectors (zero for none).
pub fn xor_selectors(sels: &Vec<[u8; 4]>) -> (r: [u8; 4])
    ensures
        r@ == xor_id(selector_views(sels@)),
{
    let mut acc: [u8; 4] = [0, 0, 0, 0];
    let mut i: usize = 0;
    while i < sels.len()
        invariant
            i <= sels@.len(),
            acc@ == xor_id(selector_views(sels@.subrange(0, i as int))),
        decreases sels@.len() - i,
    {
        let s = sels[i];
        acc = [acc[0] ^ s[0], acc[1] ^ s[1], acc[2] ^ s[2], acc[3] ^ s[3]];
        assert(selector_views(sels@.subrange(0, i + 1)).drop_last() =~= selector_views(
            sels@.subrange(0, i as int),
        ));
        assert(acc@ =~= xor_id(selector_views(sels@.subrange(0, i + 1))));
        i = i + 1;
    }
    assert(sels@.subrange(0, sels@.len() as int) =~= sels@);
    acc
}

proof fn lemma_xor_fold_remove(b: Seq<Seq<u8>>, j: int, k: int)
    requires
        0 <= j < b.len(),
    ensures
        xor_fold(b, k) == xor_fold(b.remove(j), k) ^ b[j][k],
    decreases b.len(),
{
    if j == b.len() - 1 {
        assert(b.remove(j) =~= b.drop_last());
    } else {
        lemma_xor_fold_remove(b.drop_last(), j, k);
        assert(b.remove(j).drop_last() =~= b.drop_last().remove(j));
        assert(b.remove(j).last() == b.last());
        let p = xor_fold(b.drop_last().remove(j), k);
        let q = b[j][k];
        let l = b.last()[k];
        assert((p ^ q) ^ l == (p ^ l) ^ q) by (bit_vector);
    }
}

/// The XOR of a set of selectors does not depend on the order in which they
/// are listed: any two orderings of the same selectors give the same result.
pub proof fn lemma_xor_id_order_independent(a: Seq<Seq<u8>>, b: Seq<Seq<u8>>)
    requires
        a.to_multiset() == b.to_multiset(),
    ensures
        xor_id(a) == xor_id(b),
    decreases a.len(),
{
    broadcast use vstd::seq_lib::group_to_multiset_ensures;

    if a.len() == 0 {
        assert(b.to_multiset().len() == 0);
        assert(b =~= a);
    } else {
        let x = a.last();
        assert(a.to_multiset().count(x) > 0) by {
            assert(a.contains(x));
        }
        assert(b.contains(x));
        let j = choose|j: int| 0 <= j < b.len() && b[j] == x;
        assert(a =~= a.drop_last().push(x));
        assert(a.drop_last().to_multiset() == b.remove(j).to_multiset()) by {
            vstd::seq_lib::to_multiset_remove(b, j);
            vstd::seq_lib::to_multiset_build(a.drop_last(), x);
            broadcast use vstd::multiset::group_multiset_axioms;
            assert(a.drop_last().to_multiset() =~= a.to_multiset().remove(x));
        }
        lemma_xor_id_order_independent(a.drop_last(), b.remove(j));
        lemma_xor_fold_remove(b, j, 0);
        lemma_xor_fold_remove(b, j, 1);
        lemma_xor_fold_remove(b, j, 2);
        lemma_xor_fold_remove(b, j, 3);
        assert(xor_id(a) =~= xor_id(b));
    }
}

} // verus!
