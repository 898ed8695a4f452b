//! Hash commitments.
//!
//! A player commits to a move by submitting the lowercase hexadecimal
//! encoding of the 256-bit Blake2b digest of the bytes `move character +
//! salt`.  At reveal time the same encoding is recomputed from the revealed
//! bytes and compared byte for byte with the stored commitment.

use vstd::prelude::*;

verus! {

/// The Blake2b-256 digest of a byte string, as computed by the outside
/// hashing routine.  Its value is pinned down only by being a function of
/// the input bytes.
pub uninterp spec fn blake2b_256_of(data: Seq<u8>) -> Seq<u8>;

/// The ASCII code of the lowercase hexadecimal digit for a value below 16.
pub open spec fn hex_digit(n: u8) -> u8
    recommends
        n < 16,
{
    if n < 10 {
        (n + 0x30) as u8
    } else {
        (n + 0x57) as u8
    }
}

/// The lowercase hexadecimal encoding of a byte string: two digits per byte,
/// high nibble first.
pub open spec fn hex_of(bytes: Seq<u8>) -> Seq<u8>
    decreases bytes.len(),
{
    if bytes.len() == 0 {
        Seq::empty()
    } else {
        hex_of(bytes.drop_last()) + seq![
            hex_digit((bytes.last() / 16) as u8),
            hex_digit((bytes.last() % 16) as u8),
        ]
    }
}

/// The commitment string for a plaintext: the hexadecimal encoding of its
/// Blake2b-256 digest.
pub open spec fn spec_commitment_of(plain: Seq<u8>) -> Seq<u8> {
    hex_of(blake2b_256_of(plain))
}

/// A stored commitment is matched by a revealed plaintext.
pub open spec fn commitment_matches(stored: Seq<u8>, plain: Seq<u8>) -> bool {
    spec_commitment_of(plain) == stored
}

/// Relies on `sp_core_hashing::blake2_256`: the 32-byte Blake2b-256 digest
/// of the input bytes, a function of the input alone.
#[verifier::external_body]
fn blake2_256_digest(data: &Vec<u8>) -> (r: Vec<u8>)
    ensures
        r@ == blake2b_256_of(data@),
        r@.len() == 32,
{
    sp_core_hashing::blake2_256(data.as_slice()).to_vec()
}

/// The ASCII code of the lowercase hexadecimal digit for a value below 16.
fn hex_digit_byte(n: u8) -> (r: u8)
    requires
        n < 16,
    ensures
        r == hex_digit(n),
{
    if n < 10 {
        n + 0x30
    } else {
        n + 0x57
    }
}

/// The lowercase hexadecimal encoding of a byte string.
pub fn encode_hex(bytes: &Vec<u8>) -> (r: Vec<u8>)
    ensures
        r@ == hex_of(bytes@),
{
    let mut r: Vec<u8> = Vec::new();
    let mut i: usize = 0;
    while i < bytes.len()
        invariant
            i <= bytes.len(),
            r@ == hex_of(bytes@.take(i as int)),
        decreases bytes.len() - i,
    {
        let b = bytes[i];
        let ghost pre = r@;
        r.push(hex_digit_byte(b / 16));
        r.push(hex_digit_byte(b % 16));
        proof {
            let t = bytes@.take(i as int + 1);
            assert(t.drop_last() == bytes@.take(i as int));
            assert(t.last() == bytes@[i as int]);
            assert(r@ == pre + seq![hex_digit((b / 16) as u8), hex_digit((b % 16) as u8)]);
        }
        i = i + 1;
    }
    assert(bytes@.take(bytes@.len() as int) == bytes@);
    r
}

/// Whether two byte strings are equal.
pub fn bytes_eq(a: &Vec<u8>, b: &Vec<u8>) -> (r: bool)
    ensures
        r == (a@ == b@),
{
    if a.len() != b.len() {
        assert(a@.len() != b@.len());
        return false;
    }
    let mut i: usize = 0;
    while i < a.len()
        invariant
            i <= a.len(),
            a@.len() == b@.len(),
            forall|k: int| 0 <= k < i ==> a@[k] == b@[k],
        decreases a.len() - i,
    {
        if a[i] != b[i] {
            return false;
        }
        i = i + 1;
    }
    assert(a@ =~= b@);
    true
}

/// The commitment string for a plaintext.
pub fn commitment_of(plain: &Vec<u8>) -> (r: Vec<u8>)
    ensures
        r@ == spec_commitment_of(plain@),
{
    let digest = blake2_256_digest(plain);
    encode_hex(&digest)
}

/// Whether the stored commitment is matched by the revealed plaintext.
pub fn check_commitment(stored: &Vec<u8>, plain: &Vec<u8>) -> (r: bool)
    ensures
        r == commitment_matches(stored@, plain@),
{
    let computed = commitment_of(plain);
    bytes_eq(&computed, stored)
}

/// The hexadecimal encoding of `n` bytes has `2 n` digits.
pub proof fn lemma_hex_of_len(bytes: Seq<u8>)
    ensures
        hex_of(bytes).len() == 2 * bytes.len(),
    decreases bytes.len(),
{
    if bytes.len() > 0 {
        lemma_hex_of_len(bytes.drop_last());
    }
}

/// Hexadecimal encoding is injective: equal encodings come from equal byte
/// strings.
pub proof fn lemma_hex_of_injective(a: Seq<u8>, b: Seq<u8>)
    requires
        hex_of(a) == hex_of(b),
    ensures
        a == b,
    decreases a.len(),
{
    lemma_hex_of_len(a);
    lemma_hex_of_len(b);
    if a.len() == 0 {
        assert(a =~= b);
    } else {
        let ha = hex_of(a);
        let hb = hex_of(b);
        let la = a.last();
        let lb = b.last();
        assert(ha[ha.len() - 2] == hex_digit((la / 16) as u8));
        assert(ha[ha.len() - 1] == hex_digit((la % 16) as u8));
        assert(hb[hb.len() - 2] == hex_digit((lb / 16) as u8));
        assert(hb[hb.len() - 1] == hex_digit((lb % 16) as u8));
        assert(la / 16 == lb / 16 && la % 16 == lb % 16) by {
            assert(la / 16 < 16 && lb / 16 < 16 && la % 16 < 16 && lb % 16 < 16);
        }
        assert(la == lb);
        assert(hex_of(a.drop_last()) == hex_of(b.drop_last())) by {
            lemma_hex_of_len(a.drop_last());
            lemma_hex_of_len(b.drop_last());
            assert(hex_of(a.drop_last()) =~= hex_of(b.drop_last())) by {
                assert forall|k: int| 0 <= k < ha.len() - 2 implies hex_of(a.drop_last())[k]
                    == hex_of(b.drop_last())[k] by {
                    assert(ha[k] == hex_of(a.drop_last())[k]);
                    assert(hb[k] == hex_of(b.drop_last())[k]);
                }
            }
        }
        lemma_hex_of_injective(a.drop_last(), b.drop_last());
        assert(a =~= b) by {
            assert(forall|k: int| 0 <= k < a.len() - 1 ==> a[k] == a.drop_last()[k]);
            assert(forall|k: int| 0 <= k < b.len() - 1 ==> b[k] == b.drop_last()[k]);
        }
    }
}

/// Commitment round trip: a commitment produced from some plaintext is
/// matched by a reveal exactly when the revealed bytes have the same digest
/// as the committed bytes; in particular, revealing the very bytes that were
/// committed always matches.  A reveal whose digest differs from the
/// committed one is always rejected.
pub proof fn lemma_commitment_round_trip(committed: Seq<u8>, revealed: Seq<u8>)
    ensures
        commitment_matches(spec_commitment_of(committed), revealed) <==> blake2b_256_of(revealed)
            == blake2b_256_of(committed),
        commitment_matches(spec_commitment_of(committed), committed),
{
    if commitment_matches(spec_commitment_of(committed), revealed) {
        lemma_hex_of_injective(blake2b_256_of(revealed), blake2b_256_of(committed));
    }
}

} // verus!
