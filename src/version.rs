use vstd::prelude::*;
use crate::keys::{WzCryptoContext, DEFAULT_WZ_IV, GMS_WZ_IV, SEA_WZ_IV, WZ_AES_KEY, WZ_OFFSET_MAGIC};

verus! {

/// The ASCII decimal digits of `n`, most significant first.
pub open spec fn dec_digits(n: nat) -> Seq<u8>
    decreases n,
{
    if n < 10 {
        seq![(48 + n) as u8]
    } else {
        dec_digits(n / 10).push((48 + n % 10) as u8)
    }
}

/// The hash fold over a byte string: `acc = (acc << 5) + byte + 1`, starting at zero.
pub open spec fn hash_fold(s: Seq<u8>) -> int
    decreases s.len(),
{
    if s.len() == 0 {
        0
    } else {
        hash_fold(s.drop_last()) * 32 + s.last() + 1
    }
}

/// The hash of a version number: the fold over its decimal digits.
pub open spec fn spec_version_hash(v: u16) -> int {
    hash_fold(dec_digits(v as nat))
}

/// The byte that an archive stores for a version hash: `0xFF` xored with the four bytes of the hash.
pub open spec fn spec_encrypt_version(h: u32) -> u16 {
    ((0xFFu32 ^ ((h >> 24u32) & 0xFFu32) ^ ((h >> 16u32) & 0xFFu32) ^ ((h >> 8u32) & 0xFFu32) ^ (h
        & 0xFFu32)) & 0xFFu32) as u16
}

pub open spec fn pow10(k: nat) -> nat
    decreases k,
{
    if k == 0 {
        1
    } else {
        10 * pow10((k - 1) as nat)
    }
}

/// An upper bound on the fold over `k` decimal digits.
pub open spec fn fold_bound(k: nat) -> nat
    decreases k,
{
    if k == 0 {
        1
    } else {
        32 * fold_bound((k - 1) as nat) + 59
    }
}

proof fn lemma_digits_len(n: nat, k: nat)
    requires
        1 <= k,
        n < pow10(k),
    ensures
        dec_digits(n).len() <= k,
        dec_digits(n).len() >= 1,
    decreases n,
{
    if n >= 10 {
        assert(k >= 2) by {
            if k == 1 {
                assert(pow10(1) == 10) by {
                    reveal_with_fuel(pow10, 2);
                }
            }
        }
        assert(n / 10 < pow10((k - 1) as nat)) by {
            assert(pow10(k) == 10 * pow10((k - 1) as nat));
        }
        lemma_digits_len(n / 10, (k - 1) as nat);
    }
}

proof fn lemma_digits_are_digits(n: nat)
    ensures
        forall|i: int| 0 <= i < dec_digits(n).len() ==> 48 <= #[trigger] dec_digits(n)[i] <= 57,
    decreases n,
{
    if n >= 10 {
        lemma_digits_are_digits(n / 10);
        let p = dec_digits(n / 10);
        assert(dec_digits(n) == p.push((48 + n % 10) as u8));
        assert forall|i: int| 0 <= i < dec_digits(n).len() implies 48 <= #[trigger] dec_digits(
            n,
        )[i] <= 57 by {
            if i < p.len() {
                assert(dec_digits(n)[i] == p[i]);
            }
        }
    }
}

proof fn lemma_fold_bound_mono(i: nat, j: nat)
    requires
        i <= j,
    ensures
        fold_bound(i) <= fold_bound(j),
    decreases j,
{
    if i < j {
        lemma_fold_bound_mono(i, (j - 1) as nat);
    }
}

fn decimal_digits(v: u16) -> (r: Vec<u8>)
    ensures
        r@ == dec_digits(v as nat),
    decreases v,
{
    if v < 10 {
        let d: u8 = 48u8 + v as u8;
        vec![d]
    } else {
        let mut r = decimal_digits(v / 10);
        let d: u8 = 48u8 + (v % 10) as u8;
        r.push(d);
        r
    }
}

/// Hashes a version number over its decimal representation.
pub fn version_hash(v: u16) -> (r: u32)
    ensures
        r as int == spec_version_hash(v),
{
    let digits = decimal_digits(v);
    proof {
        assert(pow10(5) == 100000) by {
            reveal_with_fuel(pow10, 6);
        }
        lemma_digits_len(v as nat, 5);
        lemma_digits_are_digits(v as nat);
        assert(fold_bound(5) == 97416091) by {
            reveal_with_fuel(fold_bound, 6);
        }
    }
    let mut acc: u32 = 0;
    let mut i: usize = 0;
    while i < digits.len()
        invariant
            i <= digits.len() <= 5,
            digits@ == dec_digits(v as nat),
            forall|j: int| 0 <= j < digits.len() ==> 48 <= #[trigger] digits@[j] <= 57,
            acc as int == hash_fold(digits@.take(i as int)),
            acc < fold_bound(i as nat),
            fold_bound(5) == 97416091,
        decreases digits.len() - i,
    {
        proof {
            lemma_fold_bound_mono((i + 1) as nat, 5);
            assert(digits@.take(i + 1).drop_last() == digits@.take(i as int));
            assert(fold_bound((i + 1) as nat) == 32 * fold_bound(i as nat) + 59);
        }
        let d = digits[i];
        acc = acc * 32 + d as u32 + 1;
        i = i + 1;
    }
    assert(digits@.take(digits.len() as int) == digits@);
    acc
}

/// The stored form of a version hash.
pub fn encrypt_version(hash: u32) -> (r: u16)
    ensures
        r == spec_encrypt_version(hash),
        r <= 0xFF,
{
    let r = (0xFFu32 ^ ((hash >> 24u32) & 0xFFu32) ^ ((hash >> 16u32) & 0xFFu32) ^ ((hash >> 8u32)
        & 0xFFu32) ^ (hash & 0xFFu32)) & 0xFFu32;
    assert(r <= 0xFF) by (bit_vector)
        requires
            r == (0xFFu32 ^ ((hash >> 24u32) & 0xFFu32) ^ ((hash >> 16u32) & 0xFFu32) ^ ((hash
                >> 8u32) & 0xFFu32) ^ (hash & 0xFFu32)) & 0xFFu32,
    ;
    r as u16
}

/// The version number that an archive was written for.
#[derive(Debug, Clone, Copy, PartialEq, Eq, Structural)]
pub struct WzVersion(pub u16);

impl WzVersion {
    pub fn hash(&self) -> (r: u32)
        ensures
            r as int == spec_version_hash(self.0),
    {
        version_hash(self.0)
    }

    pub fn encrypted_version(&self) -> (r: u16)
        ensures
            r as int == spec_encrypt_version(spec_version_hash(self.0) as u32),
    {
        encrypt_version(self.hash())
    }
}

} // verus!

verus! {

/// The region an archive was published for; it selects the initial vector.
#[derive(Debug, Clone, Copy, PartialEq, Eq, Structural)]
pub enum WzRegion {
    GMS,
    SEA,
    Other,
    BmsSrv,
}

/// The initial vector that a region uses.
pub open spec fn region_iv(r: WzRegion) -> [u8; 16] {
    match r {
        WzRegion::GMS => GMS_WZ_IV,
        WzRegion::SEA => SEA_WZ_IV,
        WzRegion::Other => DEFAULT_WZ_IV,
        WzRegion::BmsSrv => DEFAULT_WZ_IV,
    }
}

impl WzRegion {
    pub fn crypto_context(&self) -> (r: WzCryptoContext)
        ensures
            r.initial_iv == region_iv(*self),
            r.key == WZ_AES_KEY,
            r.offset_magic == WZ_OFFSET_MAGIC,
    {
        match self {
            WzRegion::GMS => WzCryptoContext::with_iv(GMS_WZ_IV),
            WzRegion::SEA => WzCryptoContext::with_iv(SEA_WZ_IV),
            WzRegion::Other => WzCryptoContext::with_iv(DEFAULT_WZ_IV),
            WzRegion::BmsSrv => WzCryptoContext::with_iv(DEFAULT_WZ_IV),
        }
    }
}

} // verus!
