use vstd::prelude::*;
use aes::cipher::{BlockEncrypt, KeyInit};
use crate::keys::WzCryptoContext;
use crate::version::{spec_version_hash, WzVersion};
use crate::WzConfig;

verus! {

/// Number of key-stream bytes precomputed at construction.
pub const WZ_KEY_BUFFER_LEN: usize = 4096;

/// AES-256 encryption of one 16-byte block under a 32-byte key.
pub uninterp spec fn aes256_encrypt(key: Seq<u8>, block: Seq<u8>) -> Seq<u8>;

/// Relies on the aes crate: `Aes256::new` (cipher's `KeyInit`) with the key, then
/// `BlockEncrypt::encrypt_block` on the block; the result depends on key and block alone.
#[verifier::external_body]
fn aes256_encrypt_block(key: &[u8; 32], block: &mut [u8; 16])
    ensures
        final(block)@ == aes256_encrypt(key@, old(block)@),
{
    let cipher = aes::Aes256::new(key.into());
    cipher.encrypt_block(block.into());
}

/// The `i`-th block of the key stream: the initial vector encrypted `i + 1` times.
pub open spec fn key_block(key: Seq<u8>, iv: Seq<u8>, i: nat) -> Seq<u8>
    decreases i,
{
    if i == 0 {
        aes256_encrypt(key, iv)
    } else {
        aes256_encrypt(key, key_block(key, iv, (i - 1) as nat))
    }
}

/// The `j`-th byte of the key stream.
pub open spec fn key_stream_byte(key: Seq<u8>, iv: Seq<u8>, j: nat) -> u8 {
    key_block(key, iv, j / 16)[(j % 16) as int]
}

/// A byte string xored with the key stream, which restarts at the initial vector.
pub open spec fn spec_transform(key: Seq<u8>, iv: Seq<u8>, s: Seq<u8>) -> Seq<u8> {
    Seq::new(s.len(), |j: int| s[j] ^ key_stream_byte(key, iv, j as nat))
}

/// Rotation of a 32-bit word to the left by `r` bits.
pub open spec fn rotl(x: u32, r: u32) -> u32 {
    if r == 0 || r >= 32 {
        x
    } else {
        (x << r) | (x >> ((32 - r) as u32))
    }
}

/// The key that obfuscates an offset field stored at `pos`.
pub open spec fn spec_offset_key(pos: u32, data_offset: u32, hash: u32, magic: u32) -> u32 {
    let x = !vstd::wrapping::u32_specs::wrapping_sub(pos, data_offset);
    let off = vstd::wrapping::u32_specs::wrapping_sub(
        vstd::wrapping::u32_specs::wrapping_mul(x, hash),
        magic,
    );
    rotl(off, off & 0x1Fu32)
}

pub open spec fn twice(d: u32) -> u32 {
    vstd::wrapping::u32_specs::wrapping_mul(d, 2)
}

pub open spec fn spec_decrypt_offset(
    enc: u32,
    pos: u32,
    data_offset: u32,
    hash: u32,
    magic: u32,
) -> u32 {
    vstd::wrapping::u32_specs::wrapping_add(
        spec_offset_key(pos, data_offset, hash, magic) ^ enc,
        twice(data_offset),
    )
}

pub open spec fn spec_encrypt_offset(
    off: u32,
    pos: u32,
    data_offset: u32,
    hash: u32,
    magic: u32,
) -> u32 {
    vstd::wrapping::u32_specs::wrapping_sub(off, twice(data_offset)) ^ spec_offset_key(
        pos,
        data_offset,
        hash,
        magic,
    )
}

/// The stream cipher and offset scrambling of one archive.
#[derive(Debug, Clone)]
pub struct WzCrypto {
    key: [u8; 32],
    iv: [u8; 16],
    version_hash: u32,
    xor_key_buffer: Vec<u8>,
    data_offset: u32,
    offset_magic: u32,
}

impl WzCrypto {
    pub closed spec fn spec_key(&self) -> Seq<u8> {
        self.key@
    }

    pub closed spec fn spec_iv(&self) -> Seq<u8> {
        self.iv@
    }

    pub closed spec fn spec_version_hash(&self) -> u32 {
        self.version_hash
    }

    pub closed spec fn spec_data_offset(&self) -> u32 {
        self.data_offset
    }

    pub closed spec fn spec_offset_magic(&self) -> u32 {
        self.offset_magic
    }

    /// The precomputed buffer holds the first bytes of the key stream.
    pub closed spec fn wf(&self) -> bool {
        &&& self.xor_key_buffer@.len() == WZ_KEY_BUFFER_LEN
        &&& forall|j: int|
            0 <= j < WZ_KEY_BUFFER_LEN ==> #[trigger] self.xor_key_buffer@[j] == key_stream_byte(
                self.key@,
                self.iv@,
                j as nat,
            )
    }

    pub fn new(ctx: &WzCryptoContext, version: WzVersion, data_offset: u32) -> (r: WzCrypto)
        ensures
            r.wf(),
            r.spec_key() == ctx.key@,
            r.spec_iv() == ctx.initial_iv@,
            r.spec_version_hash() as int == spec_version_hash(version.0),
            r.spec_data_offset() == data_offset,
            r.spec_offset_magic() == ctx.offset_magic,
    {
        let buf = Self::key_stream(&ctx.key, &ctx.initial_iv, 256);
        WzCrypto {
            key: ctx.key,
            iv: ctx.initial_iv,
            version_hash: version.hash(),
            xor_key_buffer: buf,
            data_offset,
            offset_magic: ctx.offset_magic,
        }
    }

    pub fn from_cfg(cfg: WzConfig, data_offset: u32) -> (r: WzCrypto)
        ensures
            r.wf(),
            r.spec_key() == crate::keys::WZ_AES_KEY@,
            r.spec_iv() == crate::version::region_iv(cfg.region)@,
            r.spec_version_hash() as int == spec_version_hash(cfg.version.0),
            r.spec_data_offset() == data_offset,
            r.spec_offset_magic() == crate::keys::WZ_OFFSET_MAGIC,
    {
        let ctx = cfg.region.crypto_context();
        Self::new(&ctx, cfg.version, data_offset)
    }

    /// The first `n_blocks` blocks of the key stream.
    fn key_stream(key: &[u8; 32], iv: &[u8; 16], n_blocks: usize) -> (r: Vec<u8>)
        requires
            n_blocks <= 0x1000_0000,
        ensures
            r@.len() == 16 * n_blocks,
            forall|j: int| 0 <= j < r@.len() ==> #[trigger] r@[j] == key_stream_byte(key@, iv@, j as nat),
    {
        let mut buf: Vec<u8> = Vec::new();
        let mut cur: [u8; 16] = *iv;
        let mut b: usize = 0;
        while b < n_blocks
            invariant
                b <= n_blocks <= 0x1000_0000,
                buf@.len() == 16 * b,
                b > 0 ==> cur@ == key_block(key@, iv@, (b - 1) as nat),
                b == 0 ==> cur@ == iv@,
                forall|j: int| 0 <= j < buf@.len() ==> #[trigger] buf@[j] == key_stream_byte(key@, iv@, j as nat),
            decreases n_blocks - b,
        {
            aes256_encrypt_block(key, &mut cur);
            assert(cur@ == key_block(key@, iv@, b as nat));
            let mut k: usize = 0;
            while k < 16
                invariant
                    k <= 16,
                    b < n_blocks <= 0x1000_0000,
                    buf@.len() == 16 * b + k,
                    cur@ == key_block(key@, iv@, b as nat),
                    forall|j: int| 0 <= j < buf@.len() ==> #[trigger] buf@[j] == key_stream_byte(key@, iv@, j as nat),
                decreases 16 - k,
            {
                let j = 16 * b + k;
                assert(j / 16 == b && j % 16 == k) by (nonlinear_arith)
                    requires
                        j == 16 * b + k,
                        k < 16,
                ;
                buf.push(cur[k]);
                k = k + 1;
            }
            b = b + 1;
        }
        buf
    }

    /// Xors `buf` with the key stream, starting over at the initial vector.
    pub fn transform(&self, buf: &mut Vec<u8>)
        requires
            self.wf(),
        ensures
            final(buf)@ == spec_transform(self.spec_key(), self.spec_iv(), old(buf)@),
    {
        let n = buf.len();
        if n <= WZ_KEY_BUFFER_LEN {
            let mut i: usize = 0;
            while i < n
                invariant
                    self.wf(),
                    n == buf@.len() == old(buf)@.len(),
                    n <= WZ_KEY_BUFFER_LEN,
                    i <= n,
                    forall|j: int| 0 <= j < i ==> #[trigger] buf@[j] == old(buf)@[j] ^ key_stream_byte(self.key@, self.iv@, j as nat),
                    forall|j: int| i <= j < n ==> #[trigger] buf@[j] == old(buf)@[j],
                decreases n - i,
            {
                let v = buf[i] ^ self.xor_key_buffer[i];
                buf.set(i, v);
                i = i + 1;
            }
        } else {
            let mut cur: [u8; 16] = self.iv;
            let mut i: usize = 0;
            while i < n
                invariant
                    n == buf@.len() == old(buf)@.len(),
                    i <= n,
                    i < n ==> i % 16 == 0,
                    i < n && i > 0 ==> cur@ == key_block(self.key@, self.iv@, (i / 16 - 1) as nat),
                    i == 0 ==> cur@ == self.iv@,
                    forall|j: int| 0 <= j < i ==> #[trigger] buf@[j] == old(buf)@[j] ^ key_stream_byte(self.key@, self.iv@, j as nat),
                    forall|j: int| i <= j < n ==> #[trigger] buf@[j] == old(buf)@[j],
                decreases n - i,
            {
                aes256_encrypt_block(&self.key, &mut cur);
                assert(cur@ == key_block(self.key@, self.iv@, (i / 16) as nat));
                let start = i;
                let mut k: usize = 0;
                while k < 16 && i < n
                    invariant
                        n == buf@.len() == old(buf)@.len(),
                        start % 16 == 0,
                        start < n,
                        k <= 16,
                        i == start + k,
                        i <= n,
                        cur@ == key_block(self.key@, self.iv@, (start / 16) as nat),
                        forall|j: int| 0 <= j < i ==> #[trigger] buf@[j] == old(buf)@[j] ^ key_stream_byte(self.key@, self.iv@, j as nat),
                        forall|j: int| i <= j < n ==> #[trigger] buf@[j] == old(buf)@[j],
                    decreases 16 - k,
                {
                    assert(i / 16 == start / 16 && i % 16 == k) by (nonlinear_arith)
                        requires
                            i == start + k,
                            k < 16,
                            start % 16 == 0,
                    ;
                    let v = buf[i] ^ cur[k];
                    buf.set(i, v);
                    k = k + 1;
                    i = i + 1;
                }
                if i < n {
                    assert(i % 16 == 0 && i / 16 - 1 == start / 16) by (nonlinear_arith)
                        requires
                            i == start + 16,
                            start % 16 == 0,
                    ;
                }
            }
        }
        assert(buf@ == spec_transform(self.key@, self.iv@, old(buf)@));
    }

    pub fn decrypt_offset(&self, encrypted_offset: u32, pos: u32) -> (r: u32)
        ensures
            r == spec_decrypt_offset(
                encrypted_offset,
                pos,
                self.spec_data_offset(),
                self.spec_version_hash(),
                self.spec_offset_magic(),
            ),
    {
        let k = offset_key_at(pos, self.data_offset, self.version_hash, self.offset_magic);
        (k ^ encrypted_offset).wrapping_add(self.data_offset.wrapping_mul(2))
    }

    pub fn encrypt_offset(&self, off: u32, pos: u32) -> (r: u32)
        ensures
            r == spec_encrypt_offset(
                off,
                pos,
                self.spec_data_offset(),
                self.spec_version_hash(),
                self.spec_offset_magic(),
            ),
    {
        let off = off.wrapping_sub(self.data_offset.wrapping_mul(2));
        off ^ offset_key_at(pos, self.data_offset, self.version_hash, self.offset_magic)
    }

    /// The absolute position that a link offset points at.
    pub fn offset_link(&self, off: u32) -> (r: u64)
        ensures
            r == self.spec_data_offset() as u64 + off as u64,
    {
        self.data_offset as u64 + off as u64
    }

    pub fn data_offset(&self) -> (r: u32)
        ensures
            r == self.spec_data_offset(),
    {
        self.data_offset
    }
}

fn rotate_left(x: u32, r: u32) -> (res: u32)
    requires
        r < 32,
    ensures
        res == rotl(x, r),
{
    if r == 0 {
        x
    } else {
        (x << r) | (x >> (32 - r))
    }
}

fn offset_key_at(pos: u32, data_offset: u32, hash: u32, magic: u32) -> (r: u32)
    ensures
        r == spec_offset_key(pos, data_offset, hash, magic),
{
    let x = !pos.wrapping_sub(data_offset);
    let off = x.wrapping_mul(hash).wrapping_sub(magic);
    let r = off & 0x1F;
    assert(r < 32) by (bit_vector)
        requires
            r == off & 0x1Fu32,
    ;
    rotate_left(off, r)
}

/// Xoring with the key stream twice gives the input back.
pub proof fn lemma_transform_involution(key: Seq<u8>, iv: Seq<u8>, s: Seq<u8>)
    ensures
        spec_transform(key, iv, spec_transform(key, iv, s)) == s,
{
    let t = spec_transform(key, iv, spec_transform(key, iv, s));
    assert forall|j: int| 0 <= j < s.len() implies t[j] == s[j] by {
        let a = s[j];
        let k = key_stream_byte(key, iv, j as nat);
        assert((a ^ k) ^ k == a) by (bit_vector);
    }
    assert(t == s);
}

/// Decrypting an encrypted offset at the same position gives the offset back.
pub proof fn lemma_offset_round_trip(off: u32, pos: u32, data_offset: u32, hash: u32, magic: u32)
    ensures
        spec_decrypt_offset(
            spec_encrypt_offset(off, pos, data_offset, hash, magic),
            pos,
            data_offset,
            hash,
            magic,
        ) == off,
{
    let k = spec_offset_key(pos, data_offset, hash, magic);
    let a = vstd::wrapping::u32_specs::wrapping_sub(off, twice(data_offset));
    assert(k ^ (a ^ k) == a) by (bit_vector);
}

} // verus!

verus! {

impl WzCrypto {
    /// Both instances encipher and scramble offsets alike.
    pub open spec fn same_cipher(&self, o: WzCrypto) -> bool {
        &&& self.spec_key() == o.spec_key()
        &&& self.spec_iv() == o.spec_iv()
        &&& self.spec_version_hash() == o.spec_version_hash()
        &&& self.spec_data_offset() == o.spec_data_offset()
        &&& self.spec_offset_magic() == o.spec_offset_magic()
    }

    /// A second instance with the same keys, stream buffer and offsets.
    pub fn duplicate(&self) -> (r: WzCrypto)
        ensures
            r.wf() == self.wf(),
            r.spec_key() == self.spec_key(),
            r.spec_iv() == self.spec_iv(),
            r.spec_version_hash() == self.spec_version_hash(),
            r.spec_data_offset() == self.spec_data_offset(),
            r.spec_offset_magic() == self.spec_offset_magic(),
    {
        WzCrypto {
            key: self.key,
            iv: self.iv,
            version_hash: self.version_hash,
            xor_key_buffer: self.xor_key_buffer.clone(),
            data_offset: self.data_offset,
            offset_magic: self.offset_magic,
        }
    }
}

} // verus!
