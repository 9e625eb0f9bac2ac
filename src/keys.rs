use vstd::prelude::*;

verus! {

pub const WZ_IV_LEN: usize = 16;

/// Initial vector of the global region.
pub const GMS_WZ_IV: [u8; 16] = [
    0x4D, 0x23, 0xC7, 0x2B, 0x4D, 0x23, 0xC7, 0x2B, 0x4D, 0x23, 0xC7, 0x2B, 0x4D, 0x23, 0xC7, 0x2B,
];

/// Initial vector of the south-east Asian region.
pub const SEA_WZ_IV: [u8; 16] = [
    0xB9, 0x7D, 0x63, 0xE9, 0xB9, 0x7D, 0x63, 0xE9, 0xB9, 0x7D, 0x63, 0xE9, 0xB9, 0x7D, 0x63, 0xE9,
];

/// Initial vector of every other region.
pub const DEFAULT_WZ_IV: [u8; 16] = [0, 0, 0, 0, 0, 0, 0, 0, 0, 0, 0, 0, 0, 0, 0, 0];

/// The AES-256 key shared by all regions.
pub const WZ_AES_KEY: [u8; 32] = [
    0x13, 0x00, 0x00, 0x00, 0x08, 0x00, 0x00, 0x00, 0x06, 0x00, 0x00, 0x00, 0xB4, 0x00, 0x00, 0x00,
    0x1B, 0x00, 0x00, 0x00, 0x0F, 0x00, 0x00, 0x00, 0x33, 0x00, 0x00, 0x00, 0x52, 0x00, 0x00, 0x00,
];

/// The constant that offset obfuscation subtracts.
pub const WZ_OFFSET_MAGIC: u32 = 0x581C3F6D;

/// The key material of one region.
#[derive(Debug, Clone, Copy)]
pub struct WzCryptoContext {
    pub initial_iv: [u8; 16],
    pub key: [u8; 32],
    pub offset_magic: u32,
}

impl WzCryptoContext {
    /// The key material for the given initial vector, with the shared key and magic.
    pub fn with_iv(iv: [u8; 16]) -> (r: WzCryptoContext)
        ensures
            r.initial_iv == iv,
            r.key == WZ_AES_KEY,
            r.offset_magic == WZ_OFFSET_MAGIC,
    {
        WzCryptoContext { initial_iv: iv, key: WZ_AES_KEY, offset_magic: WZ_OFFSET_MAGIC }
    }
}

} // verus!
