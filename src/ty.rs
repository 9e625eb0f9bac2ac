use vstd::prelude::*;
use crate::bytes::{
    le_u32, le_u64, lemma_signed32, lemma_signed64, lemma_u32_bytes, lemma_u64_bytes, push_u32, push_u64,
    read_u32, read_u64, read_u8, signed32, signed64, signed8, to_signed32, to_signed64, to_unsigned32,
    to_unsigned64, u32_bytes, u64_bytes, unsigned32, unsigned64,
};
use crate::crypto::{lemma_transform_involution, spec_transform, WzCrypto};
use crate::text::{utf16_decoded, utf16_encoded};
use crate::error::{WzError, WzErrorKind};

verus! {

/// The byte that holds a value of `-127..=127` in the compact form.
pub open spec fn small_byte(v: int) -> u8 {
    if v >= 0 {
        v as u8
    } else {
        (v + 256) as u8
    }
}

/// The compressed form of an `i32`: the value itself as one signed byte when it fits in
/// `-127..=127`, else the flag `-128` followed by the full little-endian word.
pub open spec fn spec_wz_int_bytes(v: i32) -> Seq<u8> {
    if -127 <= v <= 127 {
        seq![small_byte(v as int)]
    } else {
        seq![0x80u8] + u32_bytes(unsigned32(v))
    }
}

pub open spec fn spec_wz_long_bytes(v: i64) -> Seq<u8> {
    if -127 <= v <= 127 {
        seq![small_byte(v as int)]
    } else {
        seq![0x80u8] + u64_bytes(unsigned64(v))
    }
}

/// The compressed `i32` at `p`, with the position after it.
pub open spec fn spec_read_wz_int(d: Seq<u8>, p: int) -> Option<(i32, int)> {
    if 0 <= p < d.len() {
        if d[p] == 0x80 {
            if p + 5 <= d.len() {
                Some((signed32(le_u32(d, p + 1)), p + 5))
            } else {
                None
            }
        } else {
            Some((signed8(d[p]) as i32, p + 1))
        }
    } else {
        None
    }
}

pub open spec fn spec_read_wz_long(d: Seq<u8>, p: int) -> Option<(i64, int)> {
    if 0 <= p < d.len() {
        if d[p] == 0x80 {
            if p + 9 <= d.len() {
                Some((signed64(le_u64(d, p + 1)), p + 9))
            } else {
                None
            }
        } else {
            Some((signed8(d[p]) as i64, p + 1))
        }
    } else {
        None
    }
}

/// Compressed Int
#[derive(Debug, Clone, Copy, PartialEq, Eq, Structural)]
pub struct WzInt(pub i32);

/// Compressed Long
#[derive(Debug, Clone, Copy, PartialEq, Eq, Structural)]
pub struct WzLong(pub i64);

fn small_to_byte(v: i32) -> (r: u8)
    requires
        -128 <= v <= 127,
    ensures
        r == small_byte(v as int),
{
    if v >= 0 {
        v as u8
    } else {
        (v + 256) as u8
    }
}

fn byte_to_small(b: u8) -> (r: i32)
    ensures
        r == signed8(b),
{
    if b < 128 {
        b as i32
    } else {
        b as i32 - 256
    }
}

impl WzInt {
    pub fn read(d: &[u8], pos: usize) -> (r: Result<(WzInt, usize), WzError>)
        ensures
            match r {
                Ok((v, np)) => spec_read_wz_int(d@, pos as int) == Some((v.0, np as int)),
                Err(e) => spec_read_wz_int(d@, pos as int) is None && e.kind == WzErrorKind::IO,
            },
    {
        let flag = read_u8(d, pos)?;
        if flag == 0x80 {
            let u = read_u32(d, pos + 1)?;
            Ok((WzInt(to_signed32(u)), pos + 5))
        } else {
            Ok((WzInt(byte_to_small(flag)), pos + 1))
        }
    }

    pub fn write(&self, out: &mut Vec<u8>)
        ensures
            final(out)@ == old(out)@ + spec_wz_int_bytes(self.0),
    {
        if -127 <= self.0 && self.0 <= 127 {
            out.push(small_to_byte(self.0));
            assert(final(out)@ =~= old(out)@ + spec_wz_int_bytes(self.0));
        } else {
            out.push(0x80u8);
            push_u32(out, to_unsigned32(self.0));
            assert(final(out)@ =~= old(out)@ + spec_wz_int_bytes(self.0));
        }
    }
}

impl WzLong {
    pub fn read(d: &[u8], pos: usize) -> (r: Result<(WzLong, usize), WzError>)
        ensures
            match r {
                Ok((v, np)) => spec_read_wz_long(d@, pos as int) == Some((v.0, np as int)),
                Err(e) => spec_read_wz_long(d@, pos as int) is None && e.kind == WzErrorKind::IO,
            },
    {
        let flag = read_u8(d, pos)?;
        if flag == 0x80 {
            let u = read_u64(d, pos + 1)?;
            Ok((WzLong(to_signed64(u)), pos + 9))
        } else {
            Ok((WzLong(byte_to_small(flag) as i64), pos + 1))
        }
    }

    pub fn write(&self, out: &mut Vec<u8>)
        ensures
            final(out)@ == old(out)@ + spec_wz_long_bytes(self.0),
    {
        if -127 <= self.0 && self.0 <= 127 {
            out.push(small_to_byte(self.0 as i32));
            assert(final(out)@ =~= old(out)@ + spec_wz_long_bytes(self.0));
        } else {
            out.push(0x80u8);
            push_u64(out, to_unsigned64(self.0));
            assert(final(out)@ =~= old(out)@ + spec_wz_long_bytes(self.0));
        }
    }
}

/// A compressed `i32` takes one byte exactly for `-127..=127` and five bytes otherwise, and
/// reading it back, wherever it stands, gives the value and the position after it.
pub proof fn lemma_wz_int_round_trip(v: i32, pre: Seq<u8>, rest: Seq<u8>)
    ensures
        spec_wz_int_bytes(v).len() == (if -127 <= v <= 127 { 1int } else { 5int }),
        spec_read_wz_int(pre + spec_wz_int_bytes(v) + rest, pre.len() as int) == Some(
            (v, pre.len() + spec_wz_int_bytes(v).len() as int),
        ),
{
    let d = pre + spec_wz_int_bytes(v) + rest;
    let p = pre.len() as int;
    if -127 <= v <= 127 {
        assert(d[p] == small_byte(v as int));
    } else {
        let w = unsigned32(v);
        assert(d[p] == 0x80u8);
        assert(d == (pre + seq![0x80u8]) + u32_bytes(w) + rest);
        lemma_u32_bytes(w, rest, pre + seq![0x80u8]);
        lemma_signed32(v);
    }
}

/// The same law for compressed `i64`: one byte for `-127..=127`, nine bytes otherwise.
pub proof fn lemma_wz_long_round_trip(v: i64, pre: Seq<u8>, rest: Seq<u8>)
    ensures
        spec_wz_long_bytes(v).len() == (if -127 <= v <= 127 { 1int } else { 9int }),
        spec_read_wz_long(pre + spec_wz_long_bytes(v) + rest, pre.len() as int) == Some(
            (v, pre.len() + spec_wz_long_bytes(v).len() as int),
        ),
{
    let d = pre + spec_wz_long_bytes(v) + rest;
    let p = pre.len() as int;
    if -127 <= v <= 127 {
        assert(d[p] == small_byte(v as int));
    } else {
        let w = unsigned64(v);
        assert(d[p] == 0x80u8);
        assert(d == (pre + seq![0x80u8]) + u64_bytes(w) + rest);
        lemma_u64_bytes(w, rest, pre + seq![0x80u8]);
        lemma_signed64(v);
    }
}

/// A file offset, stored obfuscated.
#[derive(Debug, Clone, Copy, PartialEq, Eq, Structural)]
pub struct WzOffset(pub u32);

/// The offset stored at `p`, decrypted with the position of the field.
pub open spec fn spec_read_offset(c: WzCrypto, d: Seq<u8>, p: int) -> Option<u32> {
    if 0 <= p && p + 4 <= d.len() {
        Some(
            crate::crypto::spec_decrypt_offset(
                le_u32(d, p),
                p as u32,
                c.spec_data_offset(),
                c.spec_version_hash(),
                c.spec_offset_magic(),
            ),
        )
    } else {
        None
    }
}

impl WzOffset {
    pub fn read(crypto: &WzCrypto, d: &[u8], pos: usize) -> (r: Result<(WzOffset, usize), WzError>)
        ensures
            match r {
                Ok((v, np)) => spec_read_offset(*crypto, d@, pos as int) == Some(v.0) && np
                    == pos + 4,
                Err(e) => spec_read_offset(*crypto, d@, pos as int) is None && e.kind
                    == WzErrorKind::IO,
            },
    {
        let v = read_u32(d, pos)?;
        Ok((WzOffset(crypto.decrypt_offset(v, #[verifier::truncate] (pos as u32))), pos + 4))
    }

    pub fn write(&self, crypto: &WzCrypto, out: &mut Vec<u8>)
        ensures
            final(out)@ == old(out)@ + u32_bytes(
                crate::crypto::spec_encrypt_offset(
                    self.0,
                    old(out)@.len() as u32,
                    crypto.spec_data_offset(),
                    crypto.spec_version_hash(),
                    crypto.spec_offset_magic(),
                ),
            ),
    {
        let pos = out.len() as u32;
        push_u32(out, crypto.encrypt_offset(self.0, pos));
    }
}

} // verus!

verus! {

/// The rolling mask over Latin-1 bytes: `0xAA`, then one more per byte, wrapping.
pub open spec fn mask_ascii(s: Seq<u8>) -> Seq<u8> {
    Seq::new(s.len(), |i: int| s[i] ^ (((0xAA + i) % 256) as u8))
}

/// The rolling mask over UTF-16 code units: `0xAAAA`, then one more per unit, wrapping.
pub open spec fn mask_unicode(s: Seq<u16>) -> Seq<u16> {
    Seq::new(s.len(), |i: int| s[i] ^ (((0xAAAA + i) % 65536) as u16))
}

/// The little-endian bytes of a sequence of code units.
pub open spec fn units_bytes(u: Seq<u16>) -> Seq<u8> {
    Seq::new(
        2 * u.len(),
        |i: int|
            if i % 2 == 0 {
                (u[i / 2] % 256) as u8
            } else {
                (u[i / 2] / 256) as u8
            },
    )
}

/// The code units of a little-endian byte string, pair by pair.
pub open spec fn bytes_units(b: Seq<u8>) -> Seq<u16> {
    Seq::new(b.len() / 2, |i: int| (b[2 * i] + 256 * b[2 * i + 1]) as u16)
}

pub open spec fn latin1_chars(b: Seq<u8>) -> Seq<char> {
    Seq::new(b.len(), |i: int| (b[i] as u32) as char)
}

pub open spec fn latin1_bytes(s: Seq<char>) -> Seq<u8> {
    Seq::new(s.len(), |i: int| (s[i] as u32) as u8)
}

pub open spec fn is_latin1(s: Seq<char>) -> bool {
    forall|i: int| 0 <= i < s.len() ==> (#[trigger] s[i] as u32) < 256
}

/// The characters of a Latin-1 body as stored: unmasked, then xored with the key stream.
pub open spec fn spec_latin1_body(c: WzCrypto, raw: Seq<u8>) -> Seq<char> {
    latin1_chars(spec_transform(c.spec_key(), c.spec_iv(), mask_ascii(raw)))
}

/// The code units of a UTF-16 body as stored: unmasked, then xored with the key stream.
pub open spec fn spec_utf16_body(c: WzCrypto, raw: Seq<u8>) -> Seq<u16> {
    bytes_units(
        spec_transform(c.spec_key(), c.spec_iv(), units_bytes(mask_unicode(bytes_units(raw)))),
    )
}

/// The length and the body start of a string whose flag byte stands at `p`, or `None`.
pub open spec fn spec_str_len(d: Seq<u8>, p: int) -> Option<(int, int)> {
    let f = signed8(d[p]);
    if f == -128 || f == 127 {
        if p + 5 <= d.len() {
            Some((signed32(le_u32(d, p + 1)) as int, p + 5))
        } else {
            None
        }
    } else if f <= 0 {
        Some((-f, p + 1))
    } else {
        Some((f, p + 1))
    }
}

/// The string at `p` and the position after it.
pub open spec fn spec_read_wz_str(c: WzCrypto, d: Seq<u8>, p: int) -> Option<(Seq<char>, int)> {
    if !(0 <= p < d.len()) {
        None
    } else {
        match spec_str_len(d, p) {
            None => None,
            Some((n, q)) => {
                if n < 0 {
                    None
                } else if signed8(d[p]) <= 0 {
                    if q + n > d.len() {
                        None
                    } else {
                        Some((spec_latin1_body(c, d.subrange(q, q + n)), q + n))
                    }
                } else {
                    if q + 2 * n > d.len() {
                        None
                    } else {
                        match utf16_decoded(spec_utf16_body(c, d.subrange(q, q + 2 * n))) {
                            Some(cs) => Some((cs, q + 2 * n)),
                            None => None,
                        }
                    }
                }
            },
        }
    }
}

/// The stored form of a string: Latin-1 when every character fits a byte, else UTF-16.
pub open spec fn spec_wz_str_bytes(c: WzCrypto, s: Seq<char>) -> Seq<u8> {
    if is_latin1(s) {
        let n = s.len();
        let head = if n >= 128 {
            seq![0x80u8] + u32_bytes(n as u32)
        } else {
            seq![small_byte(-n)]
        };
        head + mask_ascii(spec_transform(c.spec_key(), c.spec_iv(), latin1_bytes(s)))
    } else {
        let u = utf16_encoded(s);
        let n = u.len();
        let head = if n >= 127 {
            seq![0x7Fu8] + u32_bytes(n as u32)
        } else {
            seq![n as u8]
        };
        head + units_bytes(
            mask_unicode(bytes_units(spec_transform(c.spec_key(), c.spec_iv(), units_bytes(u)))),
        )
    }
}

/// A length-prefixed, masked and enciphered string.
#[derive(Debug, Clone, PartialEq, Eq)]
pub struct WzStr(pub String);

impl WzStr {
    pub fn new(s: String) -> (r: WzStr)
        ensures
            r.0@ == s@,
    {
        WzStr(s)
    }

    pub fn as_str(&self) -> (r: &str)
        ensures
            r@ == self.0@,
    {
        self.0.as_str()
    }

    /// Reads the string at `pos`; returns it with the position after it.
    pub fn read(crypto: &WzCrypto, d: &[u8], pos: usize) -> (r: Result<(WzStr, usize), WzError>)
        requires
            crypto.wf(),
        ensures
            match r {
                Ok((s, np)) => spec_read_wz_str(*crypto, d@, pos as int) == Some(
                    (s.0@, np as int),
                ),
                Err(_) => spec_read_wz_str(*crypto, d@, pos as int) is None,
            },
    {
        let len = d.len();
        let flag = read_u8(d, pos)?;
        let f = byte_to_small(flag);
        let mut n: i32 = if f <= 0 {
            -f
        } else {
            f
        };
        let mut q: usize = pos + 1;
        if f == -128 || f == 127 {
            let u = read_u32(d, pos + 1)?;
            n = to_signed32(u);
            q = pos + 5;
        }
        if n < 0 {
            return Err(WzError::new(WzErrorKind::BadString, pos));
        }
        let n = n as usize;
        if f <= 0 {
            if n > len - q {
                return Err(WzError::new(WzErrorKind::IO, q));
            }
            let body = read_latin1(crypto, d, q, n);
            Ok((WzStr(body), q + n))
        } else {
            if n > (len - q) / 2 {
                return Err(WzError::new(WzErrorKind::IO, q));
            }
            let units = read_utf16_units(crypto, d, q, n);
            match crate::text::string_from_utf16(units.as_slice()) {
                Some(s) => Ok((WzStr(s), q + 2 * n)),
                None => Err(WzError::new(WzErrorKind::BadString, q)),
            }
        }
    }
}

fn read_latin1(crypto: &WzCrypto, d: &[u8], q: usize, n: usize) -> (r: String)
    requires
        crypto.wf(),
        q + n <= d@.len() <= usize::MAX,
    ensures
        r@ == spec_latin1_body(*crypto, d@.subrange(q as int, q + n)),
{
    let mut body = vstd::slice::slice_to_vec(vstd::slice::slice_subrange(d, q, q + n));
    xor_mask_ascii(&mut body);
    crypto.transform(&mut body);
    let mut chars: Vec<char> = Vec::new();
    let mut k: usize = 0;
    while k < body.len()
        invariant
            k <= body@.len(),
            chars@.len() == k,
            forall|j: int| 0 <= j < k ==> #[trigger] chars@[j] == latin1_chars(body@)[j],
        decreases body@.len() - k,
    {
        chars.push(body[k] as char);
        k = k + 1;
    }
    assert(chars@ == latin1_chars(body@));
    crate::text::string_from_chars(chars.as_slice())
}

fn read_utf16_units(crypto: &WzCrypto, d: &[u8], q: usize, n: usize) -> (r: Vec<u16>)
    requires
        crypto.wf(),
        q + 2 * n <= d@.len() <= usize::MAX,
    ensures
        r@ == spec_utf16_body(*crypto, d@.subrange(q as int, q + 2 * n)),
{
    let raw = vstd::slice::slice_subrange(d, q, q + 2 * n);
    let mut units = bytes_to_units(raw);
    xor_mask_unicode(&mut units);
    let mut body = units_to_bytes(&units);
    crypto.transform(&mut body);
    bytes_to_units(body.as_slice())
}

/// Xors each byte with the rolling Latin-1 mask.
pub fn xor_mask_ascii(data: &mut Vec<u8>)
    ensures
        final(data)@ == mask_ascii(old(data)@),
{
    let mut mask: u8 = 0xAA;
    let mut i: usize = 0;
    while i < data.len()
        invariant
            data@.len() == old(data)@.len(),
            i <= data@.len(),
            mask == ((0xAA + i) % 256) as u8,
            forall|j: int| 0 <= j < i ==> #[trigger] data@[j] == mask_ascii(old(data)@)[j],
            forall|j: int| i <= j < data@.len() ==> #[trigger] data@[j] == old(data)@[j],
        decreases data@.len() - i,
    {
        let v = data[i] ^ mask;
        data.set(i, v);
        mask = mask.wrapping_add(1);
        i = i + 1;
    }
    assert(data@ =~= mask_ascii(old(data)@));
}

/// Xors each code unit with the rolling UTF-16 mask.
pub fn xor_mask_unicode(data: &mut Vec<u16>)
    ensures
        final(data)@ == mask_unicode(old(data)@),
{
    let mut mask: u16 = 0xAAAA;
    let mut i: usize = 0;
    while i < data.len()
        invariant
            data@.len() == old(data)@.len(),
            i <= data@.len(),
            mask == ((0xAAAA + i) % 65536) as u16,
            forall|j: int| 0 <= j < i ==> #[trigger] data@[j] == mask_unicode(old(data)@)[j],
            forall|j: int| i <= j < data@.len() ==> #[trigger] data@[j] == old(data)@[j],
        decreases data@.len() - i,
    {
        let v = data[i] ^ mask;
        data.set(i, v);
        mask = mask.wrapping_add(1);
        i = i + 1;
    }
    assert(data@ =~= mask_unicode(old(data)@));
}

/// The little-endian bytes of code units.
fn units_to_bytes(units: &Vec<u16>) -> (r: Vec<u8>)
    ensures
        r@ == units_bytes(units@),
{
    let mut out: Vec<u8> = Vec::new();
    let mut k: usize = 0;
    while k < units.len()
        invariant
            k <= units@.len(),
            out@.len() == 2 * k,
            forall|j: int| 0 <= j < 2 * k ==> #[trigger] out@[j] == units_bytes(units@)[j],
        decreases units@.len() - k,
    {
        out.push((units[k] % 256) as u8);
        out.push((units[k] / 256) as u8);
        k = k + 1;
    }
    assert(out@ =~= units_bytes(units@));
    out
}

/// The code units of little-endian byte pairs; a trailing odd byte is left out.
fn bytes_to_units(b: &[u8]) -> (r: Vec<u16>)
    ensures
        r@ == bytes_units(b@),
{
    let len = b.len();
    let n = len / 2;
    let mut units: Vec<u16> = Vec::new();
    let mut k: usize = 0;
    while k < n
        invariant
            k <= n,
            len == b@.len(),
            n == b@.len() / 2,
            units@.len() == k,
            forall|j: int| 0 <= j < k ==> #[trigger] units@[j] == bytes_units(b@)[j],
        decreases n - k,
    {
        units.push(b[2 * k] as u16 + 256 * b[2 * k + 1] as u16);
        k = k + 1;
    }
    assert(units@ =~= bytes_units(b@));
    units
}

} // verus!

verus! {

/// Whether the length prefix of a string fits the signed 32-bit field.
pub open spec fn spec_str_fits(s: Seq<char>) -> bool {
    if is_latin1(s) {
        s.len() < 0x8000_0000
    } else {
        utf16_encoded(s).len() < 0x8000_0000
    }
}

impl WzStr {
    /// Appends the stored form of the string; fails, writing nothing, when its length does
    /// not fit the prefix.
    pub fn write(&self, crypto: &WzCrypto, out: &mut Vec<u8>) -> (r: Result<(), WzError>)
        requires
            crypto.wf(),
        ensures
            r is Ok <==> spec_str_fits(self.0@),
            r is Ok ==> final(out)@ == old(out)@ + spec_wz_str_bytes(*crypto, self.0@),
            r is Err ==> final(out)@ == old(out)@ && r->Err_0.kind == WzErrorKind::Unsupported,
    {
        let chars = crate::text::chars_of(self.0.as_str());
        let mut latin1 = true;
        let mut i: usize = 0;
        while i < chars.len()
            invariant
                i <= chars@.len(),
                latin1 <==> forall|j: int| 0 <= j < i ==> (#[trigger] chars@[j] as u32) < 256,
            decreases chars@.len() - i,
        {
            if chars[i] as u32 >= 256 {
                latin1 = false;
            }
            i = i + 1;
        }
        let ghost s = self.0@;
        assert(chars@ == s);
        if latin1 {
            let n = chars.len();
            if n >= 0x8000_0000 {
                return Err(WzError::new(WzErrorKind::Unsupported, out.len()));
            }
            let mut body: Vec<u8> = Vec::new();
            let mut k: usize = 0;
            while k < n
                invariant
                    k <= n == chars@.len(),
                    body@.len() == k,
                    forall|j: int| 0 <= j < k ==> #[trigger] body@[j] == latin1_bytes(chars@)[j],
                decreases n - k,
            {
                body.push(chars[k] as u32 as u8);
                k = k + 1;
            }
            assert(body@ == latin1_bytes(s));
            crypto.transform(&mut body);
            xor_mask_ascii(&mut body);
            if n >= 128 {
                out.push(0x80u8);
                push_u32(out, n as u32);
            } else {
                out.push(small_to_byte(-(n as i32)));
            }
            out.append(&mut body);
            assert(out@ =~= old(out)@ + spec_wz_str_bytes(*crypto, s));
            Ok(())
        } else {
            let units = crate::text::utf16_units(self.0.as_str());
            let n = units.len();
            if n >= 0x8000_0000 {
                return Err(WzError::new(WzErrorKind::Unsupported, out.len()));
            }
            let mut body = units_to_bytes(&units);
            crypto.transform(&mut body);
            let mut masked = bytes_to_units(body.as_slice());
            xor_mask_unicode(&mut masked);
            let mut tail = units_to_bytes(&masked);
            if n >= 127 {
                out.push(0x7Fu8);
                push_u32(out, n as u32);
            } else {
                out.push(n as u8);
            }
            out.append(&mut tail);
            assert(out@ =~= old(out)@ + spec_wz_str_bytes(*crypto, s));
            Ok(())
        }
    }
}

proof fn lemma_mask_ascii_involution(s: Seq<u8>)
    ensures
        mask_ascii(mask_ascii(s)) == s,
{
    assert forall|i: int| 0 <= i < s.len() implies mask_ascii(mask_ascii(s))[i] == s[i] by {
        let m = ((0xAA + i) % 256) as u8;
        let a = s[i];
        assert((a ^ m) ^ m == a) by (bit_vector);
    }
    assert(mask_ascii(mask_ascii(s)) =~= s);
}

proof fn lemma_mask_unicode_involution(s: Seq<u16>)
    ensures
        mask_unicode(mask_unicode(s)) == s,
{
    assert forall|i: int| 0 <= i < s.len() implies mask_unicode(mask_unicode(s))[i] == s[i] by {
        let m = ((0xAAAA + i) % 65536) as u16;
        let a = s[i];
        assert((a ^ m) ^ m == a) by (bit_vector);
    }
    assert(mask_unicode(mask_unicode(s)) =~= s);
}

proof fn lemma_units_bytes_units(u: Seq<u16>)
    ensures
        bytes_units(units_bytes(u)) == u,
{
    let b = units_bytes(u);
    assert forall|i: int| 0 <= i < u.len() implies bytes_units(b)[i] == u[i] by {
        assert((2 * i) % 2 == 0 && (2 * i) / 2 == i && (2 * i + 1) % 2 == 1 && (2 * i + 1) / 2 == i);
        let x = u[i];
        assert((x % 256) as u8 + 256 * (x / 256) as u8 == x);
    }
    assert(bytes_units(b) =~= u);
}

proof fn lemma_bytes_units_bytes(b: Seq<u8>)
    requires
        b.len() % 2 == 0,
    ensures
        units_bytes(bytes_units(b)) == b,
{
    let u = bytes_units(b);
    assert forall|i: int| 0 <= i < b.len() implies units_bytes(u)[i] == b[i] by {
        let k = i / 2;
        assert(i == 2 * k + i % 2);
        let x = (b[2 * k] + 256 * b[2 * k + 1]) as u16;
        assert(x % 256 == b[2 * k] && x / 256 == b[2 * k + 1]);
    }
    assert(units_bytes(u) =~= b);
}

proof fn lemma_latin1_chars_bytes(s: Seq<char>)
    requires
        is_latin1(s),
    ensures
        latin1_chars(latin1_bytes(s)) == s,
{
    assert forall|i: int| 0 <= i < s.len() implies latin1_chars(latin1_bytes(s))[i] == s[i] by {
        let c = s[i];
        assert((c as u32) < 256);
        let u = ((c as u32) as u8) as u32;
        assert(u == c as u32);
        vstd::utf8::char_u32_cast(c, u);
    }
    assert(latin1_chars(latin1_bytes(s)) =~= s);
}

#[verifier::rlimit(80)]
/// A string written and read back at the same place gives the string again: exactly for
/// Latin-1 strings, and for others what UTF-16 decoding makes of their UTF-16 encoding.
pub proof fn lemma_wz_str_round_trip(c: WzCrypto, s: Seq<char>, pre: Seq<u8>, rest: Seq<u8>)
    requires
        spec_str_fits(s),
    ensures
        is_latin1(s) ==> spec_read_wz_str(c, pre + spec_wz_str_bytes(c, s) + rest, pre.len() as int)
            == Some((s, pre.len() + spec_wz_str_bytes(c, s).len() as int)),
        !is_latin1(s) && utf16_encoded(s).len() > 0 ==> spec_read_wz_str(
            c,
            pre + spec_wz_str_bytes(c, s) + rest,
            pre.len() as int,
        ) == match utf16_decoded(utf16_encoded(s)) {
            Some(cs) => Some((cs, pre.len() + spec_wz_str_bytes(c, s).len() as int)),
            None => None,
        },
{
    let key = c.spec_key();
    let iv = c.spec_iv();
    let w = spec_wz_str_bytes(c, s);
    let d = pre + w + rest;
    let p = pre.len() as int;
    if is_latin1(s) {
        let n = s.len() as int;
        let t = spec_transform(key, iv, latin1_bytes(s));
        let body = mask_ascii(t);
        let head = if n >= 128 {
            seq![0x80u8] + u32_bytes(n as u32)
        } else {
            seq![small_byte(-n)]
        };
        assert(w == head + body);
        let q = p + head.len();
        if n >= 128 {
            assert(d[p] == 0x80u8);
            assert(d == (pre + seq![0x80u8]) + u32_bytes(n as u32) + (body + rest));
            lemma_u32_bytes(n as u32, body + rest, pre + seq![0x80u8]);
        } else {
            assert(d[p] == small_byte(-n));
        }
        assert(spec_str_len(d, p) == Some((n, q)));
        assert(d.subrange(q, q + n) =~= body);
        lemma_mask_ascii_involution(t);
        lemma_transform_involution(key, iv, latin1_bytes(s));
        lemma_latin1_chars_bytes(s);
    } else if utf16_encoded(s).len() > 0 {
        let u = utf16_encoded(s);
        let n = u.len() as int;
        let t = spec_transform(key, iv, units_bytes(u));
        let body = units_bytes(mask_unicode(bytes_units(t)));
        let head = if n >= 127 {
            seq![0x7Fu8] + u32_bytes(n as u32)
        } else {
            seq![n as u8]
        };
        assert(w == head + body);
        let q = p + head.len();
        if n >= 127 {
            assert(d[p] == 0x7Fu8);
            assert(d == (pre + seq![0x7Fu8]) + u32_bytes(n as u32) + (body + rest));
            lemma_u32_bytes(n as u32, body + rest, pre + seq![0x7Fu8]);
        } else {
            assert(d[p] == n as u8);
        }
        assert(spec_str_len(d, p) == Some((n, q)));
        assert(body.len() == 2 * n);
        assert(d.subrange(q, q + 2 * n) =~= body);
        lemma_units_bytes_units(mask_unicode(bytes_units(t)));
        lemma_mask_unicode_involution(bytes_units(t));
        lemma_bytes_units_bytes(t);
        lemma_transform_involution(key, iv, units_bytes(u));
        lemma_units_bytes_units(u);
        assert(spec_utf16_body(c, body) == u);
    }
}

} // verus!

verus! {

/// A count-prefixed sequence.
#[derive(Debug, Clone)]
pub struct WzVec<B>(pub Vec<B>);

} // verus!
