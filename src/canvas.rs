use vstd::prelude::*;
use std::io::Read;
use crate::bytes::{le_u16, le_u32, read_u32};
use crate::crypto::{spec_transform, WzCrypto};
use crate::error::{WzError, WzErrorKind};
use crate::l1::{spec_depth_size, spec_raw_height, spec_raw_width, WzCanvas, WzCanvasDepth, WzCanvasScaling};

verus! {

/// The `n`-bit channel at `shift`, widened to eight bits by shifting left.
pub open spec fn spec_bit_pix(n: u32, v: u32, shift: u8) -> u8 {
    (((v >> shift) & (((1u32 << n) - 1) as u32)) * (1u32 << ((8 - n) as u32))) as u8
}

/// The `N`-bit channel of `v` at `shift`, widened to eight bits.
pub fn bit_pix<const N: u32>(v: u32, shift: u8) -> (r: u8)
    requires
        1 <= N <= 8,
        shift < 32,
    ensures
        r == spec_bit_pix(N, v, shift),
{
    let n: u32 = N;
    pix(n, v, shift)
}

fn pix(n: u32, v: u32, shift: u8) -> (r: u8)
    requires
        1 <= n <= 8,
        shift < 32,
    ensures
        r == spec_bit_pix(n, v, shift),
{
    assert(1u32 << n >= 1) by (bit_vector)
        requires
            n <= 8,
    ;
    let mask: u32 = (1u32 << n) - 1;
    let m: u32 = 1u32 << (8 - n);
    let x = (v >> shift) & mask;
    assert(x * m < 256) by (bit_vector)
        requires
            x == (v >> shift) & mask,
            mask == ((1u32 << n) - 1) as u32,
            m == 1u32 << ((8 - n) as u32),
            1 <= n <= 8,
    ;
    (x * m) as u8
}

} // verus!

verus! {

/// What `texpresso::Format::decompress` writes for a BC3 (`bc5 == false`) or BC5 block stream
/// of the given size, as RGBA bytes.
pub uninterp spec fn bc_decoded(bc5: bool, data: Seq<u8>, width: nat, height: nat) -> Seq<u8>;

/// The first `n` bytes that inflating the zlib stream `data` yields, or `None` where the
/// stream ends or breaks before that.
pub uninterp spec fn zlib_prefix(data: Seq<u8>, n: nat) -> Option<Seq<u8>>;

/// Relies on `texpresso::Format::decompress` (Bc3 or Bc5): it writes every pixel of a
/// `width` x `height` RGBA buffer from the blocks in `data`. Its slicing panics on a block
/// stream shorter than `Format::compressed_size`, and `chunks_mut` on a zero width.
#[verifier::external_body]
fn bc_decompress(bc5: bool, data: &[u8], width: usize, height: usize, out: &mut Vec<u8>)
    requires
        width > 0,
        height > 0,
        old(out)@ == Seq::new((width * height * 4) as nat, |i: int| 0u8),
        data@.len() >= ((width + 3) / 4) * ((height + 3) / 4) * 16,
    ensures
        final(out)@.len() == old(out)@.len(),
        final(out)@ == bc_decoded(bc5, data@, width as nat, height as nat),
{
    let format = if bc5 {
        texpresso::Format::Bc5
    } else {
        texpresso::Format::Bc3
    };
    format.decompress(data, width, height, out.as_mut_slice());
}

/// Relies on `flate2::bufread::ZlibDecoder` and `Read::read_exact`: fills `out` with the
/// first `out.len()` inflated bytes of the stream, or fails.
#[verifier::external_body]
pub(crate) fn inflate_exact(data: &[u8], out: &mut Vec<u8>) -> (ok: bool)
    ensures
        final(out)@.len() == old(out)@.len(),
        ok == zlib_prefix(data@, old(out)@.len()) is Some,
        ok ==> zlib_prefix(data@, old(out)@.len()) == Some(final(out)@),
{
    flate2::bufread::ZlibDecoder::new(data).read_exact(out.as_mut_slice()).is_ok()
}

/// Whether `len` bytes hold the 16-byte blocks of 4x4 pixels that cover `w` x `h` pixels.
fn bc_blocks_fit(w: usize, h: usize, len: usize) -> (r: bool)
    requires
        w <= 0xFFFF_FFFF,
        h <= 0xFFFF_FFFF,
    ensures
        r == (((w + 3) / 4) * ((h + 3) / 4) * 16 <= len),
{
    let bw = (w as u128 + 3) / 4;
    let bh = (h as u128 + 3) / 4;
    assert(bw * bh * 16 <= 0x1_0000_0000 * 0x1_0000_0000 * 16) by (nonlinear_arith)
        requires
            bw <= 0x1_0000_0000,
            bh <= 0x1_0000_0000,
    {
    }
    bw * bh * 16 <= len as u128
}

/// The RGBA bytes of pixel `i` of an uncompressed bitmap.
pub open spec fn spec_pixel(depth: WzCanvasDepth, data: Seq<u8>, i: int) -> Seq<u8> {
    match depth {
        WzCanvasDepth::BGRA8888 => seq![data[4 * i], data[4 * i + 1], data[4 * i + 2], data[4 * i + 3]],
        WzCanvasDepth::BGR565 => {
            let v = le_u16(data, 2 * i) as u32;
            seq![spec_bit_pix(5, v, 11), spec_bit_pix(6, v, 5), spec_bit_pix(5, v, 0), 255u8]
        },
        _ => {
            let v = le_u16(data, 2 * i) as u32;
            seq![
                spec_bit_pix(4, v, 8),
                spec_bit_pix(4, v, 4),
                spec_bit_pix(4, v, 0),
                spec_bit_pix(4, v, 12),
            ]
        },
    }
}

/// The RGBA image of a raw bitmap of `w` x `h` pixels, row by row.
pub open spec fn spec_rgba(depth: WzCanvasDepth, data: Seq<u8>, w: nat, h: nat) -> Seq<u8> {
    match depth {
        WzCanvasDepth::DXT3 => if w == 0 || h == 0 {
            Seq::empty()
        } else {
            bc_decoded(false, data, w, h)
        },
        WzCanvasDepth::DXT5 => if w == 0 || h == 0 {
            Seq::empty()
        } else {
            bc_decoded(true, data, w, h)
        },
        _ => Seq::new(w * h * 4, |j: int| spec_pixel(depth, data, j / 4)[j % 4]),
    }
}

/// Whether a bitmap of `len` bytes decodes at `w` x `h`: it holds every pixel, and for the
/// block formats the 4x4 blocks that cover the image and an RGBA buffer fits in memory.
pub open spec fn spec_rgba_ok(depth: WzCanvasDepth, len: nat, w: nat, h: nat) -> bool {
    &&& w * h * spec_depth_size(depth) <= len
    &&& (depth is DXT3 || depth is DXT5) ==> {
        &&& w * h * 4 <= usize::MAX
        &&& (w > 0 && h > 0 ==> ((w + 3) / 4) * ((h + 3) / 4) * 16 <= len)
    }
}

/// An RGBA image with eight bits per channel.
#[derive(Debug, Clone)]
pub struct RgbaImage {
    pub width: u32,
    pub height: u32,
    pub data: Vec<u8>,
}

/// An unpacked bitmap with the sizes of the canvas it belongs to.
pub struct Canvas {
    pub data: Vec<u8>,
    pub depth: WzCanvasDepth,
    pub raw_w: u32,
    pub raw_h: u32,
    pub width: u32,
    pub height: u32,
    pub scale: WzCanvasScaling,
}

fn rgba_pixel(depth: WzCanvasDepth, data: &Vec<u8>, i: usize) -> (r: [u8; 4])
    requires
        !(depth is DXT3) && !(depth is DXT5),
        data@.len() <= usize::MAX,
        depth is BGRA8888 ==> 4 * i + 4 <= data@.len(),
        !(depth is BGRA8888) ==> 2 * i + 2 <= data@.len(),
    ensures
        r@ == spec_pixel(depth, data@, i as int),
{
    match depth {
        WzCanvasDepth::BGRA8888 => {
            let r = [data[4 * i], data[4 * i + 1], data[4 * i + 2], data[4 * i + 3]];
            assert(r@ =~= spec_pixel(depth, data@, i as int));
            r
        },
        WzCanvasDepth::BGR565 => {
            let v = (data[2 * i] as u16 + 256 * data[2 * i + 1] as u16) as u32;
            let r = [bit_pix::<5>(v, 11), bit_pix::<6>(v, 5), bit_pix::<5>(v, 0), 0xFFu8];
            assert(r@ =~= spec_pixel(depth, data@, i as int));
            r
        },
        _ => {
            let v = (data[2 * i] as u16 + 256 * data[2 * i + 1] as u16) as u32;
            let r = [bit_pix::<4>(v, 8), bit_pix::<4>(v, 4), bit_pix::<4>(v, 0), bit_pix::<4>(v, 12)];
            assert(r@ =~= spec_pixel(depth, data@, i as int));
            r
        },
    }
}

impl Canvas {
    /// The unpacked bitmap of a canvas header.
    pub fn from_data(data: Vec<u8>, wz_canvas: &WzCanvas) -> (r: Canvas)
        requires
            wz_canvas.wf(),
        ensures
            r.data@ == data@,
            r.depth == wz_canvas.depth,
            r.raw_w == spec_raw_width(*wz_canvas),
            r.raw_h == spec_raw_height(*wz_canvas),
            r.width == wz_canvas.width.0 as u32,
            r.height == wz_canvas.height.0 as u32,
            r.scale == wz_canvas.scale,
    {
        Canvas {
            data,
            depth: wz_canvas.depth,
            width: wz_canvas.width(),
            height: wz_canvas.height(),
            scale: wz_canvas.scale,
            raw_w: wz_canvas.raw_width(),
            raw_h: wz_canvas.raw_height(),
        }
    }

    /// Bytes of the bitmap at logical size.
    pub fn canvas_size(&self) -> (r: u128)
        ensures
            r == self.height as int * self.width as int * spec_depth_size(self.depth) as int,
    {
        let h = self.height as u128;
        let w = self.width as u128;
        let ds = self.depth.depth_size() as u128;
        assert(h * w * ds <= 0xFFFF_FFFF * 0xFFFF_FFFF * 4) by (nonlinear_arith)
            requires
                h <= 0xFFFF_FFFF,
                w <= 0xFFFF_FFFF,
                ds <= 4,
        {
        }
        h * w * ds
    }

    /// The bitmap as RGBA at its raw size. Fails when the bitmap is shorter than the size and
    /// format say.
    pub fn to_raw_rgba_image(&self) -> (r: Result<RgbaImage, WzError>)
        ensures
            match r {
                Ok(img) => {
                    &&& img.width == self.raw_w
                    &&& img.height == self.raw_h
                    &&& img.data@.len() == self.raw_w * self.raw_h * 4
                    &&& img.data@ == spec_rgba(
                        self.depth,
                        self.data@,
                        self.raw_w as nat,
                        self.raw_h as nat,
                    )
                },
                Err(e) => e.kind == WzErrorKind::IO,
            },
            r is Ok <==> spec_rgba_ok(
                self.depth,
                self.data@.len(),
                self.raw_w as nat,
                self.raw_h as nat,
            ),
    {
        let w = self.raw_w as usize;
        let h = self.raw_h as usize;
        let ds128 = self.depth.depth_size() as u128;
        assert(w as u128 * h as u128 * ds128 <= 0xFFFF_FFFF * 0xFFFF_FFFF * 4) by (nonlinear_arith)
            requires
                w <= 0xFFFF_FFFF,
                h <= 0xFFFF_FFFF,
                ds128 <= 4,
        {
        }
        let n128: u128 = w as u128 * h as u128;
        if n128 * ds128 > self.data.len() as u128 {
            return Err(WzError::new(WzErrorKind::IO, 0));
        }
        assert(n128 <= n128 * ds128) by (nonlinear_arith)
            requires
                ds128 >= 1,
                n128 >= 0,
        {
        }
        let n = n128 as usize;
        match self.depth {
            WzCanvasDepth::DXT3 | WzCanvasDepth::DXT5 => {
                let bc5 = match self.depth {
                    WzCanvasDepth::DXT5 => true,
                    _ => false,
                };
                if n128 * 4 > usize::MAX as u128 {
                    return Err(WzError::new(WzErrorKind::IO, 0));
                }
                let mut buf: Vec<u8> = Vec::new();
                let total = n * 4;
                let mut k: usize = 0;
                while k < total
                    invariant
                        k <= total,
                        buf@.len() == k,
                        forall|j: int| 0 <= j < k ==> buf@[j] == 0u8,
                    decreases total - k,
                {
                    buf.push(0u8);
                    k = k + 1;
                }
                assert(buf@ =~= Seq::new((w * h * 4) as nat, |i: int| 0u8));
                if w > 0 && h > 0 {
                    if !bc_blocks_fit(w, h, self.data.len()) {
                        return Err(WzError::new(WzErrorKind::IO, 0));
                    }
                    bc_decompress(bc5, self.data.as_slice(), w, h, &mut buf);
                    Ok(RgbaImage { width: self.raw_w, height: self.raw_h, data: buf })
                } else {
                    assert(buf@ =~= Seq::<u8>::empty()) by {
                        assert(w * h == 0) by (nonlinear_arith)
                            requires
                                w == 0 || h == 0,
                        ;
                    }
                    Ok(RgbaImage { width: self.raw_w, height: self.raw_h, data: buf })
                }
            },
            _ => {
                let ds = self.depth.depth_size() as usize;
                let mut out: Vec<u8> = Vec::new();
                let mut i: usize = 0;
                while i < n
                    invariant
                        !(self.depth is DXT3) && !(self.depth is DXT5),
                        n == w * h,
                        n * spec_depth_size(self.depth) <= self.data@.len() <= usize::MAX,
                        i <= n,
                        out@.len() == 4 * i,
                        forall|j: int|
                            0 <= j < 4 * i ==> #[trigger] out@[j] == spec_pixel(
                                self.depth,
                                self.data@,
                                j / 4,
                            )[j % 4],
                    decreases n - i,
                {
                    assert((i + 1) * spec_depth_size(self.depth) <= n * spec_depth_size(self.depth))
                        by (nonlinear_arith)
                        requires
                            i < n,
                    ;
                    proof {
                        let ds = spec_depth_size(self.depth);
                        assert((i + 1) * ds <= self.data@.len());
                        if self.depth is BGRA8888 {
                            assert(ds == 4);
                            assert((i + 1) * ds == 4 * i + 4);
                        } else {
                            assert(ds == 2);
                            assert((i + 1) * ds == 2 * i + 2);
                        }
                    }
                    let px = rgba_pixel(self.depth, &self.data, i);
                    let ghost before = out@;
                    out.push(px[0]);
                    out.push(px[1]);
                    out.push(px[2]);
                    out.push(px[3]);
                    assert forall|j: int| 4 * i <= j < 4 * i + 4 implies #[trigger] out@[j]
                        == spec_pixel(self.depth, self.data@, j / 4)[j % 4] by {
                        assert(j / 4 == i && j % 4 == j - 4 * i) by (nonlinear_arith)
                            requires
                                4 * i <= j < 4 * i + 4,
                        ;
                    }
                    i = i + 1;
                }
                assert(out@ =~= spec_rgba(self.depth, self.data@, w as nat, h as nat));
                Ok(RgbaImage { width: self.raw_w, height: self.raw_h, data: out })
            },
        }
    }
}

} // verus!

verus! {

/// The payload of chunks from `p + i` on, up to `total` bytes: each chunk is a 32-bit size
/// and that many bytes, xored with the key stream from its start. A record that ends past
/// `total` makes the whole payload invalid.
pub open spec fn spec_chunks(c: WzCrypto, d: Seq<u8>, p: int, i: int, total: int) -> Option<Seq<u8>>
    decreases (if total > i { total - i } else { 0 }),
{
    if i >= total {
        Some(Seq::empty())
    } else if p + i + 4 > d.len() {
        None
    } else {
        let cs = le_u32(d, p + i) as int;
        if i + 4 + cs > total || p + i + 4 + cs > d.len() {
            None
        } else {
            match spec_chunks(c, d, p, i + 4 + cs, total) {
                Some(rest) => Some(
                    spec_transform(c.spec_key(), c.spec_iv(), d.subrange(p + i + 4, p + i + 4 + cs))
                        + rest,
                ),
                None => None,
            }
        }
    }
}

/// Reads `chunked_len` bytes of chunks from `pos` and joins their deciphered bodies.
pub fn read_chunked_data(crypto: &WzCrypto, d: &[u8], pos: usize, chunked_len: usize) -> (r: Result<
    Vec<u8>,
    WzError,
>)
    requires
        crypto.wf(),
    ensures
        match r {
            Ok(buf) => spec_chunks(*crypto, d@, pos as int, 0, chunked_len as int) == Some(buf@),
            Err(e) => spec_chunks(*crypto, d@, pos as int, 0, chunked_len as int) is None,
        },
{
    let len = d.len();
    let mut buf: Vec<u8> = Vec::new();
    let mut i: usize = 0;
    while i < chunked_len
        invariant
            crypto.wf(),
            len == d@.len(),
            match spec_chunks(*crypto, d@, pos as int, i as int, chunked_len as int) {
                Some(rest) => spec_chunks(*crypto, d@, pos as int, 0, chunked_len as int) == Some(
                    buf@ + rest,
                ),
                None => spec_chunks(*crypto, d@, pos as int, 0, chunked_len as int) is None,
            },
        decreases chunked_len - i,
    {
        if pos > len || i > len - pos {
            return Err(WzError::new(WzErrorKind::IO, len));
        }
        if chunked_len - i < 4 {
            return Err(WzError::new(WzErrorKind::BadChunkSize, pos + i));
        }
        let chunk_size = read_u32(d, pos + i)? as usize;
        if chunk_size > chunked_len - i - 4 {
            return Err(WzError::new(WzErrorKind::BadChunkSize, pos + i));
        }
        let start = pos + i + 4;
        if chunk_size > len - start {
            return Err(WzError::new(WzErrorKind::IO, start));
        }
        let mut chunk = vstd::slice::slice_to_vec(
            vstd::slice::slice_subrange(d, start, start + chunk_size),
        );
        crypto.transform(&mut chunk);
        let ghost before = buf@;
        let ghost next = spec_chunks(*crypto, d@, pos as int, (i + 4 + chunk_size) as int, chunked_len as int);
        let mut k: usize = 0;
        while k < chunk.len()
            invariant
                k <= chunk@.len(),
                buf@ == before + chunk@.take(k as int),
            decreases chunk@.len() - k,
        {
            buf.push(chunk[k]);
            assert(chunk@.take(k + 1) == chunk@.take(k as int).push(chunk@[k as int]));
            k = k + 1;
        }
        assert(chunk@.take(chunk@.len() as int) == chunk@);
        proof {
            match next {
                Some(rest) => {
                    assert(before + (chunk@ + rest) == (before + chunk@) + rest);
                },
                None => {},
            }
        }
        i = start + chunk_size - pos;
    }
    assert(buf@ + Seq::<u8>::empty() == buf@);
    Ok(buf)
}

/// The zlib stream of a canvas payload at `off` of `len` bytes: the payload itself when its
/// first byte is `0x78` and bit 13 of its first 16-bit word is clear, else its chunks.
pub open spec fn spec_canvas_stream(c: WzCrypto, d: Seq<u8>, off: int, len: int) -> Option<Seq<u8>> {
    if off + 2 > d.len() {
        None
    } else {
        let hdr = le_u16(d, off);
        if hdr % 256 == 0x78 && (hdr / 0x2000) % 2 == 0 {
            if off + len <= d.len() {
                Some(d.subrange(off, off + len))
            } else {
                None
            }
        } else {
            spec_chunks(c, d, off, 0, len)
        }
    }
}

/// The unpacked bitmap of a canvas at raw size, from its zlib stream.
pub open spec fn spec_canvas_bitmap(stream: Seq<u8>, cv: WzCanvas) -> Option<Seq<u8>> {
    zlib_prefix(stream, (spec_raw_width(cv) * spec_raw_height(cv) * spec_depth_size(cv.depth)) as nat)
}

/// Whether the payload at `off` is framed as one plain zlib stream.
pub open spec fn is_zlib_framed(d: Seq<u8>, off: int) -> bool {
    off + 2 <= d.len() && le_u16(d, off) % 256 == 0x78 && (le_u16(d, off) / 0x2000) % 2 == 0
}

/// A payload framed as one zlib stream and a payload framed in chunks whose deciphered bodies
/// join to that same stream unpack to the same bitmap, and so to the same RGBA image.
pub proof fn lemma_framing_agnostic(
    c: WzCrypto,
    plain: Seq<u8>,
    off1: int,
    len1: int,
    chunked: Seq<u8>,
    off2: int,
    len2: int,
    cv: WzCanvas,
)
    requires
        is_zlib_framed(plain, off1),
        0 <= off1,
        off1 + len1 <= plain.len(),
        off2 + 2 <= chunked.len(),
        !is_zlib_framed(chunked, off2),
        spec_chunks(c, chunked, off2, 0, len2) == Some(plain.subrange(off1, off1 + len1)),
    ensures
        spec_canvas_stream(c, plain, off1, len1) == Some(plain.subrange(off1, off1 + len1)),
        spec_canvas_stream(c, chunked, off2, len2) == spec_canvas_stream(c, plain, off1, len1),
        spec_canvas_bitmap(plain.subrange(off1, off1 + len1), cv) is Some ==> spec_rgba(
            cv.depth,
            spec_canvas_bitmap(spec_canvas_stream(c, plain, off1, len1)->0, cv)->0,
            spec_raw_width(cv) as nat,
            spec_raw_height(cv) as nat,
        ) == spec_rgba(
            cv.depth,
            spec_canvas_bitmap(spec_canvas_stream(c, chunked, off2, len2)->0, cv)->0,
            spec_raw_width(cv) as nat,
            spec_raw_height(cv) as nat,
        ),
{
}

} // verus!

verus! {

/// The stored form of a sequence of chunks: each one's 32-bit length, then its bytes xored
/// with the key stream from its start.
pub open spec fn spec_chunked_bytes(c: WzCrypto, chunks: Seq<Seq<u8>>) -> Seq<u8>
    decreases chunks.len(),
{
    if chunks.len() == 0 {
        Seq::empty()
    } else {
        spec_chunked_bytes(c, chunks.drop_last()) + crate::bytes::u32_bytes(
            chunks.last().len() as u32,
        ) + spec_transform(c.spec_key(), c.spec_iv(), chunks.last())
    }
}

/// Appends each chunk with its length, enciphered; returns the number of bytes written.
pub fn write_chunked_data(crypto: &WzCrypto, chunks: &Vec<Vec<u8>>, out: &mut Vec<u8>) -> (r: usize)
    requires
        crypto.wf(),
        forall|i: int| 0 <= i < chunks@.len() ==> (#[trigger] chunks@[i])@.len() <= u32::MAX,
    ensures
        final(out)@ == old(out)@ + spec_chunked_bytes(
            *crypto,
            chunks@.map_values(|v: Vec<u8>| v@),
        ),
        r == final(out)@.len() - old(out)@.len(),
{
    let ghost views = chunks@.map_values(|v: Vec<u8>| v@);
    let start = out.len();
    let mut i: usize = 0;
    while i < chunks.len()
        invariant
            crypto.wf(),
            i <= chunks@.len(),
            views == chunks@.map_values(|v: Vec<u8>| v@),
            forall|k: int| 0 <= k < chunks@.len() ==> (#[trigger] chunks@[k])@.len() <= u32::MAX,
            start == old(out)@.len(),
            out@ == old(out)@ + spec_chunked_bytes(*crypto, views.take(i as int)),
        decreases chunks@.len() - i,
    {
        let mut chunk = chunks[i].clone();
        crate::bytes::push_u32(out, chunk.len() as u32);
        crypto.transform(&mut chunk);
        let ghost before = out@;
        let mut k: usize = 0;
        while k < chunk.len()
            invariant
                k <= chunk@.len(),
                out@ == before + chunk@.take(k as int),
            decreases chunk@.len() - k,
        {
            out.push(chunk[k]);
            assert(chunk@.take(k + 1) == chunk@.take(k as int).push(chunk@[k as int]));
            k = k + 1;
        }
        assert(chunk@.take(chunk@.len() as int) == chunk@);
        assert(views.take(i + 1).drop_last() == views.take(i as int));
        assert(views.take(i + 1).last() == chunks@[i as int]@);
        i = i + 1;
    }
    assert(views.take(chunks@.len() as int) == views);
    if out.len() >= start {
        out.len() - start
    } else {
        0
    }
}

} // verus!
