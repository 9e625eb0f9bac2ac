use vstd::prelude::*;
use crate::error::{WzError, WzErrorKind};
use crate::ty::{WzInt, WzStr};

verus! {

/// A value together with the byte position it was read at.
#[derive(Debug, Clone, Copy)]
pub struct WzPosValue<T> {
    /// The read value.
    pub val: T,
    /// The byte position of the start of the value.
    pub pos: u64,
}

/// The power-of-two downscaling of a canvas: stored pixels are the logical ones shifted right
/// by this amount.
#[derive(Debug, Clone, Copy, PartialEq, Eq, Structural)]
pub struct WzCanvasScaling(pub u8);

impl WzCanvasScaling {
    pub open spec fn valid(&self) -> bool {
        self.0 == 0 || self.0 == 4
    }

    /// `2` to the power of the scale.
    pub fn factor(&self) -> (r: u32)
        requires
            self.valid(),
        ensures
            r == (if self.0 == 0 { 1u32 } else { 16u32 }),
    {
        if self.0 == 0 {
            1
        } else {
            16
        }
    }

    /// Accepts the stored scales `0` and `4`.
    pub fn try_from_u8(value: u8) -> (r: Result<WzCanvasScaling, WzError>)
        ensures
            match r {
                Ok(s) => (value == 0 || value == 4) && s.0 == value,
                Err(e) => value != 0 && value != 4 && e.kind == WzErrorKind::BadCanvasScale,
            },
    {
        if value == 0 || value == 4 {
            Ok(WzCanvasScaling(value))
        } else {
            Err(WzError::new(WzErrorKind::BadCanvasScale, 0))
        }
    }
}

/// The pixel format of a canvas.
#[derive(Debug, Clone, Copy, PartialEq, Eq, Structural)]
pub enum WzCanvasDepth {
    BGRA4444,
    BGRA8888,
    BGR565,
    DXT3,
    DXT5,
}

pub open spec fn spec_depth_size(d: WzCanvasDepth) -> u32 {
    match d {
        WzCanvasDepth::BGRA4444 => 2,
        WzCanvasDepth::BGRA8888 => 4,
        WzCanvasDepth::BGR565 => 2,
        WzCanvasDepth::DXT3 => 1,
        WzCanvasDepth::DXT5 => 1,
    }
}

/// The stored tag of a pixel format.
pub open spec fn spec_depth_tag(d: WzCanvasDepth) -> u16 {
    match d {
        WzCanvasDepth::BGRA4444 => 1,
        WzCanvasDepth::BGRA8888 => 2,
        WzCanvasDepth::BGR565 => 513,
        WzCanvasDepth::DXT3 => 1026,
        WzCanvasDepth::DXT5 => 2050,
    }
}

impl WzCanvasDepth {
    /// Bytes per pixel of the format.
    pub fn depth_size(&self) -> (r: u32)
        ensures
            r == spec_depth_size(*self),
    {
        match self {
            WzCanvasDepth::BGRA4444 => 2,
            WzCanvasDepth::BGRA8888 => 4,
            WzCanvasDepth::BGR565 => 2,
            WzCanvasDepth::DXT3 => 1,
            WzCanvasDepth::DXT5 => 1,
        }
    }

    /// The format of a stored tag; the tag is read as its low 16 bits.
    pub fn try_from_int(value: WzInt) -> (r: Result<WzCanvasDepth, WzError>)
        ensures
            match r {
                Ok(d) => spec_depth_tag(d) == (value.0 as u16),
                Err(e) => e.kind == WzErrorKind::BadCanvasDepth && forall|d: WzCanvasDepth|
                    spec_depth_tag(d) != (value.0 as u16),
            },
    {
        let tag = #[verifier::truncate] (value.0 as u16);
        if tag == 1 {
            Ok(WzCanvasDepth::BGRA4444)
        } else if tag == 2 {
            Ok(WzCanvasDepth::BGRA8888)
        } else if tag == 513 {
            Ok(WzCanvasDepth::BGR565)
        } else if tag == 1026 {
            Ok(WzCanvasDepth::DXT3)
        } else if tag == 2050 {
            Ok(WzCanvasDepth::DXT5)
        } else {
            Err(WzError::new(WzErrorKind::BadCanvasDepth, 0))
        }
    }

    pub fn to_int(&self) -> (r: WzInt)
        ensures
            r.0 == spec_depth_tag(*self) as i32,
    {
        WzInt(
            match self {
                WzCanvasDepth::BGRA4444 => 1,
                WzCanvasDepth::BGRA8888 => 2,
                WzCanvasDepth::BGR565 => 513,
                WzCanvasDepth::DXT3 => 1026,
                WzCanvasDepth::DXT5 => 2050,
            },
        )
    }
}

/// A name of a type of object, interned with the magic pair `0x73` / `0x1B`.
#[derive(Debug, Clone)]
pub struct WzTypeStr(pub WzStr);

/// A property name or string value, interned with the magic pair `0x00` / `0x01`.
#[derive(Debug, Clone)]
pub struct WzImgStr(pub WzStr);

impl WzTypeStr {
    pub fn new(s: String) -> (r: WzTypeStr)
        ensures
            r.0.0@ == s@,
    {
        WzTypeStr(WzStr(s))
    }
}

impl WzImgStr {
    pub fn new(s: String) -> (r: WzImgStr)
        ensures
            r.0.0@ == s@,
    {
        WzImgStr(WzStr(s))
    }
}

} // verus!

verus! {

pub const OBJ_TYPE_PROPERTY: [u8; 8] = [0x50, 0x72, 0x6F, 0x70, 0x65, 0x72, 0x74, 0x79];

pub const OBJ_TYPE_CANVAS: [u8; 6] = [0x43, 0x61, 0x6E, 0x76, 0x61, 0x73];

pub const OBJ_TYPE_UOL: [u8; 3] = [0x55, 0x4F, 0x4C];

pub const OBJ_TYPE_VEC2: [u8; 16] = [
    0x53, 0x68, 0x61, 0x70, 0x65, 0x32, 0x44, 0x23, 0x56, 0x65, 0x63, 0x74, 0x6F, 0x72, 0x32, 0x44,
];

pub const OBJ_TYPE_CONVEX2D: [u8; 16] = [
    0x53, 0x68, 0x61, 0x70, 0x65, 0x32, 0x44, 0x23, 0x43, 0x6F, 0x6E, 0x76, 0x65, 0x78, 0x32, 0x44,
];

pub const OBJ_TYPE_SOUND_DX8: [u8; 9] = [0x53, 0x6F, 0x75, 0x6E, 0x64, 0x5F, 0x44, 0x58, 0x38];

/// Whether the characters are exactly the ASCII bytes.
pub(crate) fn chars_match(cs: &[char], b: &[u8]) -> (r: bool)
    ensures
        r == (cs@ == crate::ty::latin1_chars(b@)),
{
    if cs.len() != b.len() {
        return false;
    }
    let mut i: usize = 0;
    while i < cs.len()
        invariant
            i <= cs@.len() == b@.len(),
            forall|j: int| 0 <= j < i ==> cs@[j] == crate::ty::latin1_chars(b@)[j],
        decreases cs@.len() - i,
    {
        if cs[i] != b[i] as char {
            assert(cs@[i as int] != crate::ty::latin1_chars(b@)[i as int]);
            return false;
        }
        i = i + 1;
    }
    assert(cs@ =~= crate::ty::latin1_chars(b@));
    true
}

/// The type string made of ASCII bytes.
pub fn wz_ty_str(s: &[u8]) -> (r: WzTypeStr)
    ensures
        r.0.0@ == crate::ty::latin1_chars(s@),
{
    let mut chars: Vec<char> = Vec::new();
    let mut i: usize = 0;
    while i < s.len()
        invariant
            i <= s@.len(),
            chars@.len() == i,
            forall|j: int| 0 <= j < i ==> chars@[j] == crate::ty::latin1_chars(s@)[j],
        decreases s@.len() - i,
    {
        chars.push(s[i] as char);
        i = i + 1;
    }
    assert(chars@ =~= crate::ty::latin1_chars(s@));
    WzTypeStr(WzStr(crate::text::string_from_chars(chars.as_slice())))
}

/// A 32-bit float kept as its bit pattern, stored as a compressed int.
#[derive(Debug, Clone, Copy, PartialEq, Eq, Structural)]
pub struct WzF32(pub u32);

/// A length-prefixed object embedded in a property.
#[derive(Debug)]
pub struct WzObjectValue {
    pub len: u32,
    pub obj: Box<WzObject>,
}

/// A property value, by its one-byte tag. Floats are kept as their bit patterns.
#[derive(Debug)]
pub enum WzPropValue {
    Null,
    Short1(i16),
    Short2(i16),
    Int1(WzInt),
    Int2(WzInt),
    Long(crate::ty::WzLong),
    F32(WzF32),
    F64(u64),
    Str(WzImgStr),
    Obj(WzObjectValue),
}

#[derive(Debug)]
pub struct WzPropertyEntry {
    pub name: WzImgStr,
    pub val: WzPropValue,
}

#[derive(Debug)]
pub struct WzProperty {
    pub unknown: u16,
    pub entries: crate::ty::WzVec<WzPropertyEntry>,
}

/// A link to another value, by a path relative to the image.
#[derive(Debug, Clone)]
pub struct WzUOL {
    pub unknown: u8,
    pub entries: WzImgStr,
}

#[derive(Debug, Clone, Copy, PartialEq, Eq, Structural)]
pub struct WzVector2D {
    pub x: WzInt,
    pub y: WzInt,
}

#[derive(Debug, Clone)]
pub struct WzConvex2D(pub Vec<WzVector2D>);

/// The header of a canvas; its pixels are read separately through the payload position.
#[derive(Debug)]
pub struct WzCanvas {
    pub unknown: u8,
    pub has_property: u8,
    pub property: Option<WzProperty>,
    pub width: WzInt,
    pub height: WzInt,
    pub depth: WzCanvasDepth,
    pub scale: WzCanvasScaling,
    pub unknown1: u32,
    pub len: WzPosValue<u32>,
}

/// A DirectShow-style type identifier, in the byte order it is stored in.
#[derive(Debug, Clone, Copy)]
pub struct GUID(pub [u8; 16]);

#[derive(Debug, Clone, Copy)]
pub struct MediaHeader {
    pub unknown1: u8,
    pub major_type: GUID,
    pub sub_type: GUID,
    pub sample_size: u16,
    pub format_type: GUID,
}

/// The fields of a WAVEFORMATEX header.
#[derive(Debug, Clone, Copy)]
pub struct WaveHeader {
    pub format: u16,
    pub channels: u16,
    pub samples_per_sec: u32,
    pub avg_bytes_per_sec: u32,
    pub block_align: u16,
    pub bits_per_sample: u16,
    pub extra_size: u16,
}

/// The fields of an MPEGLAYER3WAVEFORMAT header.
#[derive(Debug, Clone, Copy)]
pub struct Mpeg3WaveHeader {
    pub wav: WaveHeader,
    pub id: u16,
    pub flags: u32,
    pub block_size: u16,
    pub frames_per_block: u16,
    pub codec_delay: u16,
}

/// The fields of a PCMWAVEFORMAT header.
#[derive(Debug, Clone, Copy)]
pub struct PcmWaveFormat {
    pub wav: WaveHeader,
    pub bit_per_sample: u16,
}

/// What the format-specific header of a sound says of its payload.
#[derive(Debug, Clone)]
pub enum SoundFormat {
    /// The raw 73-byte header of an MPEG1 packet stream.
    Mpeg1(Vec<u8>),
    Mpeg3(Mpeg3WaveHeader),
    Pcm(WaveHeader),
}

#[derive(Debug, Clone)]
pub struct SoundHeader {
    pub media_header: MediaHeader,
    pub fmt: SoundFormat,
}

/// A sound object: sizes, media header, and the position where the payload starts.
#[derive(Debug, Clone)]
pub struct WzSound {
    pub unknown: u8,
    pub size: WzInt,
    pub len_ms: WzInt,
    pub header: SoundHeader,
    pub offset: WzPosValue<()>,
}

/// One object of an image, by its type string.
#[derive(Debug)]
pub enum WzObject {
    Property(WzProperty),
    Canvas(WzCanvas),
    UOL(WzUOL),
    Vec2(WzVector2D),
    Convex2D(WzConvex2D),
    SoundDX8(WzSound),
}

/// Size of a WAVEFORMATEX header without its extra bytes.
pub const WAVE_HEADER_SIZE: usize = 18;

/// Size of the header that makes raw PCM samples a playable WAV file.
pub const PCM_HEADER_SIZE: usize = 44;

pub const WAVE_FORMAT_PCM: u16 = 0x0001;

pub const WAVE_FORMAT_MP3: u16 = 0x0055;

/// E436EB83-524F-11CE-9F53-0020AF0BA770, in stored byte order.
pub const MEDIA_TYPE_STREAM: [u8; 16] = [
    0x83, 0xEB, 0x36, 0xE4, 0x4F, 0x52, 0xCE, 0x11, 0x9F, 0x53, 0x00, 0x20, 0xAF, 0x0B, 0xA7, 0x70,
];

/// E436EB87-524F-11CE-9F53-0020AF0BA770, in stored byte order.
pub const MEDIA_SUBTYPE_MPEG1_PACKET: [u8; 16] = [
    0x87, 0xEB, 0x36, 0xE4, 0x4F, 0x52, 0xCE, 0x11, 0x9F, 0x53, 0x00, 0x20, 0xAF, 0x0B, 0xA7, 0x70,
];

/// E436EB8B-524F-11CE-9F53-0020AF0BA770, in stored byte order.
pub const MEDIA_SUBTYPE_WAVE: [u8; 16] = [
    0x8B, 0xEB, 0x36, 0xE4, 0x4F, 0x52, 0xCE, 0x11, 0x9F, 0x53, 0x00, 0x20, 0xAF, 0x0B, 0xA7, 0x70,
];

impl WaveHeader {
    pub fn is_valid_header_size(&self, header_size: usize) -> (r: bool)
        ensures
            r == (WAVE_HEADER_SIZE + self.extra_size == header_size),
    {
        WAVE_HEADER_SIZE + (self.extra_size as usize) == header_size
    }
}

pub open spec fn spec_data_size(s: WzSound) -> int {
    s.size.0 + match s.header.fmt {
        SoundFormat::Pcm(_) => PCM_HEADER_SIZE as int,
        _ => 0,
    }
}

impl WzSound {
    /// Bytes of payload: the stored size, and room for a WAV header in front of PCM samples.
    pub fn data_size(&self) -> (r: usize)
        requires
            self.size.0 >= 0,
        ensures
            r == spec_data_size(*self),
    {
        let extra: usize = match self.header.fmt {
            SoundFormat::Mpeg3(_) => 0,
            SoundFormat::Pcm(_) => PCM_HEADER_SIZE,
            SoundFormat::Mpeg1(_) => 0,
        };
        (self.size.0 as usize) + extra
    }
}

pub open spec fn spec_raw_width(c: WzCanvas) -> int {
    (c.width.0 as u32) as int / (if c.scale.0 == 0 { 1int } else { 16int })
}

pub open spec fn spec_raw_height(c: WzCanvas) -> int {
    (c.height.0 as u32) as int / (if c.scale.0 == 0 { 1int } else { 16int })
}

impl WzCanvas {
    /// A canvas header as read: scale is `0` or `4`.
    pub open spec fn wf(&self) -> bool {
        self.scale.valid()
    }

    pub fn width(&self) -> (r: u32)
        ensures
            r == self.width.0 as u32,
    {
        #[verifier::truncate] (self.width.0 as u32)
    }

    pub fn height(&self) -> (r: u32)
        ensures
            r == self.height.0 as u32,
    {
        #[verifier::truncate] (self.height.0 as u32)
    }

    pub fn raw_width(&self) -> (r: u32)
        requires
            self.wf(),
        ensures
            r == spec_raw_width(*self),
    {
        self.width() / self.scale.factor()
    }

    pub fn raw_height(&self) -> (r: u32)
        requires
            self.wf(),
        ensures
            r == spec_raw_height(*self),
    {
        self.height() / self.scale.factor()
    }

    pub fn pixels(&self) -> (r: u64)
        ensures
            r == (self.width.0 as u32) * (self.height.0 as u32),
    {
        let w = self.width() as u64;
        let h = self.height() as u64;
        assert(w * h <= 0xFFFF_FFFF * 0xFFFF_FFFF) by (nonlinear_arith)
            requires
                w <= 0xFFFF_FFFF,
                h <= 0xFFFF_FFFF,
        {
        }
        w * h
    }

    pub fn raw_pixels(&self) -> (r: u64)
        requires
            self.wf(),
        ensures
            r == spec_raw_width(*self) * spec_raw_height(*self),
    {
        let w = self.raw_width() as u64;
        let h = self.raw_height() as u64;
        assert(w * h <= 0xFFFF_FFFF * 0xFFFF_FFFF) by (nonlinear_arith)
            requires
                w <= 0xFFFF_FFFF,
                h <= 0xFFFF_FFFF,
        {
        }
        w * h
    }

    /// Bytes of the unpacked bitmap at raw size.
    pub fn raw_bitmap_size(&self) -> (r: u128)
        requires
            self.wf(),
        ensures
            r == spec_raw_width(*self) * spec_raw_height(*self) * spec_depth_size(self.depth),
    {
        let p = self.raw_pixels();
        assert(p * spec_depth_size(self.depth) <= 0xFFFF_FFFF_FFFF_FFFF * 4) by (nonlinear_arith)
            requires
                p <= 0xFFFF_FFFF_FFFF_FFFF,
                spec_depth_size(self.depth) <= 4,
        {
        }
        p as u128 * self.depth.depth_size() as u128
    }

    /// Bytes of the unpacked bitmap at logical size.
    pub fn bitmap_size(&self) -> (r: u128)
        ensures
            r == (self.width.0 as u32) * (self.height.0 as u32) * spec_depth_size(self.depth),
    {
        let p = self.pixels();
        assert(p * spec_depth_size(self.depth) <= 0xFFFF_FFFF_FFFF_FFFF * 4) by (nonlinear_arith)
            requires
                p <= 0xFFFF_FFFF_FFFF_FFFF,
                spec_depth_size(self.depth) <= 4,
        {
        }
        p as u128 * self.depth.depth_size() as u128
    }

    /// Length of the payload: the stored length less its leading byte.
    pub fn data_len(&self) -> (r: usize)
        requires
            self.len.val >= 1,
        ensures
            r == self.len.val - 1,
    {
        self.len.val as usize - 1
    }

    /// Where the payload starts: past the length field and one leading byte.
    pub fn data_offset(&self) -> (r: u64)
        requires
            self.len.pos + 5 <= u64::MAX,
        ensures
            r == self.len.pos + 5,
    {
        self.len.pos + 4 + 1
    }
}

} // verus!
