use vstd::prelude::*;
use crate::bytes::{le_u32, read_u16, read_u32, read_u64, read_u8};
use crate::crypto::WzCrypto;
use crate::ctx::WzStrTable;
use crate::error::{WzError, WzErrorKind};
use crate::l1::{
    chars_match, GUID, MediaHeader, Mpeg3WaveHeader, SoundFormat, SoundHeader, WaveHeader,
    WzCanvas, WzCanvasDepth, WzCanvasScaling, WzConvex2D, WzF32, WzImgStr, WzObject,
    WzObjectValue, WzPosValue, WzPropValue, WzProperty, WzPropertyEntry, WzSound, WzUOL,
    WzVector2D, MEDIA_SUBTYPE_MPEG1_PACKET, MEDIA_SUBTYPE_WAVE, MEDIA_TYPE_STREAM, OBJ_TYPE_CANVAS,
    OBJ_TYPE_CONVEX2D, OBJ_TYPE_PROPERTY, OBJ_TYPE_SOUND_DX8, OBJ_TYPE_UOL, OBJ_TYPE_VEC2,
    WAVE_FORMAT_MP3, WAVE_FORMAT_PCM,
};
use crate::ty::{latin1_chars, spec_read_wz_str, WzInt, WzLong, WzStr, WzVec};

verus! {

/// The interned string at `p`: the magic `inline` and the string itself, or the magic
/// `back` and the position of an earlier occurrence that the table holds.
pub open spec fn spec_read_interned(
    c: WzCrypto,
    d: Seq<u8>,
    p: int,
    tab: Map<u32, Seq<char>>,
    inline: u8,
    back: u8,
) -> Option<(Seq<char>, int)> {
    if !(0 <= p < d.len()) {
        None
    } else if d[p] == inline {
        spec_read_wz_str(c, d, p + 1)
    } else if d[p] == back {
        if p + 5 <= d.len() && tab.contains_key(le_u32(d, p + 1)) {
            Some((tab[le_u32(d, p + 1)], p + 5))
        } else {
            None
        }
    } else {
        None
    }
}

/// The table after reading the interned string at `p`: an inline string is recorded at the
/// position where its body starts.
pub open spec fn spec_table_after(
    c: WzCrypto,
    d: Seq<u8>,
    p: int,
    tab: Map<u32, Seq<char>>,
    inline: u8,
) -> Map<u32, Seq<char>> {
    if 0 <= p < d.len() && d[p] == inline {
        match spec_read_wz_str(c, d, p + 1) {
            Some((s, _)) => tab.insert((p + 1) as u32, s),
            None => tab,
        }
    } else {
        tab
    }
}

/// Reads a string that may be a back-reference into the table, recording inline ones.
pub fn read_interned(
    c: &WzCrypto,
    t: &mut WzStrTable,
    d: &[u8],
    pos: usize,
    inline: u8,
    back: u8,
) -> (r: Result<(WzStr, usize), WzError>)
    requires
        c.wf(),
        inline != back,
    ensures
        match r {
            Ok((s, np)) => {
                &&& spec_read_interned(*c, d@, pos as int, old(t)@, inline, back) == Some(
                    (s.0@, np as int),
                )
                &&& final(t)@ == spec_table_after(*c, d@, pos as int, old(t)@, inline)
                &&& pos < np <= d@.len()
            },
            Err(e) => {
                &&& spec_read_interned(*c, d@, pos as int, old(t)@, inline, back) is None
                &&& pos >= d@.len() ==> e.kind == WzErrorKind::IO
                &&& pos < d@.len() && d@[pos as int] != inline && d@[pos as int] != back ==> e.kind
                    == WzErrorKind::BadTag
                &&& pos < d@.len() && d@[pos as int] == back && pos + 5 <= d@.len()
                    && !old(t)@.contains_key(le_u32(d@, pos + 1)) ==> e.kind
                    == WzErrorKind::MissingStringTableEntry
            },
        },
{
    let magic = read_u8(d, pos)?;
    if magic == inline {
        let (s, np) = WzStr::read(c, d, pos + 1)?;
        proof {
            lemma_str_end(*c, d@, pos + 1);
        }
        t.insert(#[verifier::truncate] ((pos + 1) as u32), WzStr(s.0.clone()));
        Ok((s, np))
    } else if magic == back {
        let off = read_u32(d, pos + 1)?;
        match t.get(&off) {
            Some(s) => Ok((s, pos + 5)),
            None => Err(WzError::new(WzErrorKind::MissingStringTableEntry, pos + 1)),
        }
    } else {
        Err(WzError::new(WzErrorKind::BadTag, pos))
    }
}

proof fn lemma_str_end(c: WzCrypto, d: Seq<u8>, p: int)
    ensures
        match spec_read_wz_str(c, d, p) {
            Some((_, q)) => p < q <= d.len(),
            None => true,
        },
{
}

/// Which kind of object a type string names.
pub open spec fn spec_object_kind(name: Seq<char>) -> Option<int> {
    if name == latin1_chars(OBJ_TYPE_PROPERTY@) {
        Some(0)
    } else if name == latin1_chars(OBJ_TYPE_CANVAS@) {
        Some(1)
    } else if name == latin1_chars(OBJ_TYPE_UOL@) {
        Some(2)
    } else if name == latin1_chars(OBJ_TYPE_VEC2@) {
        Some(3)
    } else if name == latin1_chars(OBJ_TYPE_CONVEX2D@) {
        Some(4)
    } else if name == latin1_chars(OBJ_TYPE_SOUND_DX8@) {
        Some(5)
    } else {
        None
    }
}

pub open spec fn object_kind(o: WzObject) -> int {
    match o {
        WzObject::Property(_) => 0,
        WzObject::Canvas(_) => 1,
        WzObject::UOL(_) => 2,
        WzObject::Vec2(_) => 3,
        WzObject::Convex2D(_) => 4,
        WzObject::SoundDX8(_) => 5,
    }
}

/// Reads an object: its type string, then the body of that kind.
pub fn read_object(c: &WzCrypto, t: &mut WzStrTable, d: &[u8], pos: usize) -> (r: Result<
    (WzObject, usize),
    WzError,
>)
    requires
        c.wf(),
    ensures
        match r {
            Ok((o, np)) => {
                &&& pos < np <= d@.len()
                &&& match spec_read_interned(*c, d@, pos as int, old(t)@, 0x73, 0x1B) {
                    Some((name, _)) => spec_object_kind(name) == Some(object_kind(o)),
                    None => false,
                }
            },
            Err(_) => true,
        },
    decreases d@.len() - pos,
{
    let len = d.len();
    if pos >= len {
        return Err(WzError::new(WzErrorKind::IO, pos));
    }
    let (name, p) = read_interned(c, t, d, pos, 0x73, 0x1B)?;
    let cs = crate::text::chars_of(name.as_str());
    if chars_match(cs.as_slice(), OBJ_TYPE_PROPERTY.as_slice()) {
        let (v, np) = read_property(c, t, d, p)?;
        Ok((WzObject::Property(v), np))
    } else if chars_match(cs.as_slice(), OBJ_TYPE_CANVAS.as_slice()) {
        let (v, np) = read_canvas(c, t, d, p)?;
        Ok((WzObject::Canvas(v), np))
    } else if chars_match(cs.as_slice(), OBJ_TYPE_UOL.as_slice()) {
        let unknown = read_u8(d, p)?;
        let (s, np) = read_interned(c, t, d, p + 1, 0, 1)?;
        Ok((WzObject::UOL(WzUOL { unknown, entries: WzImgStr(s) }), np))
    } else if chars_match(cs.as_slice(), OBJ_TYPE_VEC2.as_slice()) {
        let (v, np) = read_vector(d, p)?;
        Ok((WzObject::Vec2(v), np))
    } else if chars_match(cs.as_slice(), OBJ_TYPE_CONVEX2D.as_slice()) {
        let (v, np) = read_convex(c, t, d, p)?;
        Ok((WzObject::Convex2D(v), np))
    } else if chars_match(cs.as_slice(), OBJ_TYPE_SOUND_DX8.as_slice()) {
        let (v, np) = read_sound(d, p)?;
        Ok((WzObject::SoundDX8(v), np))
    } else {
        Err(WzError::new(WzErrorKind::BadTag, pos))
    }
}

/// Two compressed ints.
pub fn read_vector(d: &[u8], pos: usize) -> (r: Result<(WzVector2D, usize), WzError>)
    ensures
        match r {
            Ok((v, np)) => pos < np <= d@.len() && match crate::ty::spec_read_wz_int(
                d@,
                pos as int,
            ) {
                Some((x, q)) => x == v.x.0 && crate::ty::spec_read_wz_int(d@, q) == Some(
                    (v.y.0, np as int),
                ),
                None => false,
            },
            Err(_) => match crate::ty::spec_read_wz_int(d@, pos as int) {
                Some((_, q)) => crate::ty::spec_read_wz_int(d@, q) is None,
                None => true,
            },
        },
{
    let (x, p) = WzInt::read(d, pos)?;
    let (y, np) = WzInt::read(d, p)?;
    Ok((WzVector2D { x, y }, np))
}

/// A count, then that many vectors, each behind its type string.
fn read_convex(c: &WzCrypto, t: &mut WzStrTable, d: &[u8], pos: usize) -> (r: Result<
    (WzConvex2D, usize),
    WzError,
>)
    requires
        c.wf(),
    ensures
        match r {
            Ok((_, np)) => pos < np <= d@.len(),
            Err(_) => true,
        },
{
    let (n, p) = WzInt::read(d, pos)?;
    if n.0 < 0 {
        return Err(WzError::new(WzErrorKind::BadTag, pos));
    }
    let count = n.0 as usize;
    let mut v: Vec<WzVector2D> = Vec::new();
    let mut q = p;
    let mut i: usize = 0;
    while i < count
        invariant
            c.wf(),
            pos < q <= d@.len(),
            i <= count,
        decreases count - i,
    {
        let (_, q1) = read_interned(c, t, d, q, 0x73, 0x1B)?;
        let (e, q2) = read_vector(d, q1)?;
        v.push(e);
        q = q2;
        i = i + 1;
    }
    Ok((WzConvex2D(v), q))
}

/// A 16-bit field, a count, then that many named values.
pub fn read_property(c: &WzCrypto, t: &mut WzStrTable, d: &[u8], pos: usize) -> (r: Result<
    (WzProperty, usize),
    WzError,
>)
    requires
        c.wf(),
    ensures
        match r {
            Ok((prop, np)) => pos < np <= d@.len() && match crate::ty::spec_read_wz_int(
                d@,
                pos + 2,
            ) {
                Some((n, _)) => prop.entries.0@.len() == n,
                None => false,
            },
            Err(_) => true,
        },
    decreases d@.len() - pos,
{
    let len = d.len();
    let unknown = read_u16(d, pos)?;
    let (n, p) = WzInt::read(d, pos + 2)?;
    if n.0 < 0 {
        return Err(WzError::new(WzErrorKind::BadTag, pos + 2));
    }
    let count = n.0 as usize;
    let mut entries: Vec<WzPropertyEntry> = Vec::new();
    let mut q = p;
    let mut i: usize = 0;
    while i < count
        invariant
            c.wf(),
            pos < q <= d@.len(),
            i <= count,
            entries@.len() == i,
        decreases count - i,
    {
        let (name, q1) = read_interned(c, t, d, q, 0, 1)?;
        let (val, q2) = read_prop_value(c, t, d, q1)?;
        entries.push(WzPropertyEntry { name: WzImgStr(name), val });
        q = q2;
        i = i + 1;
    }
    Ok((WzProperty { unknown, entries: WzVec(entries) }, q))
}

/// The 16-bit two's complement reading of a word.
pub open spec fn signed16(u: u16) -> i16 {
    if u < 0x8000 {
        u as i16
    } else {
        (u as int - 0x1_0000) as i16
    }
}

/// Whether a tag stands for a scalar: null, short, int, long or one of the floats.
pub open spec fn is_scalar_tag(t: u8) -> bool {
    t == 0 || t == 2 || t == 11 || t == 3 || t == 19 || t == 20 || t == 4 || t == 5
}

/// The scalar property value whose tag stands at `p`, and the position after it.
pub open spec fn spec_read_scalar(d: Seq<u8>, p: int) -> Option<(WzPropValue, int)> {
    let t = d[p];
    if t == 0 {
        Some((WzPropValue::Null, p + 1))
    } else if t == 2 || t == 11 {
        if p + 3 <= d.len() {
            let v = signed16(crate::bytes::le_u16(d, p + 1));
            Some((if t == 2 { WzPropValue::Short1(v) } else { WzPropValue::Short2(v) }, p + 3))
        } else {
            None
        }
    } else if t == 3 || t == 19 || t == 4 {
        match crate::ty::spec_read_wz_int(d, p + 1) {
            Some((x, q)) => Some(
                (if t == 3 {
                    WzPropValue::Int1(WzInt(x))
                } else if t == 19 {
                    WzPropValue::Int2(WzInt(x))
                } else {
                    WzPropValue::F32(WzF32(crate::bytes::unsigned32(x)))
                }, q),
            ),
            None => None,
        }
    } else if t == 20 {
        match crate::ty::spec_read_wz_long(d, p + 1) {
            Some((x, q)) => Some((WzPropValue::Long(WzLong(x)), q)),
            None => None,
        }
    } else {
        if p + 9 <= d.len() {
            Some((WzPropValue::F64(crate::bytes::le_u64(d, p + 1)), p + 9))
        } else {
            None
        }
    }
}

/// A tagged property value. An embedded object is length-prefixed, and reading always goes
/// on at the end its length declares.
pub fn read_prop_value(c: &WzCrypto, t: &mut WzStrTable, d: &[u8], pos: usize) -> (r: Result<
    (WzPropValue, usize),
    WzError,
>)
    requires
        c.wf(),
    ensures
        match r {
            Ok((v, np)) => {
                &&& pos < np <= d@.len()
                &&& (v is Obj ==> d@[pos as int] == 9 && np == pos + 5 + le_u32(d@, pos + 1))
                &&& (is_scalar_tag(d@[pos as int]) ==> spec_read_scalar(d@, pos as int) == Some(
                    (v, np as int),
                ))
            },
            Err(_) => pos < d@.len() && is_scalar_tag(d@[pos as int]) ==> spec_read_scalar(
                d@,
                pos as int,
            ) is None,
        },
    decreases d@.len() - pos,
{
    let len = d.len();
    let tag = read_u8(d, pos)?;
    let p = pos + 1;
    if tag == 0 {
        Ok((WzPropValue::Null, p))
    } else if tag == 2 || tag == 11 {
        let u = read_u16(d, p)?;
        let v: i16 = if u < 0x8000 {
            u as i16
        } else {
            (u as i32 - 0x1_0000) as i16
        };
        assert(v == signed16(u));
        assert(v == signed16(u));
        if tag == 2 {
            Ok((WzPropValue::Short1(v), p + 2))
        } else {
            Ok((WzPropValue::Short2(v), p + 2))
        }
    } else if tag == 3 || tag == 19 {
        let (v, np) = WzInt::read(d, p)?;
        if tag == 3 {
            Ok((WzPropValue::Int1(v), np))
        } else {
            Ok((WzPropValue::Int2(v), np))
        }
    } else if tag == 20 {
        let (v, np) = WzLong::read(d, p)?;
        Ok((WzPropValue::Long(v), np))
    } else if tag == 4 {
        let (v, np) = WzInt::read(d, p)?;
        Ok((WzPropValue::F32(WzF32(crate::bytes::to_unsigned32(v.0))), np))
    } else if tag == 5 {
        let v = read_u64(d, p)?;
        Ok((WzPropValue::F64(v), p + 8))
    } else if tag == 8 {
        let (s, np) = read_interned(c, t, d, p, 0, 1)?;
        Ok((WzPropValue::Str(WzImgStr(s)), np))
    } else if tag == 9 {
        let obj_len = read_u32(d, p)?;
        let start = p + 4;
        if obj_len as usize > len - start {
            return Err(WzError::new(WzErrorKind::IO, start));
        }
        let (obj, _) = read_object(c, t, d, start)?;
        Ok((WzPropValue::Obj(WzObjectValue { len: obj_len, obj: Box::new(obj) }), start + obj_len as usize))
    } else {
        Err(WzError::new(WzErrorKind::BadTag, pos))
    }
}

/// The canvas header; the payload itself is left where it stands.
pub fn read_canvas(c: &WzCrypto, t: &mut WzStrTable, d: &[u8], pos: usize) -> (r: Result<
    (WzCanvas, usize),
    WzError,
>)
    requires
        c.wf(),
    ensures
        match r {
            Ok((cv, np)) => {
                &&& pos < np <= d@.len()
                &&& cv.wf()
                &&& cv.len.pos + 4 <= d@.len()
                &&& cv.len.val == le_u32(d@, cv.len.pos as int)
                &&& cv.len.pos + 4 == np
            },
            Err(_) => true,
        },
    decreases d@.len() - pos,
{
    let len = d.len();
    let unknown = read_u8(d, pos)?;
    let has_property = read_u8(d, pos + 1)?;
    let mut p = pos + 2;
    let property = if has_property == 1 {
        let (prop, np) = read_property(c, t, d, p)?;
        p = np;
        Some(prop)
    } else {
        None
    };
    let (width, p1) = WzInt::read(d, p)?;
    let (height, p2) = WzInt::read(d, p1)?;
    let (depth_tag, p3) = WzInt::read(d, p2)?;
    let depth = match WzCanvasDepth::try_from_int(depth_tag) {
        Ok(v) => v,
        Err(_) => {
            return Err(WzError::new(WzErrorKind::BadCanvasDepth, p2));
        },
    };
    let scale_tag = read_u8(d, p3)?;
    let scale = match WzCanvasScaling::try_from_u8(scale_tag) {
        Ok(v) => v,
        Err(_) => {
            return Err(WzError::new(WzErrorKind::BadCanvasScale, p3));
        },
    };
    let unknown1 = read_u32(d, p3 + 1)?;
    let len_pos = p3 + 5;
    let payload_len = read_u32(d, len_pos)?;
    Ok(
        (
            WzCanvas {
                unknown,
                has_property,
                property,
                width,
                height,
                depth,
                scale,
                unknown1,
                len: WzPosValue { val: payload_len, pos: len_pos as u64 },
            },
            len_pos + 4,
        ),
    )
}

fn read_guid(d: &[u8], pos: usize) -> (r: Result<GUID, WzError>)
    ensures
        match r {
            Ok(g) => pos + 16 <= d@.len() && g.0@ == d@.subrange(pos as int, pos + 16),
            Err(e) => pos + 16 > d@.len() && e.kind == WzErrorKind::IO,
        },
{
    let len = d.len();
    if pos > len || len - pos < 16 {
        return Err(WzError::new(WzErrorKind::IO, pos));
    }
    let g: [u8; 16] = [
        d[pos],
        d[pos + 1],
        d[pos + 2],
        d[pos + 3],
        d[pos + 4],
        d[pos + 5],
        d[pos + 6],
        d[pos + 7],
        d[pos + 8],
        d[pos + 9],
        d[pos + 10],
        d[pos + 11],
        d[pos + 12],
        d[pos + 13],
        d[pos + 14],
        d[pos + 15],
    ];
    assert(g@ =~= d@.subrange(pos as int, pos + 16));
    Ok(GUID(g))
}

fn guid_is(g: &GUID, want: &[u8; 16]) -> (r: bool)
    ensures
        r == (g.0@ == want@),
{
    let mut i: usize = 0;
    while i < 16
        invariant
            i <= 16,
            forall|j: int| 0 <= j < i ==> g.0@[j] == want@[j],
        decreases 16 - i,
    {
        if g.0[i] != want[i] {
            return false;
        }
        i = i + 1;
    }
    assert(g.0@ =~= want@);
    true
}

/// The WAVEFORMATEX fields stored at `q`.
pub open spec fn wave_matches(w: WaveHeader, d: Seq<u8>, q: int) -> bool {
    &&& w.format == crate::bytes::le_u16(d, q)
    &&& w.channels == crate::bytes::le_u16(d, q + 2)
    &&& w.samples_per_sec == le_u32(d, q + 4)
    &&& w.avg_bytes_per_sec == le_u32(d, q + 8)
    &&& w.block_align == crate::bytes::le_u16(d, q + 12)
    &&& w.bits_per_sample == crate::bytes::le_u16(d, q + 14)
    &&& w.extra_size == crate::bytes::le_u16(d, q + 16)
}

/// How reading a sound header at `p` ends: the position after it, or the kind of error.
/// The media header takes 51 bytes, then a length byte and that many format bytes.
pub open spec fn spec_sound_header_end(d: Seq<u8>, p: int) -> Result<int, WzErrorKind> {
    if p + 51 > d.len() {
        Err(WzErrorKind::IO)
    } else if d.subrange(p + 1, p + 17) != MEDIA_TYPE_STREAM@ {
        Err(WzErrorKind::BadSoundMajor)
    } else if p + 52 > d.len() || p + 52 + d[p + 51] > d.len() {
        Err(WzErrorKind::IO)
    } else {
        let h = d[p + 51] as int;
        let start = p + 52;
        let sub = d.subrange(p + 17, p + 33);
        if sub == MEDIA_SUBTYPE_MPEG1_PACKET@ {
            if h == 73 {
                Ok(start + h)
            } else {
                Err(WzErrorKind::BadWaveFormat)
            }
        } else if sub == MEDIA_SUBTYPE_WAVE@ {
            if h < 18 {
                Err(WzErrorKind::IO)
            } else if crate::bytes::le_u16(d, start) == WAVE_FORMAT_PCM {
                Ok(start + h)
            } else if crate::bytes::le_u16(d, start) == WAVE_FORMAT_MP3 {
                if h < 30 {
                    Err(WzErrorKind::IO)
                } else {
                    Ok(start + h)
                }
            } else {
                Err(WzErrorKind::BadWaveFormat)
            }
        } else {
            Err(WzErrorKind::BadSoundSubtype)
        }
    }
}

fn read_wave(d: &[u8], pos: usize) -> (r: Result<(WaveHeader, usize), WzError>)
    ensures
        match r {
            Ok((w, np)) => np == pos + 18 && np <= d@.len() && wave_matches(w, d@, pos as int),
            Err(e) => pos + 18 > d@.len() && e.kind == WzErrorKind::IO,
        },
{
    let format = read_u16(d, pos)?;
    let channels = read_u16(d, pos + 2)?;
    let samples_per_sec = read_u32(d, pos + 4)?;
    let avg_bytes_per_sec = read_u32(d, pos + 8)?;
    let block_align = read_u16(d, pos + 12)?;
    let bits_per_sample = read_u16(d, pos + 14)?;
    let extra_size = read_u16(d, pos + 16)?;
    Ok(
        (
            WaveHeader {
                format,
                channels,
                samples_per_sec,
                avg_bytes_per_sec,
                block_align,
                bits_per_sample,
                extra_size,
            },
            pos + 18,
        ),
    )
}

/// The format header that a sound header holds matches its sub type and its bytes.
pub open spec fn format_matches(h: SoundHeader, d: Seq<u8>, pos: int, np: int) -> bool {
    match h.fmt {
        SoundFormat::Mpeg1(b) => {
            &&& h.media_header.sub_type.0@ == MEDIA_SUBTYPE_MPEG1_PACKET@
            &&& b@ == d.subrange(pos + 52, np)
        },
        SoundFormat::Pcm(w) => {
            &&& h.media_header.sub_type.0@ == MEDIA_SUBTYPE_WAVE@
            &&& wave_matches(w, d, pos + 52)
            &&& w.format == WAVE_FORMAT_PCM
        },
        SoundFormat::Mpeg3(m) => {
            &&& h.media_header.sub_type.0@ == MEDIA_SUBTYPE_WAVE@
            &&& wave_matches(m.wav, d, pos + 52)
            &&& m.wav.format == WAVE_FORMAT_MP3
            &&& m.id == crate::bytes::le_u16(d, pos + 70)
            &&& m.flags == le_u32(d, pos + 72)
            &&& m.block_size == crate::bytes::le_u16(d, pos + 76)
            &&& m.frames_per_block == crate::bytes::le_u16(d, pos + 78)
            &&& m.codec_delay == crate::bytes::le_u16(d, pos + 80)
        },
    }
}

/// The media header, then a length-prefixed format header chosen by the sub type.
pub fn read_sound_header(d: &[u8], pos: usize) -> (r: Result<(SoundHeader, usize), WzError>)
    ensures
        match r {
            Ok((h, np)) => {
                &&& spec_sound_header_end(d@, pos as int) is Ok
                &&& spec_sound_header_end(d@, pos as int)->Ok_0 == np as int
                &&& h.media_header.unknown1 == d@[pos as int]
                &&& h.media_header.major_type.0@ == d@.subrange(pos + 1, pos + 17)
                &&& h.media_header.sub_type.0@ == d@.subrange(pos + 17, pos + 33)
                &&& h.media_header.sample_size == crate::bytes::le_u16(d@, pos + 33)
                &&& h.media_header.format_type.0@ == d@.subrange(pos + 35, pos + 51)
                &&& format_matches(h, d@, pos as int, np as int)
            },
            Err(e) => spec_sound_header_end(d@, pos as int) is Err && spec_sound_header_end(
                d@,
                pos as int,
            )->Err_0 == e.kind,
        },
{
    let len = d.len();
    let unknown1 = read_u8(d, pos)?;
    let major_type = read_guid(d, pos + 1)?;
    let sub_type = read_guid(d, pos + 17)?;
    let sample_size = read_u16(d, pos + 33)?;
    let format_type = read_guid(d, pos + 35)?;
    let media_header = MediaHeader { unknown1, major_type, sub_type, sample_size, format_type };
    if !guid_is(&major_type, &MEDIA_TYPE_STREAM) {
        return Err(WzError::new(WzErrorKind::BadSoundMajor, pos + 1));
    }
    let hdr_len = read_u8(d, pos + 51)? as usize;
    let start = pos + 52;
    if start > len || hdr_len > len - start {
        return Err(WzError::new(WzErrorKind::IO, start));
    }
    let end = start + hdr_len;
    let hdr = vstd::slice::slice_subrange(d, start, end);
    if guid_is(&sub_type, &MEDIA_SUBTYPE_MPEG1_PACKET) {
        if hdr_len != 73 {
            return Err(WzError::new(WzErrorKind::BadWaveFormat, start));
        }
        Ok((SoundHeader { media_header, fmt: SoundFormat::Mpeg1(vstd::slice::slice_to_vec(hdr)) }, end))
    } else if guid_is(&sub_type, &MEDIA_SUBTYPE_WAVE) {
        let (wave, _) = read_wave(hdr, 0)?;
        if wave.format == WAVE_FORMAT_PCM {
            Ok((SoundHeader { media_header, fmt: SoundFormat::Pcm(wave) }, end))
        } else if wave.format == WAVE_FORMAT_MP3 {
            let id = read_u16(hdr, 18)?;
            let flags = read_u32(hdr, 20)?;
            let block_size = read_u16(hdr, 24)?;
            let frames_per_block = read_u16(hdr, 26)?;
            let codec_delay = read_u16(hdr, 28)?;
            let mp3 = Mpeg3WaveHeader { wav: wave, id, flags, block_size, frames_per_block, codec_delay };
            Ok((SoundHeader { media_header, fmt: SoundFormat::Mpeg3(mp3) }, end))
        } else {
            Err(WzError::new(WzErrorKind::BadWaveFormat, start))
        }
    } else {
        Err(WzError::new(WzErrorKind::BadSoundSubtype, pos + 17))
    }
}

/// A byte, the payload size, the play time, the media header; the payload follows.
pub fn read_sound(d: &[u8], pos: usize) -> (r: Result<(WzSound, usize), WzError>)
    ensures
        match r {
            Ok((s, np)) => pos < np <= d@.len() && s.offset.pos == np,
            Err(_) => true,
        },
{
    let unknown = read_u8(d, pos)?;
    let (size, p1) = WzInt::read(d, pos + 1)?;
    let (len_ms, p2) = WzInt::read(d, p1)?;
    let (header, p3) = read_sound_header(d, p2)?;
    Ok((WzSound { unknown, size, len_ms, header, offset: WzPosValue { val: (), pos: p3 as u64 } }, p3))
}

} // verus!
