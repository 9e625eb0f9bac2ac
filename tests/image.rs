use std::io::Write;

use shroom_wz::canvas::write_chunked_data;
use shroom_wz::crypto::WzCrypto;
use shroom_wz::error::WzErrorKind;
use shroom_wz::file::WzImgReader;
use shroom_wz::l1::{SoundFormat, WzCanvasDepth, WzObject};
use shroom_wz::ty::{WzInt, WzStr};
use shroom_wz::val::WzValue;
use shroom_wz::gms95;

fn crypto() -> WzCrypto {
    WzCrypto::from_cfg(gms95(), 0)
}

fn ty(d: &mut Vec<u8>, name: &str) {
    d.push(0x73);
    WzStr::new(name.to_string()).write(&crypto(), d).unwrap();
}

fn name(d: &mut Vec<u8>, n: &str) {
    d.push(0);
    WzStr::new(n.to_string()).write(&crypto(), d).unwrap();
}

/// An embedded object value: tag 9, its length, then the object written by `body`.
fn obj(d: &mut Vec<u8>, body: impl FnOnce(&mut Vec<u8>)) {
    d.push(9);
    let at = d.len();
    d.extend_from_slice(&[0; 4]);
    body(d);
    let len = (d.len() - at - 4) as u32;
    d[at..at + 4].copy_from_slice(&len.to_le_bytes());
}

fn property_image() -> Vec<u8> {
    let mut d = Vec::new();
    ty(&mut d, "Property");
    d.extend_from_slice(&[0, 0]);
    WzInt(7).write(&mut d);
    name(&mut d, "n");
    d.push(3);
    WzInt(-300).write(&mut d);
    name(&mut d, "s");
    d.push(8);
    name(&mut d, "hello");
    name(&mut d, "short");
    d.push(2);
    d.extend_from_slice(&(-2i16).to_le_bytes());
    name(&mut d, "nothing");
    d.push(0);
    name(&mut d, "v");
    obj(&mut d, |d| {
        ty(d, "Shape2D#Vector2D");
        WzInt(-1).write(d);
        WzInt(1).write(d);
    });
    name(&mut d, "child");
    obj(&mut d, |d| {
        // a back-reference to the type string at offset 1
        d.push(0x1B);
        d.extend_from_slice(&1u32.to_le_bytes());
        d.extend_from_slice(&[0, 0]);
        WzInt(1).write(d);
        name(d, "link");
        obj(d, |d| {
            ty(d, "UOL");
            d.push(0);
            name(d, "../n");
        });
    });
    name(&mut d, "poly");
    obj(&mut d, |d| {
        ty(d, "Shape2D#Convex2D");
        WzInt(2).write(d);
        ty(d, "Shape2D#Vector2D");
        WzInt(1).write(d);
        WzInt(2).write(d);
        ty(d, "Shape2D#Vector2D");
        WzInt(3).write(d);
        WzInt(4).write(d);
    });
    d
}

#[test]
fn value_tree_from_property_image() {
    let mut r = WzImgReader::new(property_image(), crypto());
    let v = WzValue::read(&mut r).unwrap();
    assert_eq!(v.get_path("n").unwrap().as_i32(), Some(-300));
    assert_eq!(v.get_path("n").unwrap().as_u32(), Some((-300i32) as u32));
    assert_eq!(v.get_path("s").unwrap().as_string(), Some("hello"));
    assert_eq!(v.get_path("short").unwrap().as_i16(), Some(-2));
    assert!(matches!(v.get_path("nothing"), Some(WzValue::Null)));
    let vec = v.get_path("v").unwrap().as_vec().unwrap();
    assert_eq!((vec.x, vec.y), (-1, 1));
    match v.get_path("child/link") {
        Some(WzValue::Link(s)) => assert_eq!(s, "../n"),
        other => panic!("expected a link, got {other:?}"),
    }
    let poly = v.get_path("poly").unwrap().as_convex().unwrap();
    assert_eq!(poly.0.len(), 2);
    assert_eq!((poly.0[1].x, poly.0[1].y), (3, 4));
    assert!(v.get_path("n/deeper").is_none());
    assert!(v.get_path("missing").is_none());
    let o = v.as_object().unwrap();
    assert_eq!(o.0.len(), 7);
    assert_eq!(o.must_get("zzz").unwrap_err().kind, WzErrorKind::NotFound);
}

#[test]
fn object_path_through_embedded_objects() {
    let mut r = WzImgReader::new(property_image(), crypto());
    let root = r.read_root_obj().unwrap();
    let link = r.read_path(&root, "child/link").unwrap();
    assert!(matches!(link, WzObject::UOL(_)));
    assert_eq!(r.read_path(&root, "n").unwrap_err().kind, WzErrorKind::NotFound);
}

#[test]
fn missing_back_reference_and_unknown_type() {
    let mut d = vec![0x1B];
    d.extend_from_slice(&5u32.to_le_bytes());
    let mut r = WzImgReader::new(d, crypto());
    assert_eq!(r.read_root_obj().unwrap_err().kind, WzErrorKind::MissingStringTableEntry);

    let mut d = Vec::new();
    ty(&mut d, "Nonsense");
    let mut r = WzImgReader::new(d, crypto());
    assert_eq!(r.read_root_obj().unwrap_err().kind, WzErrorKind::BadTag);
}

fn canvas_image(depth: i32, w: i32, h: i32, payload: &[u8]) -> Vec<u8> {
    let mut d = Vec::new();
    ty(&mut d, "Canvas");
    d.push(0);
    d.push(0);
    WzInt(w).write(&mut d);
    WzInt(h).write(&mut d);
    WzInt(depth).write(&mut d);
    d.push(0);
    d.extend_from_slice(&0u32.to_le_bytes());
    d.extend_from_slice(&((payload.len() + 1) as u32).to_le_bytes());
    d.push(0);
    d.extend_from_slice(payload);
    d
}

fn zlib(bytes: &[u8]) -> Vec<u8> {
    let mut e = flate2::write::ZlibEncoder::new(Vec::new(), flate2::Compression::default());
    e.write_all(bytes).unwrap();
    e.finish().unwrap()
}

fn decode(img: Vec<u8>) -> shroom_wz::canvas::RgbaImage {
    let mut r = WzImgReader::new(img, crypto());
    let root = r.read_root_obj().unwrap();
    let WzObject::Canvas(c) = root else { panic!("not a canvas") };
    r.read_canvas(&c).unwrap().to_raw_rgba_image().unwrap()
}

#[test]
fn zlib_and_chunked_framing_decode_alike() {
    let pixels: Vec<u8> = (0..2 * 3 * 4).map(|i| i as u8).collect();
    let stream = zlib(&pixels);
    let a = decode(canvas_image(2, 2, 3, &stream));

    let chunks = vec![stream[..5].to_vec(), stream[5..].to_vec()];
    let mut chunked = Vec::new();
    write_chunked_data(&crypto(), &chunks, &mut chunked);
    assert_ne!(chunked[0], 0x78);
    let b = decode(canvas_image(2, 2, 3, &chunked));

    assert_eq!(a.data, b.data);
    assert_eq!(a.data, pixels);
    assert_eq!((a.width, a.height), (2, 3));
}

#[test]
fn every_depth_gives_raw_size_rgba() {
    let (w, h) = (4u32, 4u32);
    for &(tag, bpp) in &[(1, 2usize), (2, 4), (513, 2), (1026, 1), (2050, 1)] {
        let raw: Vec<u8> = (0..(w * h) as usize * bpp).map(|i| (i * 37) as u8).collect();
        let img = decode(canvas_image(tag, w as i32, h as i32, &zlib(&raw)));
        assert_eq!((img.width, img.height), (w, h), "depth {tag}");
        assert_eq!(img.data.len(), (w * h * 4) as usize, "depth {tag}");
    }
}

#[test]
fn pixel_formats_expand_channels() {
    // BGRA4444 word 0x1234: b=4, g=3, r=2, a=1
    let img = decode(canvas_image(1, 1, 1, &zlib(&[0x34, 0x12])));
    assert_eq!(img.data, vec![0x20, 0x30, 0x40, 0x10]);
    // BGR565 word 0xFFFF: all channels full, alpha 255
    let img = decode(canvas_image(513, 1, 1, &zlib(&[0xFF, 0xFF])));
    assert_eq!(img.data, vec![0xF8, 0xFC, 0xF8, 0xFF]);
    // BGRA8888 bytes are kept in order
    let img = decode(canvas_image(2, 1, 1, &zlib(&[1, 2, 3, 4])));
    assert_eq!(img.data, vec![1, 2, 3, 4]);
}

#[test]
fn canvas_errors() {
    let mut r = WzImgReader::new(canvas_image(3, 1, 1, &[0]), crypto());
    assert_eq!(r.read_root_obj().unwrap_err().kind, WzErrorKind::BadCanvasDepth);

    let mut img = canvas_image(2, 1, 1, &zlib(&[1, 2, 3, 4]));
    // type string (8 bytes), two flag bytes, width, height and depth of one byte each
    let scale_at = 8 + 2 + 3;
    img[scale_at] = 3;
    let mut r = WzImgReader::new(img, crypto());
    assert_eq!(r.read_root_obj().unwrap_err().kind, WzErrorKind::BadCanvasScale);

    // a chunk larger than the declared total
    let mut payload = 100u32.to_le_bytes().to_vec();
    payload.extend_from_slice(&[0; 4]);
    let mut r = WzImgReader::new(canvas_image(2, 1, 1, &payload), crypto());
    let WzObject::Canvas(c) = r.read_root_obj().unwrap() else { panic!() };
    assert_eq!(r.read_canvas(&c).err().unwrap().kind, WzErrorKind::BadChunkSize);
}

fn guid(first: u8) -> [u8; 16] {
    [
        first, 0xEB, 0x36, 0xE4, 0x4F, 0x52, 0xCE, 0x11, 0x9F, 0x53, 0x00, 0x20, 0xAF, 0x0B, 0xA7,
        0x70,
    ]
}

fn sound_image(major: u8, sub: u8, format: u16) -> Vec<u8> {
    let mut d = Vec::new();
    ty(&mut d, "Sound_DX8");
    d.push(0);
    WzInt(6).write(&mut d);
    WzInt(1500).write(&mut d);
    d.push(0);
    d.extend_from_slice(&guid(major));
    d.extend_from_slice(&guid(sub));
    d.extend_from_slice(&1u16.to_le_bytes());
    d.extend_from_slice(&[0; 16]);
    let mut wave = Vec::new();
    wave.extend_from_slice(&format.to_le_bytes());
    wave.extend_from_slice(&2u16.to_le_bytes());
    wave.extend_from_slice(&44100u32.to_le_bytes());
    wave.extend_from_slice(&176400u32.to_le_bytes());
    wave.extend_from_slice(&4u16.to_le_bytes());
    wave.extend_from_slice(&16u16.to_le_bytes());
    wave.extend_from_slice(&12u16.to_le_bytes());
    wave.extend_from_slice(&[0; 12]);
    d.push(wave.len() as u8);
    d.extend_from_slice(&wave);
    d.extend_from_slice(&[10, 11, 12, 13, 14, 15]);
    d.extend_from_slice(&[0; 44]);
    d
}

#[test]
fn sound_headers_and_payload() {
    let mut r = WzImgReader::new(sound_image(0x83, 0x8B, 0x0055), crypto());
    let v = WzValue::read(&mut r).unwrap();
    let s = v.as_sound().unwrap();
    assert!(matches!(s.sound.header.fmt, SoundFormat::Mpeg3(_)));
    assert_eq!(s.duration_ms(), 1500);
    assert_eq!(s.read_data(&r).unwrap(), vec![10, 11, 12, 13, 14, 15]);

    let mut r = WzImgReader::new(sound_image(0x83, 0x8B, 0x0001), crypto());
    let v = WzValue::read(&mut r).unwrap();
    let s = v.as_sound().unwrap();
    assert!(matches!(s.sound.header.fmt, SoundFormat::Pcm(_)));
    assert_eq!(s.read_data(&r).unwrap().len(), 6 + 44);

    let mut r = WzImgReader::new(sound_image(0x84, 0x8B, 0x0001), crypto());
    assert_eq!(r.read_root_obj().unwrap_err().kind, WzErrorKind::BadSoundMajor);
    let mut r = WzImgReader::new(sound_image(0x83, 0x99, 0x0001), crypto());
    assert_eq!(r.read_root_obj().unwrap_err().kind, WzErrorKind::BadSoundSubtype);
    let mut r = WzImgReader::new(sound_image(0x83, 0x8B, 0x0002), crypto());
    assert_eq!(r.read_root_obj().unwrap_err().kind, WzErrorKind::BadWaveFormat);
}

#[test]
fn canvas_depth_sizes() {
    assert_eq!(WzCanvasDepth::BGRA4444.depth_size(), 2);
    assert_eq!(WzCanvasDepth::BGRA8888.depth_size(), 4);
    assert_eq!(WzCanvasDepth::BGR565.depth_size(), 2);
    assert_eq!(WzCanvasDepth::DXT3.depth_size(), 1);
    assert_eq!(WzCanvasDepth::DXT5.depth_size(), 1);
}

fn canvas_body(d: &mut Vec<u8>, with_property: bool) {
    ty(d, "Canvas");
    d.push(0);
    if with_property {
        d.push(1);
        d.extend_from_slice(&[0, 0]);
        WzInt(2).write(d);
        name(d, "delay");
        d.push(3);
        WzInt(120).write(d);
        name(d, "origin");
        obj(d, |d| {
            ty(d, "Shape2D#Vector2D");
            WzInt(5).write(d);
            WzInt(6).write(d);
        });
    } else {
        d.push(0);
    }
    WzInt(3).write(d);
    WzInt(2).write(d);
    WzInt(2).write(d);
    d.push(0);
    d.extend_from_slice(&0u32.to_le_bytes());
    d.extend_from_slice(&1u32.to_le_bytes());
    d.push(0);
}

#[test]
fn animation_frames_from_numbered_canvases() {
    let mut d = Vec::new();
    ty(&mut d, "Property");
    d.extend_from_slice(&[0, 0]);
    WzInt(3).write(&mut d);
    name(&mut d, "0");
    obj(&mut d, |d| canvas_body(d, true));
    name(&mut d, "info");
    d.push(3);
    WzInt(1).write(&mut d);
    name(&mut d, "1");
    obj(&mut d, |d| canvas_body(d, false));

    let mut r = WzImgReader::new(d, crypto());
    let v = WzValue::read(&mut r).unwrap();
    assert_eq!(v.get_path("0/delay").unwrap().as_i32(), Some(120));
    let anim = shroom_wz::animation::Animation::from_obj_value(v.as_object().unwrap()).unwrap();
    assert_eq!(anim.len(), 2);
    assert_eq!(anim.dim(), (3, 2));
    assert_eq!(anim.frames[0].delay_ms, Some(120));
    let o = anim.frames[0].offset.unwrap();
    assert_eq!((o.x, o.y), (5, 6));
    assert_eq!(anim.frames[1].delay_ms, None);
    assert!(anim.get_canvas_frame(2).is_none());

    let mut only_info = shroom_wz::val::ObjectVal::new();
    only_info.insert("info".to_string(), WzValue::Int(1));
    assert_eq!(
        shroom_wz::animation::Animation::from_obj_value(&only_info).unwrap_err().kind,
        WzErrorKind::NotFound
    );
    let mut not_canvas = shroom_wz::val::ObjectVal::new();
    not_canvas.insert("0".to_string(), WzValue::Int(1));
    assert_eq!(
        shroom_wz::animation::Animation::from_obj_value(&not_canvas).unwrap_err().kind,
        WzErrorKind::BadTag
    );
}

#[test]
fn empty_block_compressed_canvas_is_empty() {
    let mut r = WzImgReader::new(canvas_image(1026, 0, 4, &zlib(&[])), crypto());
    let WzObject::Canvas(c) = r.read_root_obj().unwrap() else { panic!() };
    let img = r.read_canvas(&c).unwrap().to_raw_rgba_image().unwrap();
    assert_eq!((img.width, img.height, img.data.len()), (0, 4, 0));
}

#[test]
fn mpeg1_sound_header_needs_73_bytes() {
    let build = |hlen: usize| {
        let mut d = Vec::new();
        ty(&mut d, "Sound_DX8");
        d.push(0);
        WzInt(2).write(&mut d);
        WzInt(10).write(&mut d);
        d.push(0);
        d.extend_from_slice(&guid(0x83));
        d.extend_from_slice(&guid(0x87));
        d.extend_from_slice(&1u16.to_le_bytes());
        d.extend_from_slice(&[0; 16]);
        d.push(hlen as u8);
        d.extend_from_slice(&vec![7u8; hlen]);
        d.extend_from_slice(&[1, 2]);
        d
    };
    let mut r = WzImgReader::new(build(73), crypto());
    let v = WzValue::read(&mut r).unwrap();
    let s = v.as_sound().unwrap();
    assert!(matches!(&s.sound.header.fmt, SoundFormat::Mpeg1(b) if b.len() == 73));
    assert_eq!(s.read_data(&r).unwrap(), vec![1, 2]);
    let mut r = WzImgReader::new(build(72), crypto());
    assert_eq!(r.read_root_obj().unwrap_err().kind, WzErrorKind::BadWaveFormat);
}
