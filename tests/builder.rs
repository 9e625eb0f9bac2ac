use shroom_wz::builder::WzImgBuilder;
use shroom_wz::crypto::WzCrypto;
use shroom_wz::error::WzErrorKind;
use shroom_wz::file::WzImgReader;
use shroom_wz::gms95;
use shroom_wz::l0::WzImgHeader;
use shroom_wz::ty::{WzInt, WzOffset, WzStr};
use shroom_wz::val::{ObjectVal, Vec2Val, Vex2Val, WzValue};
use shroom_wz::value_tree::WzValueTree;

fn sample() -> WzValue {
    let mut inner = ObjectVal::new();
    inner.insert("x".to_string(), WzValue::Int(1));
    inner.insert("name".to_string(), WzValue::String("name".to_string()));
    let mut o = ObjectVal::new();
    o.insert("int".to_string(), WzValue::Int(-100000));
    o.insert("short".to_string(), WzValue::Short(-3));
    o.insert("long".to_string(), WzValue::Long(1 << 40));
    o.insert("f64".to_string(), WzValue::F64(1.5f64.to_bits()));
    o.insert("f32".to_string(), WzValue::F32(2.25f32.to_bits()));
    o.insert("none".to_string(), WzValue::Null);
    o.insert("text".to_string(), WzValue::String("caf\u{e9} \u{3042}".to_string()));
    o.insert("pos".to_string(), WzValue::Vec(Vec2Val::new(-1, 1)));
    o.insert(
        "poly".to_string(),
        WzValue::Convex(Vex2Val(vec![Vec2Val::new(1, 2), Vec2Val::new(3, 4)])),
    );
    o.insert("link".to_string(), WzValue::Link("../int".to_string()));
    o.insert("inner".to_string(), WzValue::Object(inner));
    o.insert("empty".to_string(), WzValue::Object(ObjectVal::new()));
    WzValue::Object(o)
}

#[test]
fn written_image_reads_back() {
    let mut b = WzImgBuilder::new();
    b.write_value(&sample()).unwrap();
    let mut r = WzImgReader::new(b.bytes().clone(), WzCrypto::from_cfg(gms95(), 0));
    let v = WzValue::read(&mut r).unwrap();
    assert_eq!(v.get_path("int").unwrap().as_i32(), Some(-100000));
    assert_eq!(v.get_path("short").unwrap().as_i16(), Some(-3));
    assert_eq!(v.get_path("long").unwrap().as_i64(), Some(1 << 40));
    assert_eq!(v.get_path("f64").unwrap().as_f64_bits(), Some(1.5f64.to_bits()));
    assert_eq!(v.get_path("f32").unwrap().as_f32_bits(), Some(2.25f32.to_bits()));
    assert!(matches!(v.get_path("none"), Some(WzValue::Null)));
    assert_eq!(v.get_path("text").unwrap().as_string(), Some("caf\u{e9} \u{3042}"));
    let p = v.get_path("pos").unwrap().as_vec().unwrap();
    assert_eq!((p.x, p.y), (-1, 1));
    assert_eq!(v.get_path("poly").unwrap().as_convex().unwrap().0.len(), 2);
    assert!(matches!(v.get_path("link"), Some(WzValue::Link(s)) if s == "../int"));
    assert_eq!(v.get_path("inner/x").unwrap().as_i32(), Some(1));
    assert_eq!(v.get_path("inner/name").unwrap().as_string(), Some("name"));
    assert_eq!(v.get_path("empty").unwrap().as_object().unwrap().0.len(), 0);
}

#[test]
fn strings_are_tagged_and_inline() {
    let crypto = WzCrypto::from_cfg(gms95(), 0);
    let mut expected = vec![8u8, 0];
    WzStr::new("abc".to_string()).write(&crypto, &mut expected).unwrap();
    let mut b = WzImgBuilder::new();
    b.write_value(&WzValue::String("abc".to_string())).unwrap();
    assert_eq!(b.bytes(), &expected);
    assert_eq!(expected.len(), 2 + 1 + 3);
}

#[test]
fn scalar_values_are_tagged() {
    let mut b = WzImgBuilder::new();
    b.write_value(&WzValue::Int(128)).unwrap();
    assert_eq!(b.bytes(), &vec![3, 0x80, 0x80, 0, 0, 0]);
    let mut b = WzImgBuilder::new();
    b.write_value(&WzValue::Null).unwrap();
    assert_eq!(b.bytes(), &vec![0]);
}

#[test]
fn object_keys_stay_unique_in_order() {
    let mut o = ObjectVal::new();
    o.insert("a".to_string(), WzValue::Int(1));
    o.insert("b".to_string(), WzValue::Int(2));
    o.insert("a".to_string(), WzValue::Int(3));
    assert_eq!(o.0.len(), 2);
    assert_eq!(o.0[0].0, "a");
    assert_eq!(o.get("a").unwrap().as_i32(), Some(3));
    assert_eq!(o.get("b").unwrap().as_i32(), Some(2));
}

#[test]
fn canvas_write_is_unsupported() {
    // a canvas value, read from a bare canvas object
    let crypto = WzCrypto::from_cfg(gms95(), 0);
    let mut d = vec![0x73];
    WzStr::new("Canvas".to_string()).write(&crypto, &mut d).unwrap();
    d.extend_from_slice(&[0, 0, 1, 1, 2, 0, 0, 0, 0, 0, 1, 0, 0, 0, 0]);
    let mut r = WzImgReader::new(d, crypto);
    let canvas = WzValue::read(&mut r).unwrap();
    assert!(canvas.as_canvas().is_some());

    let mut b = WzImgBuilder::new();
    assert_eq!(b.write_value(&canvas).unwrap_err().kind, WzErrorKind::Unsupported);
    let mut o = ObjectVal::new();
    o.insert("c".to_string(), canvas);
    let mut b = WzImgBuilder::new();
    assert_eq!(b.write_property(&o).unwrap_err().kind, WzErrorKind::Unsupported);
}

#[test]
fn value_tree_indexes_every_entry() {
    let hdr = WzImgHeader {
        name: WzStr::new("a.img".to_string()),
        blob_size: WzInt(0),
        checksum: WzInt(0),
        offset: WzOffset(0),
    };
    let tree = WzValueTree::build_from_img(hdr, sample());
    // the root, twelve entries, and the two entries of "inner"
    assert_eq!(tree.nodes().len(), 1 + 12 + 2);
    assert_eq!(tree.nodes()[0].name, "root");
    assert_eq!(tree.nodes()[0].children.len(), 12);
    let inner = tree
        .nodes()
        .iter()
        .position(|n| n.name == "inner")
        .unwrap();
    assert_eq!(tree.nodes()[inner].children.len(), 2);
    let x = tree.nodes()[inner].children[0];
    assert_eq!(tree.nodes()[x].name, "x");
    assert_eq!(tree.value(x).unwrap().as_i32(), Some(1));
    assert!(tree.value(10_000).is_none());
    assert!(tree.value(0).unwrap().as_object().is_some());
}
