use shroom_wz::crypto::WzCrypto;
use shroom_wz::error::WzErrorKind;
use shroom_wz::file::WzReader;
use shroom_wz::l0::WzDirNode;
use shroom_wz::ty::{WzInt, WzOffset, WzStr};
use shroom_wz::{gms95, WzConfig};

const DATA_OFFSET: u32 = 17;

/// Header "PKG1", file size, data offset 17, empty description, then the stored version.
fn header(version_byte: u16) -> Vec<u8> {
    let mut d = b"PKG1".to_vec();
    d.extend_from_slice(&0u64.to_le_bytes());
    d.extend_from_slice(&DATA_OFFSET.to_le_bytes());
    d.push(0);
    d.extend_from_slice(&version_byte.to_le_bytes());
    d
}

fn crypto() -> WzCrypto {
    WzCrypto::from_cfg(gms95(), DATA_OFFSET)
}

fn push_entry(d: &mut Vec<u8>, tag: u8, name: &str, size: i32, offset: u32) {
    let c = crypto();
    d.push(tag);
    WzStr::new(name.to_string()).write(&c, d).unwrap();
    WzInt(size).write(d);
    WzInt(7).write(d);
    WzOffset(offset).write(&c, d);
}

/// An archive whose root directory holds one image, `X.img`, of four bytes.
fn one_image_archive() -> (Vec<u8>, u32) {
    let mut d = header(142);
    WzInt(1).write(&mut d);
    // the image bytes follow the directory; its offset is known once the entry is written
    let mut probe = d.clone();
    push_entry(&mut probe, 4, "X.img", 4, 0);
    let img_off = probe.len() as u32;
    push_entry(&mut d, 4, "X.img", 4, img_off);
    d.extend_from_slice(&[1, 2, 3, 4]);
    (d, img_off)
}

#[test]
fn open_records_root_offset() {
    let (d, _) = one_image_archive();
    let r = WzReader::open(d, gms95()).unwrap();
    assert_eq!(r.root_offset().0, DATA_OFFSET + 2);
}

#[test]
fn traverse_single_image() {
    let (d, img_off) = one_image_archive();
    let len = d.len() as u32;
    let r = WzReader::open(d, gms95()).unwrap();
    let items = r.traverse_images();
    assert_eq!(items.len(), 1);
    let (path, hdr) = items[0].as_ref().unwrap();
    assert_eq!(path, "root/X.img");
    assert_eq!(hdr.name.0, "X.img");
    assert_eq!(hdr.offset.0, img_off);
    assert!(hdr.offset.0 >= DATA_OFFSET && hdr.offset.0 < len);
    assert_eq!(hdr.blob_size.0, 4);
    assert_eq!(hdr.checksum.0, 7);

    let root = r.read_root_dir().unwrap();
    assert_eq!(root.entries.0.len(), 1);
    assert!(root.get("X.img").is_some());
    assert!(root.get("Y.img").is_none());
    assert_eq!(root.entries.0[0].name(), Some("X.img"));

    let img = r.img_reader(hdr).unwrap();
    assert_eq!(r.checksum(img_off as u64, 4).unwrap(), 10);
    drop(img);
}

#[test]
fn traverse_nested_directories_and_links() {
    let mut d = header(142);
    // root: a directory "sub", a link to the image "b.img", a nil entry
    WzInt(3).write(&mut d);
    let sub_entry_at = d.len();
    push_entry(&mut d, 3, "sub", 0, 0);
    // link: tag 2, link offset (relative to the data offset), size, checksum, offset
    let link_at = d.len();
    d.push(2);
    d.extend_from_slice(&0u32.to_le_bytes());
    WzInt(0).write(&mut d);
    WzInt(0).write(&mut d);
    WzOffset(0).write(&crypto(), &mut d);
    d.push(1);
    d.extend_from_slice(&[0; 10]);
    // the "sub" directory: one image "a.img"
    let sub_dir = d.len() as u32;
    WzInt(1).write(&mut d);
    push_entry(&mut d, 4, "a.img", 0, DATA_OFFSET);
    // the link target: tag 4 and an image entry "b.img"
    let target = d.len() as u32;
    push_entry(&mut d, 4, "b.img", 0, DATA_OFFSET);

    // patch the directory offset of "sub" and the link offset
    let mut fixed = d[..sub_entry_at].to_vec();
    push_entry(&mut fixed, 3, "sub", 0, sub_dir);
    assert_eq!(fixed.len(), link_at);
    fixed.extend_from_slice(&d[link_at..]);
    let rel = target - DATA_OFFSET;
    fixed[link_at + 1..link_at + 5].copy_from_slice(&rel.to_le_bytes());

    let r = WzReader::open(fixed, gms95()).unwrap();
    let paths: Vec<String> = r
        .traverse_images()
        .into_iter()
        .map(|x| x.unwrap().0)
        .collect();
    assert_eq!(paths, vec!["root/b.img".to_string(), "root/sub/a.img".to_string()]);

    let root = r.read_root_dir().unwrap();
    assert!(matches!(root.entries.0[2], WzDirNode::Nil(_)));
    assert_eq!(root.entries.0[1].name(), Some("b.img"));
    let found = r.read_path(&root.entries.0[0], "a.img").unwrap();
    assert_eq!(found.name(), Some("a.img"));
    assert_eq!(
        r.read_path(&root.entries.0[0], "zzz").unwrap_err().kind,
        WzErrorKind::NotFound
    );
}

#[test]
fn open_rejects_bad_magic_and_version() {
    let (mut d, _) = one_image_archive();
    d[12] = DATA_OFFSET as u8;
    let mut wrong_version = d.clone();
    wrong_version[DATA_OFFSET as usize] = 141;
    assert_eq!(
        WzReader::open(wrong_version, gms95()).err().unwrap().kind,
        WzErrorKind::BadVersion
    );
    let mut bad_magic = d.clone();
    bad_magic[0] = b'X';
    assert_eq!(WzReader::open(bad_magic, gms95()).err().unwrap().kind, WzErrorKind::BadMagic);
    assert!(WzReader::open(d, WzConfig::gms(83)).is_err());
    assert_eq!(WzReader::open(b"PKG1".to_vec(), gms95()).err().unwrap().kind, WzErrorKind::IO);
}

#[test]
fn image_reader_out_of_range_is_io() {
    let (d, _) = one_image_archive();
    let r = WzReader::open(d, gms95()).unwrap();
    let items = r.traverse_images();
    let (_, hdr) = items[0].as_ref().unwrap();
    let mut far = hdr.duplicate();
    far.blob_size = WzInt(1_000_000);
    assert_eq!(r.img_reader(&far).err().unwrap().kind, WzErrorKind::IO);
    assert_eq!(r.checksum(0, 1_000_000).unwrap_err().kind, WzErrorKind::IO);
}

#[test]
fn unknown_entry_tag_is_bad_tag() {
    let mut d = header(142);
    WzInt(1).write(&mut d);
    d.push(9);
    let r = WzReader::open(d, gms95()).unwrap();
    assert!(r.read_root_dir().is_err());
    let items = r.traverse_images();
    assert_eq!(items.len(), 1);
    assert!(items[0].is_err());
}

#[test]
fn directory_tree_lookup() {
    let (d, img_off) = one_image_archive();
    let r = WzReader::open(d, gms95()).unwrap();
    let tree = shroom_wz::tree::WzTree::from_reader(&r, None).unwrap();
    assert_eq!(tree.nodes().len(), 2);
    assert_eq!(tree.nodes()[0].data.name(), Some("Root"));
    let img = tree.get_img_by_path("X.img").unwrap();
    assert_eq!(img.offset.0, img_off);
    assert!(tree.get_by_path("nope").is_none());
    assert!(tree.get_img_by_path("X.img/deeper").is_none());
    let named = shroom_wz::tree::WzTree::from_reader(&r, Some("Data")).unwrap();
    assert_eq!(named.nodes()[0].data.name(), Some("Data"));
}
