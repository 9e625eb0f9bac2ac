use shroom_wz::canvas::{bit_pix, read_chunked_data, write_chunked_data};
use shroom_wz::crypto::WzCrypto;
use shroom_wz::error::WzErrorKind;
use shroom_wz::ty::{WzInt, WzLong, WzStr};
use shroom_wz::util::wz_checksum;
use shroom_wz::version::{encrypt_version, WzRegion, WzVersion};
use shroom_wz::{gms95, WzConfig};

#[test]
fn bit_pix_() {
    assert_eq!(bit_pix::<8>(0x1234, 8), 0x12);
    assert_eq!(bit_pix::<4>(0x1234, 8), 0x2 * 16);
    assert_eq!(bit_pix::<3>(0x1234, 8), 2 * 32);
    assert_eq!(bit_pix::<3>(0x123F, 0), 7 * 32);
}

#[test]
fn version_hash() {
    let v95 = WzVersion(95);

    assert_eq!(v95.hash(), 1910);
    assert_eq!(v95.encrypted_version(), 142);
}

#[test]
fn checksum() {
    const N: usize = 4096 * 2 + 3;
    let data = [0x1u8; N];

    assert_eq!(wz_checksum(0, &data), N as i32);
    let r = shroom_wz::file::WzReader::open_img(data.to_vec(), gms95());
    assert_eq!(r.checksum(0, N as u64).unwrap(), N as i32);
}

#[test]
fn chunk_overrunning_total_is_rejected() {
    let crypto = WzCrypto::from_cfg(gms95(), 0);
    // one record of 4 + 4 bytes, declared total 6
    let mut rec = 4u32.to_le_bytes().to_vec();
    rec.extend_from_slice(&[1, 2, 3, 4]);
    assert_eq!(read_chunked_data(&crypto, &rec, 0, 6).unwrap_err().kind, WzErrorKind::BadChunkSize);
    assert_eq!(read_chunked_data(&crypto, &rec, 0, 8).unwrap().len(), 4);
    assert_eq!(read_chunked_data(&crypto, &rec, 0, 2).unwrap_err().kind, WzErrorKind::BadChunkSize);
}

#[test]
fn wz_offset() {
    let crypto = WzCrypto::from_cfg(gms95(), 60);

    let c = crypto.encrypt_offset(4681, 89);
    assert_eq!(crypto.decrypt_offset(c, 89), 4681);
}

#[test]
fn chunked() {
    let crypto = WzCrypto::from_cfg(gms95(), 1337);
    let data = [0xffu8; 4096];
    let chunks: Vec<Vec<u8>> = data.chunks(128).map(|c| c.to_vec()).collect();

    let mut rw = Vec::new();
    write_chunked_data(&crypto, &chunks, &mut rw);

    assert_eq!(rw.len(), 4096 + (4096 / 128) * 4);

    let read = read_chunked_data(&crypto, &rw, 0, rw.len()).unwrap();
    assert_eq!(read.len(), 4096);
    assert!(read.iter().all(|c| *c == 0xff));
}

#[test]
fn version_pair_of_95() {
    assert_eq!(shroom_wz::version::version_hash(95), 1910);
    assert_eq!(encrypt_version(1910), 142);
}

#[test]
fn version_hash_other_values() {
    // "1": 0 * 32 + 49 + 1
    assert_eq!(shroom_wz::version::version_hash(1), 50);
    // "10": 50 * 32 + 48 + 1
    assert_eq!(shroom_wz::version::version_hash(10), 1649);
    assert_eq!(encrypt_version(0x01020304), (0xFF ^ 1 ^ 2 ^ 3 ^ 4) as u16);
}

#[test]
fn offset_round_trip_many_positions() {
    let crypto = WzCrypto::from_cfg(WzConfig::new(WzRegion::SEA, 83), 60);
    for &(off, pos) in &[(0u32, 0u32), (60, 61), (u32::MAX, 12345), (99999, u32::MAX), (7, 59)] {
        let c = crypto.encrypt_offset(off, pos);
        assert_eq!(crypto.decrypt_offset(c, pos), off);
    }
}

#[test]
fn offset_link_is_data_offset_plus_link() {
    let crypto = WzCrypto::from_cfg(gms95(), 60);
    assert_eq!(crypto.offset_link(40), 100);
    assert_eq!(crypto.offset_link(u32::MAX), 60 + u32::MAX as u64);
}

#[test]
fn transform_twice_restores_small_and_large() {
    let crypto = WzCrypto::from_cfg(gms95(), 0);
    for &n in &[0usize, 1, 15, 16, 17, 4096, 4097, 10000] {
        let orig: Vec<u8> = (0..n).map(|i| (i * 7 + 3) as u8).collect();
        let mut buf = orig.clone();
        crypto.transform(&mut buf);
        if n > 0 {
            assert_ne!(buf, orig, "the key stream must change the bytes");
        }
        crypto.transform(&mut buf);
        assert_eq!(buf, orig);
    }
}

#[test]
fn transform_is_stateless_across_lengths() {
    // The large path regenerates the stream from the IV, so its prefix equals the small path.
    let crypto = WzCrypto::from_cfg(gms95(), 0);
    let mut small = vec![0u8; 4096];
    let mut large = vec![0u8; 5000];
    crypto.transform(&mut small);
    crypto.transform(&mut large);
    assert_eq!(&small[..], &large[..4096]);
}

#[test]
fn regions_differ_in_key_stream() {
    let gms = WzCrypto::from_cfg(WzConfig::new(WzRegion::GMS, 95), 0);
    let sea = WzCrypto::from_cfg(WzConfig::new(WzRegion::SEA, 95), 0);
    let other = WzCrypto::from_cfg(WzConfig::new(WzRegion::Other, 95), 0);
    let bms = WzCrypto::from_cfg(WzConfig::new(WzRegion::BmsSrv, 95), 0);
    let mut a = vec![0u8; 32];
    let mut b = vec![0u8; 32];
    let mut c = vec![0u8; 32];
    let mut d = vec![0u8; 32];
    gms.transform(&mut a);
    sea.transform(&mut b);
    other.transform(&mut c);
    bms.transform(&mut d);
    assert_ne!(a, b);
    assert_ne!(a, c);
    assert_eq!(c, d);
}

fn int_bytes(v: i32) -> Vec<u8> {
    let mut out = Vec::new();
    WzInt(v).write(&mut out);
    out
}

#[test]
fn wz_int_encodings() {
    assert_eq!(int_bytes(0), vec![0x00]);
    assert_eq!(int_bytes(127), vec![0x7F]);
    assert_eq!(int_bytes(-127), vec![0x81]);
    assert_eq!(int_bytes(-128), vec![0x80, 0x80, 0xFF, 0xFF, 0xFF]);
    assert_eq!(int_bytes(128), vec![0x80, 0x80, 0x00, 0x00, 0x00]);
}

#[test]
fn wz_int_round_trip_and_lengths() {
    for &v in &[0, 1, -1, 127, -127, -128, 128, 1000, -1000, i32::MAX, i32::MIN] {
        let b = int_bytes(v);
        let expected_len = if (-127..=127).contains(&v) { 1 } else { 5 };
        assert_eq!(b.len(), expected_len, "length of {v}");
        let (r, np) = WzInt::read(&b, 0).unwrap();
        assert_eq!(r.0, v);
        assert_eq!(np, b.len());
    }
}

#[test]
fn wz_long_round_trip_and_lengths() {
    for &v in &[0i64, 5, -127, -128, 128, i64::MAX, i64::MIN, 1 << 40] {
        let mut b = vec![0xAA];
        WzLong(v).write(&mut b);
        let expected_len = if (-127..=127).contains(&v) { 1 } else { 9 };
        assert_eq!(b.len(), 1 + expected_len);
        let (r, np) = WzLong::read(&b, 1).unwrap();
        assert_eq!(r.0, v);
        assert_eq!(np, b.len());
    }
}

#[test]
fn wz_int_truncated_is_io_error() {
    assert_eq!(WzInt::read(&[0x80, 1, 2], 0).unwrap_err().kind, WzErrorKind::IO);
    assert_eq!(WzInt::read(&[], 0).unwrap_err().kind, WzErrorKind::IO);
}

fn str_round_trip(s: &str) -> Vec<u8> {
    let crypto = WzCrypto::from_cfg(gms95(), 0);
    let mut out = vec![1, 2, 3];
    WzStr::new(s.to_string()).write(&crypto, &mut out).unwrap();
    out.extend_from_slice(&[9, 9]);
    let (r, np) = WzStr::read(&crypto, &out, 3).unwrap();
    assert_eq!(r.0, s);
    assert_eq!(np, out.len() - 2);
    out
}

#[test]
fn wz_str_latin1_round_trips() {
    for &n in &[0usize, 1, 127, 128, 65536] {
        let s: String = (0..n).map(|i| char::from(b'a' + (i % 26) as u8)).collect();
        let out = str_round_trip(&s);
        let flag = out[3];
        if n >= 128 {
            assert_eq!(flag, 0x80);
        } else {
            assert_eq!(flag as i8, -(n as i8));
        }
    }
    str_round_trip("caf\u{e9} \u{ff}");
}

#[test]
fn wz_str_utf16_round_trips() {
    for &n in &[1usize, 126, 127, 128, 65536] {
        let s: String = (0..n)
            .map(|i| if i % 3 == 0 { '\u{3042}' } else { char::from(b'x') })
            .collect();
        let out = str_round_trip(&s);
        let flag = out[3];
        if n >= 127 {
            assert_eq!(flag, 0x7F);
        } else {
            assert_eq!(flag as usize, n);
        }
    }
}

#[test]
fn wz_str_invalid_utf16_is_bad_string() {
    let crypto = WzCrypto::from_cfg(gms95(), 0);
    // one code unit that decodes to a lone surrogate 0xD800
    let mut unit = vec![0x00u8, 0xD8];
    crypto.transform(&mut unit);
    let masked = u16::from_le_bytes([unit[0], unit[1]]) ^ 0xAAAA;
    let bytes = masked.to_le_bytes();
    let data = vec![1u8, bytes[0], bytes[1]];
    assert_eq!(WzStr::read(&crypto, &data, 0).unwrap_err().kind, WzErrorKind::BadString);
}

#[test]
fn wz_str_negative_long_length_is_rejected() {
    let crypto = WzCrypto::from_cfg(gms95(), 0);
    let data = vec![0x80u8, 0xFF, 0xFF, 0xFF, 0xFF];
    assert!(WzStr::read(&crypto, &data, 0).is_err());
}

#[test]
fn checksum_wraps_at_32_bits() {
    let data = vec![0xFFu8; 10];
    assert_eq!(wz_checksum(i32::MAX, &data), i32::MAX.wrapping_add(2550));
    assert_eq!(wz_checksum(-5, &[]), -5);
}
