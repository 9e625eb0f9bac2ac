use vstd::prelude::*;
use crate::bytes::{push_u16, push_u32, push_u64, u16_bytes, u32_bytes, u64_bytes, unsigned32};
use crate::crypto::WzCrypto;
use crate::error::{WzError, WzErrorKind};
use crate::l1::{wz_ty_str, OBJ_TYPE_CONVEX2D, OBJ_TYPE_PROPERTY, OBJ_TYPE_UOL, OBJ_TYPE_VEC2};
use crate::ty::{
    is_latin1, latin1_chars, spec_str_fits, spec_wz_int_bytes, spec_wz_long_bytes,
    spec_wz_str_bytes, WzInt, WzLong, WzStr,
};
use crate::val::{ObjectVal, Vec2Val, WzValue};

verus! {

/// A type string, inline: the magic `0x73` and the string.
pub open spec fn ty_bytes(c: WzCrypto, name: Seq<u8>) -> Seq<u8> {
    seq![0x73u8] + spec_wz_str_bytes(c, latin1_chars(name))
}

/// A name or string value, inline: the magic `0x00` and the string.
pub open spec fn name_bytes(c: WzCrypto, s: Seq<char>) -> Seq<u8> {
    seq![0x00u8] + spec_wz_str_bytes(c, s)
}

/// The points of a polygon, each behind its type string.
pub open spec fn points_bytes(c: WzCrypto, ps: Seq<Vec2Val>) -> Seq<u8>
    decreases ps.len(),
{
    if ps.len() == 0 {
        Seq::empty()
    } else {
        points_bytes(c, ps.drop_last()) + ty_bytes(c, OBJ_TYPE_VEC2@) + spec_wz_int_bytes(
            ps.last().x,
        ) + spec_wz_int_bytes(ps.last().y)
    }
}

/// Number of entries of an object value.
pub open spec fn olen(v: WzValue) -> nat {
    match v {
        WzValue::Object(o) => o.0@.len(),
        _ => 0,
    }
}

/// The bytes the builder writes for `v`. With `m == olen(v) + 2`: `v` as a property value
/// (scalars and strings by their tag, anything else as tag 9, a 32-bit length and the
/// object). With `m == olen(v) + 1`: `v` as an object. With `m <= olen(v)`: the first `m`
/// entries of an object, each a name then a property value.
pub open spec fn spec_value_bytes(c: WzCrypto, v: WzValue, m: nat) -> Seq<u8>
    decreases v, m,
{
    let l = olen(v);
    if m == l + 2 {
        match v {
            WzValue::String(s) => seq![8u8] + name_bytes(c, s@),
            _ => if is_scalar(v) {
                spec_scalar_bytes(v)
            } else {
                let body = spec_value_bytes(c, v, l + 1);
                seq![9u8] + u32_bytes(body.len() as u32) + body
            },
        }
    } else if m == l + 1 {
        match v {
            WzValue::Object(o) => ty_bytes(c, OBJ_TYPE_PROPERTY@) + seq![0u8, 0u8]
                + spec_wz_int_bytes(l as i32) + spec_value_bytes(c, v, l),
            WzValue::Link(s) => ty_bytes(c, OBJ_TYPE_UOL@) + seq![0u8] + name_bytes(c, s@),
            WzValue::Vec(p) => ty_bytes(c, OBJ_TYPE_VEC2@) + spec_wz_int_bytes(p.x)
                + spec_wz_int_bytes(p.y),
            WzValue::Convex(vx) => ty_bytes(c, OBJ_TYPE_CONVEX2D@) + spec_wz_int_bytes(
                vx.0@.len() as i32,
            ) + points_bytes(c, vx.0@),
            WzValue::String(s) => seq![8u8] + name_bytes(c, s@),
            _ => spec_scalar_bytes(v),
        }
    } else if m <= l {
        match v {
            WzValue::Object(o) => if m == 0 {
                Seq::empty()
            } else {
                let e = o.0@[m - 1];
                spec_value_bytes(c, v, (m - 1) as nat) + name_bytes(c, e.0@) + spec_value_bytes(
                    c,
                    e.1,
                    olen(e.1) + 2,
                )
            },
            _ => Seq::empty(),
        }
    } else {
        Seq::empty()
    }
}

/// Whether the builder can write `v` in the form `m` selects: no canvas or sound, every
/// string's length fits its prefix, every count fits a signed 32-bit int and every embedded
/// object's length fits 32 bits.
pub open spec fn spec_writable(c: WzCrypto, v: WzValue, m: nat) -> bool
    decreases v, m,
{
    let l = olen(v);
    if m == l + 2 {
        match v {
            WzValue::String(s) => spec_str_fits(s@),
            _ => is_scalar(v) || (spec_writable(c, v, l + 1) && spec_value_bytes(c, v, l + 1).len()
                <= u32::MAX),
        }
    } else if m == l + 1 {
        match v {
            WzValue::Object(o) => l < 0x8000_0000 && spec_writable(c, v, l),
            WzValue::Link(s) => spec_str_fits(s@),
            WzValue::Vec(_) => true,
            WzValue::Convex(vx) => vx.0@.len() < 0x8000_0000,
            WzValue::String(s) => spec_str_fits(s@),
            WzValue::Canvas(_) | WzValue::Sound(_) => false,
            _ => true,
        }
    } else if m <= l {
        match v {
            WzValue::Object(o) => if m == 0 {
                true
            } else {
                let e = o.0@[m - 1];
                spec_writable(c, v, (m - 1) as nat) && spec_str_fits(e.0@) && spec_writable(
                    c,
                    e.1,
                    olen(e.1) + 2,
                )
            },
            _ => true,
        }
    } else {
        true
    }
}

proof fn lemma_writable_prefix(c: WzCrypto, v: WzValue, m: nat, m2: nat)
    requires
        m <= m2 <= olen(v),
        !spec_writable(c, v, m),
    ensures
        !spec_writable(c, v, m2),
    decreases m2,
{
    if m < m2 {
        lemma_writable_prefix(c, v, m, (m2 - 1) as nat);
    }
}

proof fn lemma_ascii_fits(b: Seq<u8>)
    requires
        b.len() < 0x8000_0000,
    ensures
        spec_str_fits(latin1_chars(b)),
{
    assert forall|i: int| 0 <= i < latin1_chars(b).len() implies (#[trigger] latin1_chars(b)[i]
        as u32) < 256 by {
        let x = b[i];
        assert((((x as u32) as char) as u32) < 256);
    }
    assert(is_latin1(latin1_chars(b)));
}

/// Writes a value tree as the bytes of an image.
pub struct WzImgBuilder {
    crypto: WzCrypto,
    out: Vec<u8>,
}

impl WzImgBuilder {
    pub closed spec fn wf(&self) -> bool {
        self.crypto.wf()
    }

    pub closed spec fn spec_out(&self) -> Seq<u8> {
        self.out@
    }

    pub closed spec fn spec_crypto(&self) -> WzCrypto {
        self.crypto
    }

    /// A builder for the global region at version 95 and data offset zero.
    pub fn new() -> (r: WzImgBuilder)
        ensures
            r.wf(),
            r.spec_out().len() == 0,
    {
        WzImgBuilder { crypto: WzCrypto::from_cfg(crate::gms95(), 0), out: Vec::new() }
    }

    /// The bytes written so far.
    pub fn bytes(&self) -> (r: &Vec<u8>)
        ensures
            r@ == self.spec_out(),
    {
        &self.out
    }

    /// A string behind `magic`; fails, writing nothing, where its length does not fit.
    fn write_str(&mut self, magic: u8, s: &str) -> (r: Result<(), WzError>)
        requires
            old(self).wf(),
        ensures
            final(self).wf(),
            final(self).spec_crypto() == old(self).spec_crypto(),
            r is Ok <==> spec_str_fits(s@),
            r is Ok ==> final(self).spec_out() == old(self).spec_out() + seq![magic]
                + spec_wz_str_bytes(old(self).spec_crypto(), s@),
            r is Err ==> r->Err_0.kind == WzErrorKind::Unsupported,
    {
        let mut encoded: Vec<u8> = Vec::new();
        WzStr::new(String::from_str(s)).write(&self.crypto, &mut encoded)?;
        self.out.push(magic);
        self.out.append(&mut encoded);
        assert(self.out@ =~= old(self).out@ + seq![magic] + spec_wz_str_bytes(self.crypto, s@));
        Ok(())
    }

    /// The type string of an object kind.
    fn write_type(&mut self, name: &[u8])
        requires
            old(self).wf(),
            name@.len() < 0x8000_0000,
        ensures
            final(self).wf(),
            final(self).spec_crypto() == old(self).spec_crypto(),
            final(self).spec_out() == old(self).spec_out() + ty_bytes(old(self).spec_crypto(), name@),
    {
        let t = wz_ty_str(name);
        proof {
            lemma_ascii_fits(name@);
        }
        let r = self.write_str(0x73, t.0.as_str());
        assert(r is Ok);
    }

    fn write_vector(&mut self, v: &Vec2Val)
        ensures
            final(self).wf() == old(self).wf(),
            final(self).spec_crypto() == old(self).spec_crypto(),
            final(self).spec_out() == old(self).spec_out() + spec_wz_int_bytes(v.x)
                + spec_wz_int_bytes(v.y),
    {
        WzInt(v.x).write(&mut self.out);
        WzInt(v.y).write(&mut self.out);
        assert(self.out@ =~= old(self).out@ + spec_wz_int_bytes(v.x) + spec_wz_int_bytes(v.y));
    }

    /// A property: its type string, a zero 16-bit field, the count, then each name and value.
    pub fn write_property(&mut self, obj: &ObjectVal) -> (r: Result<(), WzError>)
        requires
            old(self).wf(),
        ensures
            final(self).wf(),
            final(self).spec_crypto() == old(self).spec_crypto(),
            r is Err ==> r->Err_0.kind == WzErrorKind::Unsupported,
            r is Ok <==> spec_writable(
                old(self).spec_crypto(),
                WzValue::Object(*obj),
                obj.0@.len() + 1,
            ),
            r is Ok ==> final(self).spec_out() == old(self).spec_out() + spec_value_bytes(
                old(self).spec_crypto(),
                WzValue::Object(*obj),
                obj.0@.len() + 1,
            ),
        decreases obj, 0nat,
    {
        let ghost v = WzValue::Object(*obj);
        let ghost c = self.crypto;
        let ghost start = self.out@;
        let l = obj.0.len();
        if l > 0x7FFF_FFFF {
            return Err(WzError::new(WzErrorKind::Unsupported, self.out.len()));
        }
        self.write_type(OBJ_TYPE_PROPERTY.as_slice());
        push_u16(&mut self.out, 0);
        WzInt(l as i32).write(&mut self.out);
        let ghost base = self.out@;
        assert(u16_bytes(0) =~= seq![0u8, 0u8]);
        let mut i: usize = 0;
        while i < l
            invariant
                self.wf(),
                self.crypto == c,
                c == old(self).crypto,
                start == old(self).out@,
                v == WzValue::Object(*obj),
                l == obj.0@.len() == olen(v),
                l < 0x8000_0000,
                i <= l,
                base == start + ty_bytes(c, OBJ_TYPE_PROPERTY@) + seq![0u8, 0u8] + spec_wz_int_bytes(l as i32),
                self.out@ == base + spec_value_bytes(c, v, i as nat),
                spec_writable(c, v, i as nat),
            decreases l - i,
        {
            proof {
                vstd::std_specs::vec::axiom_vec_index_decreases(obj.0, i as int);
            }
            let ghost e = obj.0@[i as int];
            let ghost before = self.out@;
            let named = self.write_str(0, obj.0[i].0.as_str());
            if named.is_err() {
                proof {
                    lemma_writable_prefix(c, v, (i + 1) as nat, l as nat);
                }
                return named;
            }
            let ghost mid = self.out@;
            let written = self.write_prop_value(&obj.0[i].1);
            if written.is_err() {
                proof {
                    lemma_writable_prefix(c, v, (i + 1) as nat, l as nat);
                }
                return written;
            }
            assert(self.out@ =~= base + spec_value_bytes(c, v, (i + 1) as nat));
            i = i + 1;
        }
        assert(self.out@ =~= start + spec_value_bytes(c, v, olen(v) + 1));
        Ok(())
    }

    /// A value inside a property: scalars and strings by their tag; anything else as an
    /// embedded object with a back-patched length.
    fn write_prop_value(&mut self, value: &WzValue) -> (r: Result<(), WzError>)
        requires
            old(self).wf(),
        ensures
            final(self).wf(),
            final(self).spec_crypto() == old(self).spec_crypto(),
            r is Err ==> r->Err_0.kind == WzErrorKind::Unsupported,
            r is Ok <==> spec_writable(old(self).spec_crypto(), *value, olen(*value) + 2),
            r is Ok ==> final(self).spec_out() == old(self).spec_out() + spec_value_bytes(
                old(self).spec_crypto(),
                *value,
                olen(*value) + 2,
            ),
        decreases value, 2nat,
    {
        let ghost c = self.crypto;
        let ghost before = self.out@;
        match value {
            WzValue::String(s) => {
                self.write_str_value(s)
            },
            WzValue::Object(_) | WzValue::Vec(_) | WzValue::Convex(_) | WzValue::Link(_)
            | WzValue::Canvas(_) | WzValue::Sound(_) => {
                self.out.push(9u8);
                let at = self.out.len();
                push_u32(&mut self.out, 0);
                let ghost mid = self.out@;
                self.write_object(value)?;
                let end = self.out.len();
                if end - at - 4 > u32::MAX as usize {
                    return Err(WzError::new(WzErrorKind::Unsupported, at));
                }
                let len = (end - at - 4) as u32;
                self.out.set(at, (len % 0x100) as u8);
                self.out.set(at + 1, ((len / 0x100) % 0x100) as u8);
                self.out.set(at + 2, ((len / 0x1_0000) % 0x100) as u8);
                self.out.set(at + 3, (len / 0x100_0000) as u8);
                assert(self.out@ =~= before + spec_value_bytes(c, *value, olen(*value) + 2));
                Ok(())
            },
            _ => {
                self.write_scalar(value);
                Ok(())
            },
        }
    }

    /// A string value: tag 8 and the string inline.
    fn write_str_value(&mut self, s: &String) -> (r: Result<(), WzError>)
        requires
            old(self).wf(),
        ensures
            final(self).wf(),
            final(self).spec_crypto() == old(self).spec_crypto(),
            r is Err ==> r->Err_0.kind == WzErrorKind::Unsupported,
            r is Ok <==> spec_str_fits(s@),
            r is Ok ==> final(self).spec_out() == old(self).spec_out() + seq![8u8] + name_bytes(
                old(self).spec_crypto(),
                s@,
            ),
    {
        let mut encoded: Vec<u8> = Vec::new();
        WzStr::new(s.clone()).write(&self.crypto, &mut encoded)?;
        self.out.push(8u8);
        self.out.push(0u8);
        self.out.append(&mut encoded);
        assert(self.out@ =~= old(self).out@ + seq![8u8] + name_bytes(self.crypto, s@));
        Ok(())
    }

    /// A scalar as a tagged property value.
    fn write_scalar(&mut self, value: &WzValue)
        ensures
            final(self).wf() == old(self).wf(),
            final(self).spec_crypto() == old(self).spec_crypto(),
            final(self).spec_out() == old(self).spec_out() + spec_scalar_bytes(*value),
    {
        match value {
            WzValue::Null => {
                self.out.push(0u8);
            },
            WzValue::Short(v) => {
                self.out.push(2u8);
                push_u16(&mut self.out, #[verifier::truncate] (crate::bytes::to_unsigned32(*v as i32) as u16));
            },
            WzValue::Int(v) => {
                self.out.push(3u8);
                WzInt(*v).write(&mut self.out);
            },
            WzValue::Long(v) => {
                self.out.push(20u8);
                WzLong(*v).write(&mut self.out);
            },
            WzValue::F32(bits) => {
                self.out.push(4u8);
                WzInt(crate::bytes::to_signed32(*bits)).write(&mut self.out);
            },
            WzValue::F64(bits) => {
                self.out.push(5u8);
                push_u64(&mut self.out, *bits);
            },
            _ => {},
        }
        assert(self.out@ =~= old(self).out@ + spec_scalar_bytes(*value));
    }

    /// An object: a property, a link, a vector or a polygon; a string or scalar as a tagged
    /// value. Canvases and sounds carry payloads this builder does not write.
    fn write_object(&mut self, value: &WzValue) -> (r: Result<(), WzError>)
        requires
            old(self).wf(),
        ensures
            final(self).wf(),
            final(self).spec_crypto() == old(self).spec_crypto(),
            r is Err ==> r->Err_0.kind == WzErrorKind::Unsupported,
            r is Ok <==> spec_writable(old(self).spec_crypto(), *value, olen(*value) + 1),
            r is Ok ==> final(self).spec_out() == old(self).spec_out() + spec_value_bytes(
                old(self).spec_crypto(),
                *value,
                olen(*value) + 1,
            ),
        decreases value, 1nat,
    {
        let ghost c = self.crypto;
        let ghost before = self.out@;
        match value {
            WzValue::Object(obj) => self.write_property(obj),
            WzValue::Link(link) => {
                self.write_type(OBJ_TYPE_UOL.as_slice());
                self.out.push(0u8);
                let ghost mid = self.out@;
                self.write_str(0, link.as_str())?;
                assert(self.out@ =~= before + spec_value_bytes(c, *value, olen(*value) + 1));
                Ok(())
            },
            WzValue::Vec(v) => {
                self.write_type(OBJ_TYPE_VEC2.as_slice());
                self.write_vector(v);
                assert(self.out@ =~= before + spec_value_bytes(c, *value, olen(*value) + 1));
                Ok(())
            },
            WzValue::Convex(vex) => {
                let n = vex.0.len();
                if n > 0x7FFF_FFFF {
                    return Err(WzError::new(WzErrorKind::Unsupported, self.out.len()));
                }
                self.write_type(OBJ_TYPE_CONVEX2D.as_slice());
                WzInt(n as i32).write(&mut self.out);
                let ghost base = self.out@;
                let mut i: usize = 0;
                while i < n
                    invariant
                        self.wf(),
                        self.crypto == c,
                        n == vex.0@.len(),
                        i <= n,
                        self.out@ == base + points_bytes(c, vex.0@.take(i as int)),
                    decreases n - i,
                {
                    self.write_type(OBJ_TYPE_VEC2.as_slice());
                    self.write_vector(&vex.0[i]);
                    assert(vex.0@.take(i + 1).drop_last() == vex.0@.take(i as int));
                    assert(self.out@ =~= base + points_bytes(c, vex.0@.take(i + 1)));
                    i = i + 1;
                }
                assert(vex.0@.take(n as int) == vex.0@);
                assert(self.out@ =~= before + spec_value_bytes(c, *value, olen(*value) + 1));
                Ok(())
            },
            WzValue::String(s) => self.write_str_value(s),
            WzValue::Canvas(_) | WzValue::Sound(_) => Err(
                WzError::new(WzErrorKind::Unsupported, self.out.len()),
            ),
            _ => {
                self.write_scalar(value);
                Ok(())
            },
        }
    }

    /// Writes a value: an object kind as an object, a string or scalar as a tagged property
    /// value. It succeeds exactly when the value is writable, and then appends its bytes.
    pub fn write_value(&mut self, value: &WzValue) -> (r: Result<(), WzError>)
        requires
            old(self).wf(),
        ensures
            final(self).wf(),
            r is Err ==> r->Err_0.kind == WzErrorKind::Unsupported,
            r is Ok <==> spec_writable(old(self).spec_crypto(), *value, olen(*value) + 1),
            r is Ok ==> final(self).spec_out() == old(self).spec_out() + spec_value_bytes(
                old(self).spec_crypto(),
                *value,
                olen(*value) + 1,
            ),
    {
        self.write_object(value)
    }
}

pub open spec fn is_scalar(v: WzValue) -> bool {
    match v {
        WzValue::Null | WzValue::Short(_) | WzValue::Int(_) | WzValue::Long(_) | WzValue::F32(_)
        | WzValue::F64(_) => true,
        _ => false,
    }
}

/// The tagged property value of a scalar.
pub open spec fn spec_scalar_bytes(v: WzValue) -> Seq<u8> {
    match v {
        WzValue::Null => seq![0u8],
        WzValue::Short(x) => seq![2u8] + u16_bytes(unsigned32(x as i32) as u16),
        WzValue::Int(x) => seq![3u8] + spec_wz_int_bytes(x),
        WzValue::Long(x) => seq![20u8] + spec_wz_long_bytes(x),
        WzValue::F32(bits) => seq![4u8] + spec_wz_int_bytes(crate::bytes::signed32(bits)),
        WzValue::F64(bits) => seq![5u8] + u64_bytes(bits),
        _ => Seq::empty(),
    }
}

} // verus!
