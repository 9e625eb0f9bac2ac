use vstd::prelude::*;
use crate::error::{WzError, WzErrorKind};
use crate::file::WzImgReader;
use crate::l1::{
    spec_data_size, SoundFormat, SoundHeader, WzCanvas, WzObject, WzPosValue, WzPropValue,
    WzProperty, WzSound, WzVector2D,
};
use crate::util::spec_split;

verus! {

#[derive(Debug, Clone, Copy, PartialEq, Eq, Structural)]
pub struct Vec2Val {
    pub x: i32,
    pub y: i32,
}

impl Vec2Val {
    pub fn new(x: i32, y: i32) -> (r: Vec2Val)
        ensures
            r.x == x && r.y == y,
    {
        Vec2Val { x, y }
    }

    pub fn from_vector(v: WzVector2D) -> (r: Vec2Val)
        ensures
            r.x == v.x.0 && r.y == v.y.0,
    {
        Vec2Val { x: v.x.0, y: v.y.0 }
    }
}

#[derive(Debug, Clone)]
pub struct Vex2Val(pub Vec<Vec2Val>);

/// A canvas value: its header and its optional property, lifted to a value.
#[derive(Debug)]
pub struct CanvasVal {
    pub canvas: WzCanvas,
    pub sub: Option<Box<WzValue>>,
}

/// A sound value: its header; the payload is read through the image reader.
#[derive(Debug)]
pub struct SoundVal {
    pub sound: WzSound,
}

/// The entries of an object in insertion order; a key stands at most once.
#[derive(Debug)]
pub struct ObjectVal(pub Vec<(String, WzValue)>);

/// A uniform tree of values. Floats are kept as their bit patterns.
#[derive(Debug)]
pub enum WzValue {
    Object(ObjectVal),
    Null,
    F32(u32),
    F64(u64),
    Short(i16),
    Int(i32),
    Long(i64),
    String(String),
    Vec(Vec2Val),
    Convex(Vex2Val),
    Sound(SoundVal),
    Canvas(CanvasVal),
    Link(String),
}

/// The index of the first entry with the given key.
pub open spec fn spec_key_index(es: Seq<(String, WzValue)>, k: Seq<char>) -> Option<int>
    decreases es.len(),
{
    if es.len() == 0 {
        None
    } else if es[0].0@ == k {
        Some(0)
    } else {
        match spec_key_index(es.drop_first(), k) {
            Some(i) => Some(i + 1),
            None => None,
        }
    }
}

/// Keys are unique.
pub open spec fn keys_unique(es: Seq<(String, WzValue)>) -> bool {
    forall|i: int, j: int| 0 <= i < j < es.len() ==> es[i].0@ != es[j].0@
}

/// The value under a key.
pub open spec fn spec_obj_get(es: Seq<(String, WzValue)>, k: Seq<char>) -> Option<WzValue> {
    match spec_key_index(es, k) {
        Some(i) => Some(es[i].1),
        None => None,
    }
}

proof fn lemma_key_index_at(es: Seq<(String, WzValue)>, k: Seq<char>, i: int)
    requires
        0 <= i < es.len(),
        es[i].0@ == k,
        forall|j: int| 0 <= j < i ==> es[j].0@ != k,
    ensures
        spec_key_index(es, k) == Some(i),
    decreases i,
{
    if i > 0 {
        lemma_key_index_at(es.drop_first(), k, i - 1);
    }
}

proof fn lemma_key_index_none(es: Seq<(String, WzValue)>, k: Seq<char>)
    requires
        forall|j: int| 0 <= j < es.len() ==> es[j].0@ != k,
    ensures
        spec_key_index(es, k) is None,
    decreases es.len(),
{
    if es.len() > 0 {
        lemma_key_index_none(es.drop_first(), k);
    }
}

fn key_position(es: &Vec<(String, WzValue)>, k: &String) -> (r: Option<usize>)
    ensures
        match r {
            Some(i) => i < es@.len() && spec_key_index(es@, k@) == Some(i as int),
            None => spec_key_index(es@, k@) is None,
        },
{
    let mut i: usize = 0;
    while i < es.len()
        invariant
            i <= es@.len(),
            forall|j: int| 0 <= j < i ==> es@[j].0@ != k@,
        decreases es@.len() - i,
    {
        if es[i].0 == *k {
            proof {
                lemma_key_index_at(es@, k@, i as int);
            }
            return Some(i);
        }
        i = i + 1;
    }
    proof {
        lemma_key_index_none(es@, k@);
    }
    None
}

impl ObjectVal {
    pub fn new() -> (r: ObjectVal)
        ensures
            r.0@.len() == 0,
    {
        ObjectVal(Vec::new())
    }

    pub fn get(&self, index: &str) -> (r: Option<&WzValue>)
        ensures
            match r {
                Some(v) => spec_obj_get(self.0@, index@) == Some(*v),
                None => spec_obj_get(self.0@, index@) is None,
            },
    {
        let k = String::from_str(index);
        match key_position(&self.0, &k) {
            Some(i) => Some(&self.0[i].1),
            None => None,
        }
    }

    pub fn must_get(&self, index: &str) -> (r: Result<&WzValue, WzError>)
        ensures
            match r {
                Ok(v) => spec_obj_get(self.0@, index@) == Some(*v),
                Err(e) => spec_obj_get(self.0@, index@) is None && e.kind == WzErrorKind::NotFound,
            },
    {
        match self.get(index) {
            Some(v) => Ok(v),
            None => Err(WzError::new(WzErrorKind::NotFound, 0)),
        }
    }

    /// Sets the value under `key`: in place where the key is present, else at the end.
    pub fn insert(&mut self, key: String, value: WzValue)
        requires
            keys_unique(old(self).0@),
        ensures
            keys_unique(final(self).0@),
            match spec_key_index(old(self).0@, key@) {
                Some(i) => final(self).0@.len() == old(self).0@.len() && final(self).0@[i].1
                    == value && final(self).0@[i].0@ == key@ && forall|j: int|
                    0 <= j < old(self).0@.len() && j != i ==> final(self).0@[j] == old(self).0@[j],
                None => final(self).0@.len() == old(self).0@.len() + 1 && final(self).0@.last().0@
                    == key@ && final(self).0@.last().1 == value && forall|j: int|
                    0 <= j < old(self).0@.len() ==> final(self).0@[j] == old(self).0@[j],
            },
    {
        match key_position(&self.0, &key) {
            Some(i) => {
                self.0.set(i, (key, value));
                proof {
                    assert forall|a: int, b: int|
                        0 <= a < b < final(self).0@.len() implies final(self).0@[a].0@ != final(self).0@[b].0@ by {
                        assert(old(self).0@[i as int].0@ == key@) by {
                            lemma_key_index_shape(old(self).0@, key@);
                        }
                    }
                }
            },
            None => {
                proof {
                    lemma_key_index_none_all(old(self).0@, key@);
                }
                self.0.push((key, value));
            },
        }
    }
}

proof fn lemma_key_index_shape(es: Seq<(String, WzValue)>, k: Seq<char>)
    ensures
        match spec_key_index(es, k) {
            Some(i) => 0 <= i < es.len() && es[i].0@ == k,
            None => true,
        },
    decreases es.len(),
{
    if es.len() > 0 && es[0].0@ != k {
        lemma_key_index_shape(es.drop_first(), k);
    }
}

proof fn lemma_key_index_none_all(es: Seq<(String, WzValue)>, k: Seq<char>)
    requires
        spec_key_index(es, k) is None,
    ensures
        forall|j: int| 0 <= j < es.len() ==> es[j].0@ != k,
    decreases es.len(),
{
    if es.len() > 0 {
        lemma_key_index_none_all(es.drop_first(), k);
        assert forall|j: int| 0 <= j < es.len() implies es[j].0@ != k by {
            if j > 0 {
                assert(es[j] == es.drop_first()[j - 1]);
            }
        }
    }
}

/// One step of a path: into an object, or into the object a canvas carries.
pub open spec fn spec_value_step(v: WzValue, k: Seq<char>) -> Option<WzValue> {
    match v {
        WzValue::Object(o) => spec_obj_get(o.0@, k),
        WzValue::Canvas(c) => match c.sub {
            Some(b) => match *b {
                WzValue::Object(o) => spec_obj_get(o.0@, k),
                _ => None,
            },
            None => None,
        },
        _ => None,
    }
}

/// The value reached by following the keys in turn.
pub open spec fn spec_value_path(v: WzValue, parts: Seq<Seq<char>>) -> Option<WzValue>
    decreases parts.len(),
{
    if parts.len() == 0 {
        Some(v)
    } else {
        match spec_value_path(v, parts.drop_last()) {
            Some(c) => spec_value_step(c, parts.last()),
            None => None,
        }
    }
}

proof fn lemma_value_path_none_grows(v: WzValue, ps: Seq<Seq<char>>, k: nat)
    requires
        k <= ps.len(),
        spec_value_path(v, ps.take(k as int)) is None,
    ensures
        spec_value_path(v, ps) is None,
    decreases ps.len() - k,
{
    if k < ps.len() {
        assert(ps.take((k + 1) as int).drop_last() == ps.take(k as int));
        lemma_value_path_none_grows(v, ps, k + 1);
    } else {
        assert(ps.take(k as int) == ps);
    }
}

impl WzValue {
    /// Follows a `/`-separated path of keys through objects and the objects canvases carry.
    pub fn get_path(&self, path: &str) -> (r: Option<&WzValue>)
        ensures
            match r {
                Some(v) => spec_value_path(*self, spec_split(path@)) == Some(*v),
                None => spec_value_path(*self, spec_split(path@)) is None,
            },
    {
        let parts = crate::util::split_path(path);
        let ghost ps = spec_split(path@);
        let mut cur = self;
        let mut i: usize = 0;
        while i < parts.len()
            invariant
                i <= parts@.len(),
                parts@.map_values(|p: String| p@) == ps,
                ps == spec_split(path@),
                spec_value_path(*self, ps.take(i as int)) == Some(*cur),
            decreases parts@.len() - i,
        {
            assert(ps.take(i + 1).drop_last() == ps.take(i as int));
            assert(ps.take(i + 1).last() == parts@[i as int]@);
            assert(spec_value_path(*self, ps.take(i + 1)) == spec_value_step(*cur, parts@[i as int]@));
            let obj: &ObjectVal = match cur {
                WzValue::Object(v) => v,
                WzValue::Canvas(c) => match &c.sub {
                    Some(b) => match &**b {
                        WzValue::Object(v) => v,
                        _ => {
                            proof {
                                lemma_value_path_none_grows(*self, ps, (i + 1) as nat);
                            }
                            return None;
                        },
                    },
                    None => {
                        proof {
                            lemma_value_path_none_grows(*self, ps, (i + 1) as nat);
                        }
                        return None;
                    },
                },
                _ => {
                    proof {
                        lemma_value_path_none_grows(*self, ps, (i + 1) as nat);
                    }
                    return None;
                },
            };
            match obj.get(parts[i].as_str()) {
                Some(v) => {
                    cur = v;
                },
                None => {
                    proof {
                        lemma_value_path_none_grows(*self, ps, (i + 1) as nat);
                    }
                    return None;
                },
            }
            i = i + 1;
        }
        assert(ps.take(ps.len() as int) == ps);
        Some(cur)
    }

    pub fn as_object(&self) -> (r: Option<&ObjectVal>)
        ensures
            match *self {
                WzValue::Object(v) => r == Some(&v),
                _ => r is None,
            },
    {
        match self {
            WzValue::Object(v) => Some(v),
            _ => None,
        }
    }

    pub fn as_i16(&self) -> (r: Option<i16>)
        ensures
            match *self {
                WzValue::Short(v) => r == Some(v),
                _ => r is None,
            },
    {
        match self {
            WzValue::Short(v) => Some(*v),
            _ => None,
        }
    }

    pub fn as_i32(&self) -> (r: Option<i32>)
        ensures
            match *self {
                WzValue::Int(v) => r == Some(v),
                _ => r is None,
            },
    {
        match self {
            WzValue::Int(v) => Some(*v),
            _ => None,
        }
    }

    /// An int read as unsigned: its two's complement word.
    pub fn as_u32(&self) -> (r: Option<u32>)
        ensures
            match *self {
                WzValue::Int(v) => r == Some(crate::bytes::unsigned32(v)),
                _ => r is None,
            },
    {
        match self {
            WzValue::Int(v) => Some(crate::bytes::to_unsigned32(*v)),
            _ => None,
        }
    }

    pub fn as_i64(&self) -> (r: Option<i64>)
        ensures
            match *self {
                WzValue::Long(v) => r == Some(v),
                _ => r is None,
            },
    {
        match self {
            WzValue::Long(v) => Some(*v),
            _ => None,
        }
    }

    /// The bits of a 32-bit float.
    pub fn as_f32_bits(&self) -> (r: Option<u32>)
        ensures
            match *self {
                WzValue::F32(v) => r == Some(v),
                _ => r is None,
            },
    {
        match self {
            WzValue::F32(v) => Some(*v),
            _ => None,
        }
    }

    /// The bits of a 64-bit float.
    pub fn as_f64_bits(&self) -> (r: Option<u64>)
        ensures
            match *self {
                WzValue::F64(v) => r == Some(v),
                _ => r is None,
            },
    {
        match self {
            WzValue::F64(v) => Some(*v),
            _ => None,
        }
    }

    pub fn as_string(&self) -> (r: Option<&str>)
        ensures
            match *self {
                WzValue::String(v) => r is Some && r->0@ == v@,
                _ => r is None,
            },
    {
        match self {
            WzValue::String(v) => Some(v.as_str()),
            _ => None,
        }
    }

    pub fn as_vec(&self) -> (r: Option<&Vec2Val>)
        ensures
            match *self {
                WzValue::Vec(v) => r == Some(&v),
                _ => r is None,
            },
    {
        match self {
            WzValue::Vec(v) => Some(v),
            _ => None,
        }
    }

    pub fn as_convex(&self) -> (r: Option<&Vex2Val>)
        ensures
            match *self {
                WzValue::Convex(v) => match r {
                    Some(x) => x.0@ == v.0@,
                    None => false,
                },
                _ => r is None,
            },
    {
        match self {
            WzValue::Convex(v) => Some(v),
            _ => None,
        }
    }

    pub fn as_sound(&self) -> (r: Option<&SoundVal>)
        ensures
            match *self {
                WzValue::Sound(v) => r is Some,
                _ => r is None,
            },
    {
        match self {
            WzValue::Sound(v) => Some(v),
            _ => None,
        }
    }

    pub fn as_canvas(&self) -> (r: Option<&CanvasVal>)
        ensures
            match *self {
                WzValue::Canvas(v) => r is Some,
                _ => r is None,
            },
    {
        match self {
            WzValue::Canvas(v) => Some(v),
            _ => None,
        }
    }

    /// An int as a flag: anything but zero is true.
    pub fn as_bool(&self) -> (r: Option<bool>)
        ensures
            match *self {
                WzValue::Int(v) => r == Some(v != 0),
                _ => r is None,
            },
    {
        match self {
            WzValue::Int(v) => Some(*v != 0),
            _ => None,
        }
    }
}

} // verus!

verus! {

pub(crate) fn copy_canvas_header(c: &WzCanvas) -> (r: WzCanvas)
    ensures
        r.property is None,
        r.unknown == c.unknown && r.has_property == c.has_property,
        r.width == c.width && r.height == c.height && r.depth == c.depth && r.scale == c.scale,
        r.unknown1 == c.unknown1 && r.len.val == c.len.val && r.len.pos == c.len.pos,
{
    WzCanvas {
        unknown: c.unknown,
        has_property: c.has_property,
        property: None,
        width: c.width,
        height: c.height,
        depth: c.depth,
        scale: c.scale,
        unknown1: c.unknown1,
        len: WzPosValue { val: c.len.val, pos: c.len.pos },
    }
}

fn copy_sound(s: &WzSound) -> (r: WzSound)
    ensures
        r.size == s.size && r.len_ms == s.len_ms && r.offset.pos == s.offset.pos,
        r.header.fmt is Pcm <==> s.header.fmt is Pcm,
        spec_data_size(r) == spec_data_size(*s),
{
    let fmt = match &s.header.fmt {
        SoundFormat::Mpeg1(b) => SoundFormat::Mpeg1(b.clone()),
        SoundFormat::Mpeg3(h) => SoundFormat::Mpeg3(*h),
        SoundFormat::Pcm(h) => SoundFormat::Pcm(*h),
    };
    WzSound {
        unknown: s.unknown,
        size: s.size,
        len_ms: s.len_ms,
        header: SoundHeader { media_header: s.header.media_header, fmt },
        offset: WzPosValue { val: (), pos: s.offset.pos },
    }
}

/// The value kind an object lifts to, and what carries over unchanged.
pub open spec fn lifts_to(o: WzObject, v: WzValue) -> bool {
    match o {
        WzObject::Property(p) => match v {
            WzValue::Object(ov) => keys_unique(ov.0@),
            _ => false,
        },
        WzObject::Canvas(c) => match v {
            WzValue::Canvas(cv) => (cv.sub is Some <==> c.property is Some) && cv.canvas.width
                == c.width && cv.canvas.height == c.height && cv.canvas.depth == c.depth
                && cv.canvas.scale == c.scale && cv.canvas.len.pos == c.len.pos
                && cv.canvas.len.val == c.len.val,
            _ => false,
        },
        WzObject::UOL(u) => match v {
            WzValue::Link(s) => s@ == u.entries.0.0@,
            _ => false,
        },
        WzObject::Vec2(p) => v == WzValue::Vec((Vec2Val { x: p.x.0, y: p.y.0 })),
        WzObject::Convex2D(c) => match v {
            WzValue::Convex(vx) => vx.0@.len() == c.0@.len() && forall|i: int|
                0 <= i < c.0@.len() ==> vx.0@[i] == (Vec2Val { x: c.0@[i].x.0, y: c.0@[i].y.0 }),
            _ => false,
        },
        WzObject::SoundDX8(s) => match v {
            WzValue::Sound(sv) => sv.sound.offset.pos == s.offset.pos && sv.sound.size == s.size
                && sv.sound.len_ms == s.len_ms,
            _ => false,
        },
    }
}

/// The value a property value lifts to.
pub open spec fn val_lifts_to(p: WzPropValue, v: WzValue) -> bool {
    match p {
        WzPropValue::Null => v is Null,
        WzPropValue::Short1(x) => v == WzValue::Short(x),
        WzPropValue::Short2(x) => v == WzValue::Short(x),
        WzPropValue::Int1(x) => v == WzValue::Int(x.0),
        WzPropValue::Int2(x) => v == WzValue::Int(x.0),
        WzPropValue::Long(x) => v == WzValue::Long(x.0),
        WzPropValue::F32(x) => v == WzValue::F32(x.0),
        WzPropValue::F64(x) => v == WzValue::F64(x),
        WzPropValue::Str(s) => match v {
            WzValue::String(t) => t@ == s.0.0@,
            _ => false,
        },
        WzPropValue::Obj(o) => lifts_to(*o.obj, v),
    }
}

fn lift_obj(obj: &WzObject) -> (r: WzValue)
    ensures
        lifts_to(*obj, r),
    decreases obj,
{
    match obj {
        WzObject::Property(prop) => lift_prop(prop),
        WzObject::Canvas(canvas) => {
            let sub = match &canvas.property {
                Some(prop) => Some(Box::new(lift_prop(prop))),
                None => None,
            };
            WzValue::Canvas(CanvasVal { canvas: copy_canvas_header(canvas), sub })
        },
        WzObject::UOL(link) => WzValue::Link(link.entries.0.0.clone()),
        WzObject::Vec2(v) => WzValue::Vec(Vec2Val::from_vector(*v)),
        WzObject::Convex2D(vex) => {
            let mut pts: Vec<Vec2Val> = Vec::new();
            let mut i: usize = 0;
            while i < vex.0.len()
                invariant
                    i <= vex.0@.len(),
                    pts@.len() == i,
                    forall|j: int|
                        0 <= j < i ==> pts@[j] == (Vec2Val { x: vex.0@[j].x.0, y: vex.0@[j].y.0 }),
                decreases vex.0@.len() - i,
            {
                pts.push(Vec2Val::from_vector(vex.0[i]));
                i = i + 1;
            }
            WzValue::Convex(Vex2Val(pts))
        },
        WzObject::SoundDX8(sound) => WzValue::Sound(SoundVal { sound: copy_sound(sound) }),
    }
}

fn lift_prop(prop: &WzProperty) -> (r: WzValue)
    ensures
        match r {
            WzValue::Object(ov) => keys_unique(ov.0@),
            _ => false,
        },
    decreases prop,
{
    let mut map = ObjectVal::new();
    let mut i: usize = 0;
    while i < prop.entries.0.len()
        invariant
            i <= prop.entries.0@.len(),
            keys_unique(map.0@),
        decreases prop.entries.0@.len() - i,
    {
        proof {
            vstd::std_specs::vec::axiom_vec_index_decreases(prop.entries.0, i as int);
        }
        let v = lift_val(&prop.entries.0[i].val);
        map.insert(prop.entries.0[i].name.0.0.clone(), v);
        i = i + 1;
    }
    WzValue::Object(map)
}

fn lift_val(val: &WzPropValue) -> (r: WzValue)
    ensures
        val_lifts_to(*val, r),
    decreases val,
{
    match val {
        WzPropValue::Null => WzValue::Null,
        WzPropValue::Short1(v) => WzValue::Short(*v),
        WzPropValue::Short2(v) => WzValue::Short(*v),
        WzPropValue::Int1(v) => WzValue::Int(v.0),
        WzPropValue::Int2(v) => WzValue::Int(v.0),
        WzPropValue::Long(v) => WzValue::Long(v.0),
        WzPropValue::F32(v) => WzValue::F32(v.0),
        WzPropValue::F64(v) => WzValue::F64(*v),
        WzPropValue::Str(v) => WzValue::String(v.0.0.clone()),
        WzPropValue::Obj(v) => lift_obj(&v.obj),
    }
}

/// Which kind of object a value was lifted from, numbered as the object kinds are.
pub open spec fn value_kind(v: WzValue) -> Option<int> {
    match v {
        WzValue::Object(_) => Some(0),
        WzValue::Canvas(_) => Some(1),
        WzValue::Link(_) => Some(2),
        WzValue::Vec(_) => Some(3),
        WzValue::Convex(_) => Some(4),
        WzValue::Sound(_) => Some(5),
        _ => None,
    }
}

impl WzValue {
    /// Reads the image's root object and lifts it to a value tree; the value is of the kind
    /// that the root's type string names.
    pub fn read(r: &mut WzImgReader) -> (res: Result<WzValue, WzError>)
        requires
            old(r).wf(),
        ensures
            final(r).wf(),
            final(r).spec_data() == old(r).spec_data(),
            match res {
                Ok(v) => match crate::l1_read::spec_read_interned(
                    old(r).spec_crypto(),
                    old(r).spec_data(),
                    0,
                    old(r).spec_str_table(),
                    0x73,
                    0x1B,
                ) {
                    Some((name, _)) => crate::l1_read::spec_object_kind(name) == value_kind(v),
                    None => false,
                },
                Err(_) => true,
            },
    {
        let obj = r.read_root_obj()?;
        let v = Self::read_obj(&obj);
        assert(value_kind(v) == Some(crate::l1_read::object_kind(obj)));
        Ok(v)
    }

    /// Lifts an object: a property to an object value, a canvas with its property, a link
    /// to its path, vectors and polygons to their points, a sound to its header.
    pub fn read_obj(obj: &WzObject) -> (r: WzValue)
        ensures
            lifts_to(*obj, r),
    {
        lift_obj(obj)
    }
}

impl SoundVal {
    /// The payload bytes of this sound.
    pub fn read_data(&self, r: &WzImgReader) -> (res: Result<Vec<u8>, WzError>)
        ensures
            match res {
                Ok(v) => v@ == r.spec_data().subrange(
                    self.sound.offset.pos as int,
                    self.sound.offset.pos + spec_data_size(self.sound),
                ),
                Err(e) => e.kind == WzErrorKind::IO,
            },
    {
        r.read_sound(&self.sound)
    }

    /// The play time in milliseconds.
    pub fn duration_ms(&self) -> (r: i32)
        ensures
            r == self.sound.len_ms.0,
    {
        self.sound.len_ms.0
    }
}

impl CanvasVal {
    /// Unpacks this canvas's bitmap.
    pub fn read_canvas(&self, r: &WzImgReader) -> (res: Result<crate::canvas::Canvas, WzError>)
        requires
            r.wf(),
            self.canvas.wf(),
    {
        r.read_canvas(&self.canvas)
    }
}

} // verus!
