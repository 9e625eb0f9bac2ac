use vstd::prelude::*;
use crate::canvas::Canvas;
use crate::error::{WzError, WzErrorKind};
use crate::file::WzImgReader;
use crate::l1::WzCanvas;
use crate::val::{ObjectVal, Vec2Val, WzValue};

verus! {

/// The value of a string of ASCII digits.
pub open spec fn decimal_value(s: Seq<char>) -> int
    decreases s.len(),
{
    if s.len() == 0 {
        0
    } else {
        decimal_value(s.drop_last()) * 10 + (s.last() as u32 - 48)
    }
}

pub open spec fn all_digits(s: Seq<char>) -> bool {
    forall|i: int| 0 <= i < s.len() ==> '0' <= #[trigger] s[i] <= '9'
}

/// What `usize`'s `FromStr` accepts: an optional `+`, then one or more ASCII digits whose
/// value fits.
pub open spec fn is_index(s: Seq<char>) -> bool {
    let body = if s.len() > 0 && s[0] == '+' {
        s.drop_first()
    } else {
        s
    };
    body.len() > 0 && all_digits(body) && decimal_value(body) <= usize::MAX
}

/// Whether the text parses as a `usize`.
fn parses_as_index(s: &str) -> (r: bool)
    ensures
        r == is_index(s@),
{
    let cs = crate::text::chars_of(s);
    let start: usize = if cs.len() > 0 && cs[0] == '+' {
        1
    } else {
        0
    };
    let ghost body = if cs@.len() > 0 && cs@[0] == '+' {
        cs@.drop_first()
    } else {
        cs@
    };
    assert(body =~= cs@.subrange(start as int, cs@.len() as int));
    if start >= cs.len() {
        return false;
    }
    let mut acc: usize = 0;
    let mut i: usize = start;
    while i < cs.len()
        invariant
            start <= i <= cs@.len(),
            cs@ == s@,
            body == (if s@.len() > 0 && s@[0] == '+' {
                s@.drop_first()
            } else {
                s@
            }),
            body == cs@.subrange(start as int, cs@.len() as int),
            all_digits(cs@.subrange(start as int, i as int)),
            acc == decimal_value(cs@.subrange(start as int, i as int)),
        decreases cs@.len() - i,
    {
        let ch = cs[i];
        assert(cs@.subrange(start as int, i + 1).drop_last() == cs@.subrange(start as int, i as int));
        if !('0' <= ch && ch <= '9') {
            assert(body[i - start] == ch);
            assert(!all_digits(body));
            return false;
        }
        let d = (ch as u32 - 48) as usize;
        if acc > (usize::MAX - d) / 10 {
            proof {
                let m = usize::MAX as int;
                assert(acc as int * 10 + d as int > m) by (nonlinear_arith)
                    requires
                        acc as int > (m - d as int) / 10,
                        0 <= d as int <= 9,
                        m >= 9,
                ;
                assert(body.take((i + 1 - start) as int) == cs@.subrange(start as int, i + 1));
                if all_digits(body) {
                    lemma_decimal_grows(body, (i + 1 - start) as nat);
                }
            }
            return false;
        }
        acc = acc * 10 + d;
        i = i + 1;
    }
    assert(cs@.subrange(start as int, cs@.len() as int) == body);
    true
}

proof fn lemma_decimal_grows(s: Seq<char>, k: nat)
    requires
        k <= s.len(),
        all_digits(s),
    ensures
        decimal_value(s.take(k as int)) <= decimal_value(s),
        decimal_value(s.take(k as int)) >= 0,
    decreases s.len() - k,
{
    if k < s.len() {
        lemma_decimal_grows(s, k + 1);
        assert(s.take((k + 1) as int).drop_last() == s.take(k as int));
        lemma_decimal_nonneg(s.take(k as int));
    } else {
        assert(s.take(k as int) == s);
        lemma_decimal_nonneg(s);
    }
}

proof fn lemma_decimal_nonneg(s: Seq<char>)
    requires
        all_digits(s),
    ensures
        decimal_value(s) >= 0,
    decreases s.len(),
{
    if s.len() > 0 {
        lemma_decimal_nonneg(s.drop_last());
    }
}

/// One frame: the canvas, and the origin and delay its property gives.
#[derive(Debug)]
pub struct AnimationFrame {
    pub offset: Option<Vec2Val>,
    pub delay_ms: Option<u64>,
    pub canvas: WzCanvas,
}

/// The frames of an animation and the size that holds each of them.
#[derive(Debug)]
pub struct Animation {
    pub frames: Vec<AnimationFrame>,
    pub dim: (u32, u32),
}

pub open spec fn max_width(fs: Seq<AnimationFrame>) -> u32
    decreases fs.len(),
{
    if fs.len() == 0 {
        0
    } else {
        let m = max_width(fs.drop_last());
        let w = fs.last().canvas.width.0 as u32;
        if w > m {
            w
        } else {
            m
        }
    }
}

pub open spec fn max_height(fs: Seq<AnimationFrame>) -> u32
    decreases fs.len(),
{
    if fs.len() == 0 {
        0
    } else {
        let m = max_height(fs.drop_last());
        let h = fs.last().canvas.height.0 as u32;
        if h > m {
            h
        } else {
            m
        }
    }
}

impl Animation {
    /// The animation of these frames, sized to the widest and the tallest.
    pub fn from_frames(frames: Vec<AnimationFrame>) -> (r: Animation)
        ensures
            r.frames@ == frames@,
            r.dim == (max_width(frames@), max_height(frames@)),
    {
        let mut dim_w: u32 = 0;
        let mut dim_h: u32 = 0;
        let mut i: usize = 0;
        while i < frames.len()
            invariant
                i <= frames@.len(),
                dim_w == max_width(frames@.take(i as int)),
                dim_h == max_height(frames@.take(i as int)),
            decreases frames@.len() - i,
        {
            assert(frames@.take(i + 1).drop_last() == frames@.take(i as int));
            let w = frames[i].canvas.width();
            let h = frames[i].canvas.height();
            if w > dim_w {
                dim_w = w;
            }
            if h > dim_h {
                dim_h = h;
            }
            i = i + 1;
        }
        assert(frames@.take(frames@.len() as int) == frames@);
        Animation { frames, dim: (dim_w, dim_h) }
    }

    /// The frames stored under numeric keys, in key order of the object. Each must be a
    /// canvas; its property may give a `delay` in milliseconds and an `origin`.
    pub fn from_obj_value(obj_val: &ObjectVal) -> (r: Result<Animation, WzError>)
        ensures
            match r {
                Ok(a) => a.frames@.len() > 0 && a.dim == (max_width(a.frames@), max_height(
                    a.frames@,
                )),
                Err(e) => e.kind == WzErrorKind::BadTag || e.kind == WzErrorKind::NotFound,
            },
    {
        let mut frames: Vec<AnimationFrame> = Vec::new();
        let mut i: usize = 0;
        while i < obj_val.0.len()
            invariant
                i <= obj_val.0@.len(),
            decreases obj_val.0@.len() - i,
        {
            let key = obj_val.0[i].0.as_str();
            if parses_as_index(key) {
                let frame = match &obj_val.0[i].1 {
                    WzValue::Canvas(c) => c,
                    _ => {
                        return Err(WzError::new(WzErrorKind::BadTag, i));
                    },
                };
                let mut delay: Option<u64> = None;
                let mut origin: Option<Vec2Val> = None;
                match &frame.sub {
                    Some(sub) => match &**sub {
                        WzValue::Object(o) => {
                            delay = match o.get("delay") {
                                Some(WzValue::Int(v)) => Some(#[verifier::truncate] (*v as u64)),
                                _ => None,
                            };
                            origin = match o.get("origin") {
                                Some(WzValue::Vec(v)) => Some(*v),
                                _ => None,
                            };
                        },
                        _ => {},
                    },
                    None => {},
                }
                frames.push(
                    AnimationFrame { offset: origin, delay_ms: delay, canvas: crate::val::copy_canvas_header(&frame.canvas) },
                );
            }
            i = i + 1;
        }
        if frames.len() == 0 {
            return Err(WzError::new(WzErrorKind::NotFound, 0));
        }
        Ok(Self::from_frames(frames))
    }

    /// Unpacks the bitmap of every frame.
    pub fn load_all_frames(&self, r: &WzImgReader) -> (res: Result<Vec<Canvas>, WzError>)
        requires
            r.wf(),
            forall|i: int| 0 <= i < self.frames@.len() ==> (#[trigger] self.frames@[i]).canvas.wf(),
        ensures
            match res {
                Ok(v) => v@.len() == self.frames@.len(),
                Err(_) => true,
            },
    {
        let mut v: Vec<Canvas> = Vec::new();
        let mut i: usize = 0;
        while i < self.frames.len()
            invariant
                r.wf(),
                forall|k: int| 0 <= k < self.frames@.len() ==> (#[trigger] self.frames@[k]).canvas.wf(),
                i <= self.frames@.len(),
                v@.len() == i,
            decreases self.frames@.len() - i,
        {
            let c = r.read_canvas(&self.frames[i].canvas)?;
            v.push(c);
            i = i + 1;
        }
        Ok(v)
    }

    pub fn len(&self) -> (r: usize)
        ensures
            r == self.frames@.len(),
    {
        self.frames.len()
    }

    pub fn is_empty(&self) -> (r: bool)
        ensures
            r == (self.frames@.len() == 0),
    {
        self.frames.len() == 0
    }

    pub fn get_canvas_frame(&self, frame: usize) -> (r: Option<&WzCanvas>)
        ensures
            match r {
                Some(c) => frame < self.frames@.len() && *c == self.frames@[frame as int].canvas,
                None => frame >= self.frames@.len(),
            },
    {
        if frame < self.frames.len() {
            Some(&self.frames[frame].canvas)
        } else {
            None
        }
    }

    pub fn dim(&self) -> (r: (u32, u32))
        ensures
            r == self.dim,
    {
        self.dim
    }
}

} // verus!
