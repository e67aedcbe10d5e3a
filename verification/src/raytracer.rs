use crate::color::Rgb8;
use crate::hit::all_miss;
use crate::hit::is_closest;
use crate::hit::is_shadowed;
use crate::pixels::put_pixel;
use crate::pixels::BufferModel;
use crate::pixels::RgbBuffer;
use vstd::prelude::*;

verus! {

/// Why a render leaves the buffer as it was.
#[derive(Clone, Copy, Debug, PartialEq, Eq, Structural)]
pub enum RenderError {
    /// The buffer's sides are not the renderer's.
    BufferSize,
    /// There is not one colour for each pixel.
    ColorCount,
}

/// What one step of tracing a ray comes to when the ray strikes something:
/// the object to shade, and the depth left to the rays that leave it.
#[derive(Clone, Copy, Debug, PartialEq, Eq, Structural)]
pub struct Bounce {
    pub object: usize,
    pub level: i32,
}

/// The renderer of an image of `width * height` pixels.
#[derive(Clone, Copy, Debug, PartialEq, Eq, Structural)]
pub struct Raytracer {
    pub width: i32,
    pub height: i32,
}

/// What tracing a ray at depth `level` comes to, given what each object
/// answered: nothing below depth zero or where every object is missed, else
/// the closest object, whose own rays have one level less.
pub open spec fn is_traced(level: int, candidates: Seq<Option<u32>>, r: Option<Bounce>) -> bool {
    match r {
        Some(bounce) => {
            &&& 0 <= level
            &&& is_closest(candidates, bounce.object as int)
            &&& bounce.level == level - 1
        },
        None => level < 0 || all_miss(candidates),
    }
}

/// How many objects, one after another, may still shade a ray of depth
/// `level` and the rays that follow from it.
pub open spec fn bounces_left(level: int) -> nat {
    if level < 0 {
        0
    } else {
        (level + 1) as nat
    }
}

impl Raytracer {
    /// The first reason, if any, for which `colors` cannot be rendered
    /// into `buf`.
    pub open spec fn render_fault(self, buf: BufferModel, colors: Seq<Rgb8>) -> Option<RenderError> {
        if buf.width != self.width || buf.height != self.height {
            Some(RenderError::BufferSize)
        } else if colors.len() != self.width * self.height {
            Some(RenderError::ColorCount)
        } else {
            None
        }
    }

    /// The buffer after a render: every pixel replaced by its colour, or the
    /// buffer as it was where the render is refused.
    pub open spec fn rendered(self, buf: BufferModel, colors: Seq<Rgb8>) -> BufferModel {
        if self.render_fault(buf, colors) is None {
            BufferModel { pixels: colors, ..buf }
        } else {
            buf
        }
    }

    /// A renderer for images of the given sides.
    pub fn new(width: i32, height: i32) -> (tracer: Raytracer)
        ensures
            tracer == (Raytracer { width, height }),
    {
        Raytracer { width, height }
    }

    /// The object that a ray strikes first: the index of the nearest hit
    /// among what each object answered, the first of them where several are
    /// equally near, or `None` where every object is missed.
    pub fn find_closest_collision(candidates: &Vec<Option<u32>>) -> (r: Option<usize>)
        ensures
            match r {
                Some(i) => is_closest(candidates@, i as int),
                None => all_miss(candidates@),
            },
    {
        let mut best: Option<usize> = None;
        let mut best_key: u32 = 0;
        let mut k: usize = 0;
        while k < candidates.len()
            invariant
                0 <= k <= candidates.len(),
                match best {
                    Some(i) => is_closest(candidates@.take(k as int), i as int) && best_key
                        == candidates@[i as int]->0,
                    None => all_miss(candidates@.take(k as int)),
                },
            decreases candidates.len() - k,
        {
            let ghost before = candidates@.take(k as int);
            let ghost after = candidates@.take(k as int + 1);
            assert(forall|n: int| 0 <= n < k ==> before[n] == after[n]);
            assert(after[k as int] == candidates@[k as int]);
            match candidates[k] {
                Some(key) => {
                    let nearer: bool = match best {
                        Some(_) => key < best_key,
                        None => true,
                    };
                    if nearer {
                        best = Some(k);
                        best_key = key;
                    }
                },
                None => {},
            }
            k = k + 1;
        }
        assert(candidates@.take(k as int) =~= candidates@);
        best
    }

    /// Whether a point lies in shadow, given what each object answered to
    /// the ray from the point towards the light and the key of the light's
    /// own distance: it does where some object is hit before the light is
    /// reached.
    pub fn in_shadow(candidates: &Vec<Option<u32>>, light: u32) -> (r: bool)
        ensures
            r == is_shadowed(candidates@, light),
    {
        match Raytracer::find_closest_collision(candidates) {
            Some(i) => {
                let nearest: u32 = match candidates[i] {
                    Some(key) => key,
                    None => light,
                };
                nearest < light
            },
            None => false,
        }
    }

    /// One step of tracing a ray at depth `level`: below depth zero, or
    /// where every object is missed, the ray adds nothing; else it is
    /// shaded by the closest object, and the rays that leave that object
    /// are traced one level lower.
    pub fn tracy_ray(level: i32, candidates: &Vec<Option<u32>>) -> (r: Option<Bounce>)
        ensures
            is_traced(level as int, candidates@, r),
    {
        if level < 0 {
            return None;
        }
        match Raytracer::find_closest_collision(candidates) {
            Some(object) => Some(Bounce { object, level: level - 1 }),
            None => None,
        }
    }

    /// Writes `colors`, one for each pixel, row by row from the top, into
    /// `imgbuf`. A buffer of other sides than the renderer's, or a wrong
    /// number of colours, is refused and the buffer left as it was.
    pub fn render(&self, imgbuf: &mut RgbBuffer, colors: &Vec<Rgb8>) -> (r: Result<
        (),
        RenderError,
    >)
        ensures
            r == match self.render_fault(old(imgbuf)@, colors@) {
                Some(e) => Err::<(), RenderError>(e),
                None => Ok(()),
            },
            final(imgbuf)@ == self.rendered(old(imgbuf)@, colors@),
    {
        let width: u32 = imgbuf.width();
        let height: u32 = imgbuf.height();
        if self.width < 0 || self.height < 0 || width != self.width as u32 || height
            != self.height as u32 {
            return Err(RenderError::BufferSize);
        }
        assert(width * height <= 0x7fff_ffff * 0x7fff_ffff) by (nonlinear_arith)
            requires
                0 <= width <= 0x7fff_ffff,
                0 <= height <= 0x7fff_ffff,
        ;
        let count: u64 = (width as u64) * (height as u64);
        if colors.len() as u64 != count {
            return Err(RenderError::ColorCount);
        }
        let mut y: u32 = 0;
        while y < height
            invariant
                0 <= y <= height,
                imgbuf@.width == width,
                imgbuf@.height == height,
                imgbuf@.pixels.len() == colors@.len(),
                colors@.len() == width * height <= usize::MAX,
                forall|k: int| 0 <= k < y * width ==> imgbuf@.pixels[k] == colors@[k],
            decreases height - y,
        {
            let mut x: u32 = 0;
            while x < width
                invariant
                    0 <= x <= width,
                    0 <= y < height,
                    imgbuf@.width == width,
                    imgbuf@.height == height,
                    imgbuf@.pixels.len() == colors@.len(),
                    colors@.len() == width * height <= usize::MAX,
                    forall|k: int| 0 <= k < y * width + x ==> imgbuf@.pixels[k] == colors@[k],
                decreases width - x,
            {
                assert(0 <= y * width && y * width + x < width * height) by (nonlinear_arith)
                    requires
                        0 <= x < width,
                        0 <= y < height,
                ;
                let k: usize = (y as usize) * (width as usize) + (x as usize);
                put_pixel(imgbuf, x, y, colors[k]);
                x = x + 1;
            }
            assert((y + 1) * width == y * width + width) by (nonlinear_arith);
            y = y + 1;
        }
        assert(height * width == width * height) by (nonlinear_arith);
        assert(imgbuf@.pixels =~= colors@);
        Ok(())
    }
}

/// Every bounce uses up one of the bounces left, and with none left a ray
/// adds nothing: a chain of rays that starts at depth `level` is shaded at
/// most `level + 1` times.
pub proof fn lemma_bounce_uses_depth(level: int, candidates: Seq<Option<u32>>, r: Option<Bounce>)
    requires
        is_traced(level, candidates, r),
    ensures
        r matches Some(bounce) ==> bounces_left(bounce.level as int) + 1 == bounces_left(level),
        bounces_left(level) == 0 ==> r is None,
{
}

/// Rendering the same colours again changes nothing: the image depends on
/// the colours alone, not on what the buffer held or on an earlier render.
pub proof fn lemma_render_idempotent(tracer: Raytracer, buf: BufferModel, colors: Seq<Rgb8>)
    ensures
        tracer.rendered(tracer.rendered(buf, colors), colors) == tracer.rendered(buf, colors),
{
}

/// Two buffers that both take a render of the same colours hold the same
/// image after it, whatever they held before.
pub proof fn lemma_render_forgets(
    tracer: Raytracer,
    first: BufferModel,
    second: BufferModel,
    colors: Seq<Rgb8>,
)
    requires
        tracer.render_fault(first, colors) is None,
        tracer.render_fault(second, colors) is None,
    ensures
        tracer.rendered(first, colors) == tracer.rendered(second, colors),
{
}

} // verus!
