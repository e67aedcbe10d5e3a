use crate::color::Rgb8;
use crate::decoded::channels_of;
use crate::decoded::decoded_bytes;
use crate::decoded::decoded_channels;
use crate::decoded::decoded_height;
use crate::decoded::decoded_width;
use crate::decoded::height_of;
use crate::decoded::into_bytes;
use crate::decoded::width_of;
use vstd::arithmetic::div_mod::lemma_fundamental_div_mod;
use vstd::arithmetic::div_mod::lemma_fundamental_div_mod_converse;
use vstd::arithmetic::div_mod::lemma_mod_add_multiples_vanish;
use vstd::arithmetic::div_mod::lemma_mod_bound;
use vstd::arithmetic::div_mod::lemma_small_mod;
use vstd::prelude::*;

verus! {

/// Why a pixel array cannot be taken as a texture.
#[derive(Clone, Copy, Debug, PartialEq, Eq, Structural)]
pub enum TextureError {
    /// A side is zero or exceeds `i32::MAX`.
    Dimensions,
    /// Fewer than three channels per texel.
    Channels,
    /// The byte count is not `width * height * channels`.
    Length,
}

/// The four texels that bilinear sampling blends: `c00` at the base index,
/// `c10` one column on, `c01` one row on, `c11` one of each.
#[derive(Clone, Copy, Debug, PartialEq, Eq, Structural)]
pub struct Footprint {
    pub c00: Rgb8,
    pub c10: Rgb8,
    pub c01: Rgb8,
    pub c11: Rgb8,
}

/// Edge-clamp addressing: an index below the range becomes its first index,
/// one beyond it the last.
pub open spec fn clamp_index(i: int, n: int) -> int {
    if i < 0 {
        0
    } else if i >= n {
        n - 1
    } else {
        i
    }
}

/// Wrap-around addressing: the true modulus, which lies in `0..n` for a
/// negative index too.
pub open spec fn wrap_index(i: int, n: int) -> int {
    i % n
}

/// What a texture is: its sides, the channels per texel, and the bytes in
/// row-major order, top row first.
pub struct TextureModel {
    pub width: int,
    pub height: int,
    pub channels: int,
    pub image: Seq<u8>,
}

impl TextureModel {
    /// The sides are positive, a texel has at least red, green and blue, and
    /// the bytes are exactly those of `width * height` texels.
    pub open spec fn wf(self) -> bool {
        &&& 0 < self.width <= i32::MAX
        &&& 0 < self.height <= i32::MAX
        &&& 3 <= self.channels <= u8::MAX
        &&& self.image.len() == self.width * self.height * self.channels
    }

    /// Where the bytes of texel `(x, y)` begin.
    pub open spec fn offset(self, x: int, y: int) -> int {
        (x + self.width * y) * self.channels
    }

    /// The texel in column `x` of row `y`.
    pub open spec fn texel(self, x: int, y: int) -> Rgb8 {
        Rgb8 {
            r: self.image[self.offset(x, y)],
            g: self.image[self.offset(x, y) + 1],
            b: self.image[self.offset(x, y) + 2],
        }
    }

    /// The texel at `(i, j)` under edge-clamp addressing.
    pub open spec fn clamped(self, i: int, j: int) -> Rgb8 {
        self.texel(clamp_index(i, self.width), clamp_index(j, self.height))
    }

    /// The texel at `(i, j)` under wrap-around addressing.
    pub open spec fn wrapped(self, i: int, j: int) -> Rgb8 {
        self.texel(wrap_index(i, self.width), wrap_index(j, self.height))
    }

    /// The wrap-around neighbourhood of the base index `(i, j)`.
    pub open spec fn footprint(self, i: int, j: int) -> Footprint {
        Footprint {
            c00: self.wrapped(i, j),
            c10: self.wrapped(i + 1, j),
            c01: self.wrapped(i, j + 1),
            c11: self.wrapped(i + 1, j + 1),
        }
    }
}

/// The first reason, if any, for which `width * height` texels of `channels`
/// channels in `len` bytes are no texture.
pub open spec fn texture_fault(width: int, height: int, channels: int, len: int) -> Option<
    TextureError,
> {
    if width <= 0 || height <= 0 || width > i32::MAX || height > i32::MAX {
        Some(TextureError::Dimensions)
    } else if channels < 3 {
        Some(TextureError::Channels)
    } else if len != width * height * channels {
        Some(TextureError::Length)
    } else {
        None
    }
}

/// Whether `r` is what `width * height` texels of `channels` channels in
/// the bytes `image` come to: the texture of exactly these parts, or the
/// first fault in them.
pub open spec fn is_texture_of(
    r: Result<Texture, TextureError>,
    width: int,
    height: int,
    channels: int,
    image: Seq<u8>,
) -> bool {
    match r {
        Ok(t) => {
            &&& texture_fault(width, height, channels, image.len() as int) is None
            &&& t@ == (TextureModel { width, height, channels, image })
        },
        Err(e) => texture_fault(width, height, channels, image.len() as int) == Some(e),
    }
}

/// A decoded image held for sampling.
#[derive(Debug)]
pub struct Texture {
    width: i32,
    height: i32,
    channels: u8,
    image: Vec<u8>,
}

impl View for Texture {
    type V = TextureModel;

    closed spec fn view(&self) -> TextureModel {
        TextureModel {
            width: self.width as int,
            height: self.height as int,
            channels: self.channels as int,
            image: self.image@,
        }
    }
}

impl Clone for Texture {
    fn clone(&self) -> (r: Self)
        ensures
            r@ == self@,
    {
        proof {
            use_type_invariant(self);
        }
        Texture {
            width: self.width,
            height: self.height,
            channels: self.channels,
            image: self.image.clone(),
        }
    }
}

impl Texture {
    #[verifier::type_invariant]
    spec fn inv(self) -> bool {
        self@.wf()
    }

    /// Takes a decoded image as a texture, or says why it is none: only a
    /// layout of one byte per channel and at least three channels can be
    /// sampled.
    pub fn new(img: image::DynamicImage) -> (r: Result<Texture, TextureError>)
        ensures
            is_texture_of(
                r,
                decoded_width(img) as int,
                decoded_height(img) as int,
                decoded_channels(img) as int,
                decoded_bytes(img),
            ),
            r matches Ok(t) ==> t@.wf(),
    {
        let width: u32 = width_of(&img);
        let height: u32 = height_of(&img);
        let channels: u8 = channels_of(&img);
        Texture::from_parts(width, height, channels, into_bytes(img))
    }

    /// Takes a pixel array as a texture, or says why it is none.
    pub fn from_parts(width: u32, height: u32, channels: u8, image: Vec<u8>) -> (r: Result<
        Texture,
        TextureError,
    >)
        ensures
            is_texture_of(r, width as int, height as int, channels as int, image@),
            r matches Ok(t) ==> t@.wf(),
    {
        if width == 0 || height == 0 || width > 0x7fff_ffff || height > 0x7fff_ffff {
            return Err(TextureError::Dimensions);
        }
        if channels < 3 {
            return Err(TextureError::Channels);
        }
        assert(width * height <= 0x7fff_ffff * 0x7fff_ffff) by (nonlinear_arith)
            requires
                0 < width <= 0x7fff_ffff,
                0 < height <= 0x7fff_ffff,
        ;
        let texels: u64 = (width as u64) * (height as u64);
        assert(texels * channels <= 0x7fff_ffff * 0x7fff_ffff * 0xff) by (nonlinear_arith)
            requires
                0 <= texels <= 0x7fff_ffff * 0x7fff_ffff,
                0 <= channels <= 0xff,
        ;
        let bytes: u128 = (texels as u128) * (channels as u128);
        if image.len() as u128 != bytes {
            return Err(TextureError::Length);
        }
        Ok(Texture { width: width as i32, height: height as i32, channels, image })
    }

    /// The number of columns.
    pub fn width(&self) -> (w: i32)
        ensures
            w == self@.width,
            self@.wf(),
    {
        proof {
            use_type_invariant(self);
        }
        self.width
    }

    /// The number of rows.
    pub fn height(&self) -> (h: i32)
        ensures
            h == self@.height,
            self@.wf(),
    {
        proof {
            use_type_invariant(self);
        }
        self.height
    }

    /// The number of channels in each texel.
    pub fn channels(&self) -> (c: u8)
        ensures
            c == self@.channels,
            self@.wf(),
    {
        proof {
            use_type_invariant(self);
        }
        self.channels
    }

    /// The bytes of the texels, row by row.
    pub fn image(&self) -> (bytes: &Vec<u8>)
        ensures
            bytes@ == self@.image,
            self@.wf(),
    {
        proof {
            use_type_invariant(self);
        }
        &self.image
    }

    /// The texel in column `x` of row `y`.
    fn texel_at(&self, x: i32, y: i32) -> (c: Rgb8)
        requires
            0 <= x < self@.width,
            0 <= y < self@.height,
        ensures
            c == self@.texel(x as int, y as int),
    {
        proof {
            use_type_invariant(self);
            lemma_texel_in_bounds(self@, x as int, y as int);
            assert(self@.image.len() == self.image.len());
        }
        let row: usize = (self.width as usize) * (y as usize);
        let index: usize = (x as usize + row) * (self.channels as usize);
        Rgb8 { r: self.image[index], g: self.image[index + 1], b: self.image[index + 2] }
    }

    /// Nearest-texel lookup with edge clamping: an index outside the image
    /// reads the nearest edge texel.
    pub fn clamped(&self, i: i32, j: i32) -> (c: Rgb8)
        ensures
            c == self@.clamped(i as int, j as int),
    {
        proof {
            use_type_invariant(self);
        }
        let x: i32 = if i < 0 {
            0
        } else if i >= self.width {
            self.width - 1
        } else {
            i
        };
        let y: i32 = if j < 0 {
            0
        } else if j >= self.height {
            self.height - 1
        } else {
            j
        };
        self.texel_at(x, y)
    }

    /// Texel lookup with wrap-around: the image repeats in both directions.
    pub fn wrapped(&self, i: i32, j: i32) -> (c: Rgb8)
        ensures
            c == self@.wrapped(i as int, j as int),
    {
        proof {
            use_type_invariant(self);
        }
        let x: i32 = wrap(i as i64, self.width);
        let y: i32 = wrap(j as i64, self.height);
        self.texel_at(x, y)
    }

    /// The four texels that bilinear sampling blends at the base index
    /// `(i, j)`, each found by wrap-around.
    pub fn get_sample_linear(&self, i: i32, j: i32) -> (f: Footprint)
        ensures
            f == self@.footprint(i as int, j as int),
    {
        proof {
            use_type_invariant(self);
        }
        let x0: i32 = wrap(i as i64, self.width);
        let x1: i32 = wrap(i as i64 + 1, self.width);
        let y0: i32 = wrap(j as i64, self.height);
        let y1: i32 = wrap(j as i64 + 1, self.height);
        Footprint {
            c00: self.texel_at(x0, y0),
            c10: self.texel_at(x1, y0),
            c01: self.texel_at(x0, y1),
            c11: self.texel_at(x1, y1),
        }
    }
}

/// The wrap-around index of `i` among `n`.
fn wrap(i: i64, n: i32) -> (r: i32)
    requires
        0 < n,
        i32::MIN <= i <= i32::MAX + 1,
    ensures
        r == wrap_index(i as int, n as int),
        0 <= r < n,
{
    let m: i64 = n as i64;
    proof {
        lemma_mod_bound(i as int, n as int);
    }
    if i >= 0 {
        let r: i64 = i % m;
        r as i32
    } else {
        let k: i64 = -(i + 1);
        let back: i64 = k % m;
        proof {
            lemma_mod_bound(k as int, n as int);
            lemma_fundamental_div_mod(k as int, n as int);
            let q = (k as int) / (n as int);
            assert(i == (-q - 1) * n + (n - 1 - back)) by (nonlinear_arith)
                requires
                    k == n * q + back,
                    i == -k - 1,
            ;
            lemma_fundamental_div_mod_converse(i as int, n as int, -q - 1, n - 1 - back);
        }
        (m - 1 - back) as i32
    }
}

/// The bytes of every texel of a well-formed texture lie inside its array.
pub proof fn lemma_texel_in_bounds(t: TextureModel, x: int, y: int)
    requires
        t.wf(),
        0 <= x < t.width,
        0 <= y < t.height,
    ensures
        0 <= t.width * y,
        0 <= x + t.width * y < t.width * t.height,
        0 <= t.offset(x, y),
        t.offset(x, y) + 2 < t.image.len(),
        t.width * t.height <= t.image.len(),
{
    let w = t.width;
    let h = t.height;
    let c = t.channels;
    let k = x + w * y;
    assert(0 <= w * y <= w * (h - 1) && w * (h - 1) == w * h - w) by (nonlinear_arith)
        requires
            0 < w,
            0 <= y <= h - 1,
    ;
    assert(0 <= k * c && k * c + c <= w * h * c && w * h <= w * h * c) by (nonlinear_arith)
        requires
            0 <= k <= w * h - 1,
            3 <= c,
    ;
}

/// Inside the image both addressings read the texel itself.
pub proof fn lemma_inside_agree(t: TextureModel, i: int, j: int)
    requires
        t.wf(),
        0 <= i < t.width,
        0 <= j < t.height,
    ensures
        t.clamped(i, j) == t.texel(i, j),
        t.wrapped(i, j) == t.texel(i, j),
{
    lemma_small_mod(i as nat, t.width as nat);
    lemma_small_mod(j as nat, t.height as nat);
}

/// Both addressings read a texel of the image, whatever the index.
pub proof fn lemma_addressing_in_range(t: TextureModel, i: int, j: int)
    requires
        t.wf(),
    ensures
        0 <= clamp_index(i, t.width) < t.width,
        0 <= clamp_index(j, t.height) < t.height,
        0 <= wrap_index(i, t.width) < t.width,
        0 <= wrap_index(j, t.height) < t.height,
{
    lemma_mod_bound(i, t.width);
    lemma_mod_bound(j, t.height);
}

/// Wrap-around addressing repeats the image: a whole width or height
/// further on, the same texel is read.
pub proof fn lemma_wrapped_periodic(t: TextureModel, i: int, j: int)
    requires
        t.wf(),
    ensures
        t.wrapped(i + t.width, j) == t.wrapped(i, j),
        t.wrapped(i, j + t.height) == t.wrapped(i, j),
{
    lemma_mod_add_multiples_vanish(i, t.width);
    lemma_mod_add_multiples_vanish(j, t.height);
    assert(i + t.width == t.width + i);
    assert(j + t.height == t.height + j);
}

/// Edge-clamp addressing repeats the edge: beyond the image, the texel of
/// the nearest edge is read.
pub proof fn lemma_clamped_is_edge(t: TextureModel, i: int, j: int)
    requires
        t.wf(),
    ensures
        i < 0 ==> t.clamped(i, j) == t.clamped(0, j),
        i >= t.width ==> t.clamped(i, j) == t.clamped(t.width - 1, j),
        j < 0 ==> t.clamped(i, j) == t.clamped(i, 0),
        j >= t.height ==> t.clamped(i, j) == t.clamped(i, t.height - 1),
{
}

/// At the texture's first corner bilinear sampling blends the four corners
/// of the image: the base index is one before the first texel in both
/// directions, and wrap-around finds the last column and the last row
/// there, where edge clamping would read the first texel four times.
pub proof fn lemma_footprint_at_corner(t: TextureModel)
    requires
        t.wf(),
    ensures
        t.footprint(-1, -1) == (Footprint {
            c00: t.texel(t.width - 1, t.height - 1),
            c10: t.texel(0, t.height - 1),
            c01: t.texel(t.width - 1, 0),
            c11: t.texel(0, 0),
        }),
        t.clamped(-1, -1) == t.texel(0, 0),
{
    lemma_fundamental_div_mod_converse(-1, t.width, -1, t.width - 1);
    lemma_fundamental_div_mod_converse(-1, t.height, -1, t.height - 1);
    lemma_small_mod(0, t.width as nat);
    lemma_small_mod(0, t.height as nat);
}

} // verus!
