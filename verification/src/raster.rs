//! RGBA8 rasters and the grid of pixels that models them.

use vstd::prelude::*;
use crate::geometry::{Size, Window};

verus! {

/// One pixel: red, green, blue and alpha, eight bits each.
#[derive(Clone, Copy, PartialEq, Eq, Debug, Structural)]
pub struct Rgba {
    pub r: u8,
    pub g: u8,
    pub b: u8,
    pub a: u8,
}

impl Rgba {
    /// The fully transparent pixel, all four channels zero.
    pub open spec fn spec_transparent() -> Rgba {
        Rgba { r: 0, g: 0, b: 0, a: 0 }
    }

    #[verifier::when_used_as_spec(spec_transparent)]
    pub fn transparent() -> (p: Rgba)
        ensures
            p == Rgba::spec_transparent(),
    {
        Rgba { r: 0, g: 0, b: 0, a: 0 }
    }

    /// Opaque white.
    pub open spec fn spec_white() -> Rgba {
        Rgba { r: 255, g: 255, b: 255, a: 255 }
    }

    #[verifier::when_used_as_spec(spec_white)]
    pub fn white() -> (p: Rgba)
        ensures
            p == Rgba::spec_white(),
    {
        Rgba { r: 255, g: 255, b: 255, a: 255 }
    }

    /// Whether the pixel shows at all: its alpha is not zero.
    pub open spec fn spec_is_visible(self) -> bool {
        self.a != 0
    }

    #[verifier::when_used_as_spec(spec_is_visible)]
    pub fn is_visible(self) -> (b: bool)
        ensures
            b == self.spec_is_visible(),
    {
        self.a != 0
    }
}

/// The mathematical model of a raster: `height` rows of `width` pixels.
#[verifier::ext_equal]
pub struct Grid {
    pub width: nat,
    pub height: nat,
    pub rows: Seq<Seq<Rgba>>,
}

impl Grid {
    /// There are `height` rows, each `width` pixels long.
    pub open spec fn wf(self) -> bool {
        &&& self.rows.len() == self.height
        &&& forall|y: int| 0 <= y < self.height ==> (#[trigger] self.rows[y]).len() == self.width
    }

    /// Whether `(x, y)` is a position of the grid.
    pub open spec fn contains(self, x: int, y: int) -> bool {
        0 <= x < self.width && 0 <= y < self.height
    }

    /// The pixel at column `x` of row `y`.
    pub open spec fn at(self, x: int, y: int) -> Rgba
        recommends
            self.contains(x, y),
    {
        self.rows[y][x]
    }

    /// The grid whose pixel at `(x, y)` is `f(x, y)`.
    pub open spec fn new(width: nat, height: nat, f: spec_fn(int, int) -> Rgba) -> Grid {
        Grid {
            width,
            height,
            rows: Seq::new(height, |y: int| Seq::new(width, |x: int| f(x, y))),
        }
    }

    /// The grid of one colour.
    pub open spec fn filled(width: nat, height: nat, color: Rgba) -> Grid {
        Grid::new(width, height, |x: int, y: int| color)
    }

    /// The fully transparent grid.
    pub open spec fn blank(width: nat, height: nat) -> Grid {
        Grid::filled(width, height, Rgba::spec_transparent())
    }

    /// The grid read from `bytes`, four bytes a pixel (red, green, blue,
    /// alpha), rows from the top, each row from the left.
    pub open spec fn from_rgba8(width: nat, height: nat, bytes: Seq<u8>) -> Grid {
        Grid::new(
            width,
            height,
            |x: int, y: int|
                Rgba {
                    r: bytes[4 * (y * width + x)],
                    g: bytes[4 * (y * width + x) + 1],
                    b: bytes[4 * (y * width + x) + 2],
                    a: bytes[4 * (y * width + x) + 3],
                },
        )
    }

    /// The same grid with the pixel at `(x, y)` replaced by `p`.
    pub open spec fn set(self, x: int, y: int, p: Rgba) -> Grid {
        Grid::new(
            self.width,
            self.height,
            |i: int, j: int|
                if i == x && j == y {
                    p
                } else {
                    self.at(i, j)
                },
        )
    }

    /// Whether the grid shows something at `(x, y)`: the position is in the
    /// grid and the pixel there is visible.
    pub open spec fn shows(self, x: int, y: int) -> bool {
        self.contains(x, y) && self.at(x, y).spec_is_visible()
    }

    /// `top` painted over `self` with its corner at `(dx, dy)`, inside `clip`.
    ///
    /// A pixel of `self` is overwritten where `top` shows something and the
    /// position lies in `clip`; every other pixel stays.
    pub open spec fn overlay_within(self, top: Grid, dx: int, dy: int, clip: Window) -> Grid {
        Grid::new(
            self.width,
            self.height,
            |x: int, y: int|
                if clip.contains(x, y) && top.shows(x - dx, y - dy) {
                    top.at(x - dx, y - dy)
                } else {
                    self.at(x, y)
                },
        )
    }

    /// `top` painted over `self` with its corner at `(dx, dy)`.
    pub open spec fn overlay(self, top: Grid, dx: int, dy: int) -> Grid {
        Grid::new(
            self.width,
            self.height,
            |x: int, y: int|
                if top.shows(x - dx, y - dy) {
                    top.at(x - dx, y - dy)
                } else {
                    self.at(x, y)
                },
        )
    }

    /// The `width` by `height` part of the grid whose corner is `(x, y)`.
    pub open spec fn crop(self, x: int, y: int, width: nat, height: nat) -> Grid {
        Grid::new(width, height, |i: int, j: int| self.at(x + i, y + j))
    }

    /// Two well-formed grids of one size with the same pixels are equal.
    pub proof fn lemma_equal(self, other: Grid)
        requires
            self.wf(),
            other.wf(),
            self.width == other.width,
            self.height == other.height,
            forall|x: int, y: int| self.contains(x, y) ==> self.at(x, y) == other.at(x, y),
        ensures
            self == other,
    {
        assert forall|y: int| 0 <= y < self.height implies #[trigger] self.rows[y]
            =~= other.rows[y] by {
            assert forall|x: int| 0 <= x < self.width implies self.rows[y][x]
                == other.rows[y][x] by {
                assert(self.contains(x, y));
                assert(self.at(x, y) == other.at(x, y));
            }
        }
        assert(self.rows =~= other.rows);
    }
}


/// The pixel at `(x, y)` of a `w` by `h` raster starts inside its bytes.
proof fn lemma_pixel_index(w: nat, h: nat, x: nat, y: nat)
    requires
        x < w,
        y < h,
    ensures
        y * w + x < w * h,
        y * w <= y * w + x,
        4 * (y * w + x) + 3 < 4 * (w * h),
{
    assert(y * w + x < w * h) by (nonlinear_arith)
        requires
            x < w,
            y < h,
    ;
}

/// Two positions of one raster that start at the same byte are the same.
proof fn lemma_pixel_index_injective(w: nat, x1: nat, y1: nat, x2: nat, y2: nat)
    requires
        x1 < w,
        x2 < w,
        y1 * w + x1 == y2 * w + x2,
    ensures
        x1 == x2,
        y1 == y2,
{
    assert(y1 == y2) by (nonlinear_arith)
        requires
            x1 < w,
            x2 < w,
            y1 * w + x1 == y2 * w + x2,
    ;
}

/// A part of a raster is no larger than the raster.
proof fn lemma_area_monotonic(w: nat, h: nat, big_w: nat, big_h: nat)
    requires
        w <= big_w,
        h <= big_h,
    ensures
        w * h <= big_w * big_h,
{
    assert(w * h <= big_w * big_h) by (nonlinear_arith)
        requires
            w <= big_w,
            h <= big_h,
    ;
}

/// `image::DynamicImage`, a decoded image in any of its colour formats,
/// carried through as it is: nothing is known of what is inside.
#[verifier::external_type_specification]
#[verifier::external_body]
pub struct ExDynamicImage(image::DynamicImage);

/// The width, in pixels, of the RGBA8 form of a decoded image.
pub uninterp spec fn image_width(image: image::DynamicImage) -> nat;

/// The height, in pixels, of the RGBA8 form of a decoded image.
pub uninterp spec fn image_height(image: image::DynamicImage) -> nat;

/// The bytes of the RGBA8 form of a decoded image: the whole buffer of an
/// image that is RGBA8 already, and else what the `image` crate converts
/// the image to.
pub uninterp spec fn image_rgba8(image: image::DynamicImage) -> Seq<u8>;

/// `DynamicImage::into_rgba8`, then `ImageBuffer::width`, `height` and
/// `into_raw` of the buffer that it gives. The contract names the three
/// results, and claims that the buffer holds at least four bytes for each
/// of its pixels: the crate makes such a buffer with exactly that many, and
/// takes one from outside only where it is no shorter.
#[verifier::external_body]
fn rgba8_parts(image: image::DynamicImage) -> (parts: (u32, u32, Vec<u8>))
    ensures
        parts.0 == image_width(image),
        parts.1 == image_height(image),
        parts.2@ == image_rgba8(image),
        parts.2@.len() >= 4 * (parts.0 as nat * parts.1 as nat),
{
    let buffer = image.into_rgba8();
    (buffer.width(), buffer.height(), buffer.into_raw())
}

/// An immutable-by-convention RGBA8 pixel buffer.
///
/// The bytes lie four to a pixel, rows from the top, each row from the
/// left; there are exactly `4 * width * height` of them.
pub struct Raster {
    width: u32,
    height: u32,
    data: Vec<u8>,
}

impl View for Raster {
    type V = Grid;

    closed spec fn view(&self) -> Grid {
        Grid::from_rgba8(self.width as nat, self.height as nat, self.data@)
    }
}

impl Raster {
    #[verifier::type_invariant]
    spec fn inv(self) -> bool {
        self.data@.len() == 4 * (self.width as nat * self.height as nat)
    }

    /// Whether the bytes of a `width` by `height` raster can be addressed.
    pub open spec fn spec_fits(width: u64, height: u64) -> bool {
        width <= u32::MAX && height <= u32::MAX && 4 * (width as nat * height as nat) <= usize::MAX
    }

    #[verifier::when_used_as_spec(spec_fits)]
    pub fn fits(width: u64, height: u64) -> (b: bool)
        ensures
            b == Raster::spec_fits(width, height),
    {
        if width > 0xffff_ffff || height > 0xffff_ffff {
            return false;
        }
        assert(width as nat * height as nat <= 0xffff_ffff * 0xffff_ffff) by (nonlinear_arith)
            requires
                width <= 0xffff_ffff,
                height <= 0xffff_ffff,
        ;
        let area: u128 = width as u128 * height as u128;
        4 * area <= usize::MAX as u128
    }

    /// The model of every raster is a well-formed grid of the raster's size.
    pub proof fn lemma_view_wf(&self)
        ensures
            self@.wf(),
            self@.width <= u32::MAX,
            self@.height <= u32::MAX,
    {
    }

    /// A fully transparent raster.
    pub fn new(width: u32, height: u32) -> (r: Raster)
        requires
            Raster::spec_fits(width as u64, height as u64),
        ensures
            r@ == Grid::blank(width as nat, height as nat),
    {
        assert(width as nat * height as nat == width as usize * height as usize);
        let n: usize = 4 * (width as usize * height as usize);
        let data: Vec<u8> = vec![0u8; n];
        let r = Raster { width, height, data };
        proof {
            let target = Grid::blank(width as nat, height as nat);
            assert forall|x: int, y: int| r@.contains(x, y) implies r@.at(x, y) == target.at(
                x,
                y,
            ) by {
                lemma_pixel_index(width as nat, height as nat, x as nat, y as nat);
            }
            r@.lemma_equal(target);
        }
        r
    }

    /// The raster that `bytes` describe, four bytes a pixel in the order red,
    /// green, blue, alpha; `None` unless there are exactly
    /// `4 * width * height` bytes.
    pub fn from_rgba8(width: u32, height: u32, bytes: Vec<u8>) -> (r: Option<Raster>)
        ensures
            r is Some <==> bytes@.len() == 4 * (width as nat * height as nat),
            r matches Some(raster) ==> raster@ == Grid::from_rgba8(
                width as nat,
                height as nat,
                bytes@,
            ),
    {
        assert(width as nat * height as nat <= 0xffff_ffff * 0xffff_ffff) by (nonlinear_arith)
            requires
                width <= 0xffff_ffff,
                height <= 0xffff_ffff,
        ;
        let need: u128 = 4 * (width as u128 * height as u128);
        if bytes.len() as u128 == need {
            Some(Raster { width, height, data: bytes })
        } else {
            None
        }
    }

    /// A raster of one colour.
    pub fn filled(width: u32, height: u32, color: Rgba) -> (r: Raster)
        requires
            Raster::spec_fits(width as u64, height as u64),
        ensures
            r@ == Grid::filled(width as nat, height as nat, color),
    {
        let mut r = Raster::new(width, height);
        let mut y: u32 = 0;
        while y < height
            invariant
                y <= height,
                r@.width == width,
                r@.height == height,
                forall|i: int, j: int|
                    r@.contains(i, j) ==> #[trigger] r@.at(i, j) == (if j < y {
                        color
                    } else {
                        Rgba::spec_transparent()
                    }),
            decreases height - y,
        {
            let mut x: u32 = 0;
            while x < width
                invariant
                    y < height,
                    x <= width,
                    r@.width == width,
                    r@.height == height,
                    forall|i: int, j: int|
                        r@.contains(i, j) ==> #[trigger] r@.at(i, j) == (if j < y || (j == y && i
                            < x) {
                            color
                        } else {
                            Rgba::spec_transparent()
                        }),
                decreases width - x,
            {
                r.put_pixel(x, y, color);
                x = x + 1;
            }
            y = y + 1;
        }
        proof {
            r@.lemma_equal(Grid::filled(width as nat, height as nat, color));
        }
        r
    }

    /// The raster of the first `4 * width * height` of `bytes`, whatever may
    /// follow them; `None` where there are fewer.
    pub fn from_rgba8_prefix(width: u32, height: u32, bytes: Vec<u8>) -> (r: Option<Raster>)
        ensures
            r is Some <==> bytes@.len() >= 4 * (width as nat * height as nat),
            r matches Some(raster) ==> raster@ == Grid::from_rgba8(
                width as nat,
                height as nat,
                bytes@,
            ),
    {
        assert(width as nat * height as nat <= 0xffff_ffff * 0xffff_ffff) by (nonlinear_arith)
            requires
                width <= 0xffff_ffff,
                height <= 0xffff_ffff,
        ;
        let need: u128 = 4 * (width as u128 * height as u128);
        if (bytes.len() as u128) < need {
            return None;
        }
        let mut bytes = bytes;
        let ghost all = bytes@;
        bytes.truncate(need as usize);
        let r = Raster { width, height, data: bytes };
        proof {
            let target = Grid::from_rgba8(width as nat, height as nat, all);
            assert forall|x: int, y: int| r@.contains(x, y) implies r@.at(x, y) == target.at(
                x,
                y,
            ) by {
                lemma_pixel_index(width as nat, height as nat, x as nat, y as nat);
            }
            r@.lemma_equal(target);
        }
        Some(r)
    }

    /// The raster of a decoded image, whatever its colour format: an image
    /// that is RGBA8 already is taken as it is, any other is converted.
    /// Bytes that follow the last pixel are dropped.
    pub fn from_image(image: image::DynamicImage) -> (raster: Raster)
        ensures
            raster@ == Grid::from_rgba8(
                image_width(image),
                image_height(image),
                image_rgba8(image),
            ),
    {
        let parts = rgba8_parts(image);
        Raster::from_rgba8_prefix(parts.0, parts.1, parts.2).unwrap()
    }

    /// The bytes of the raster, four a pixel, in the order of `from_rgba8`.
    pub fn as_rgba8(&self) -> (bytes: &Vec<u8>)
        ensures
            bytes@.len() == 4 * (self@.width * self@.height),
            Grid::from_rgba8(self@.width, self@.height, bytes@) == self@,
    {
        proof {
            use_type_invariant(self);
        }
        &self.data
    }

    /// The width and the height of the raster, which are those of a raster
    /// whose bytes can be addressed.
    pub fn size(&self) -> (size: Size)
        ensures
            size.width == self@.width,
            size.height == self@.height,
            Raster::spec_fits(size.width, size.height),
    {
        proof {
            use_type_invariant(self);
        }
        let len = self.data.len();
        Size { width: self.width as u64, height: self.height as u64 }
    }

    pub fn width(&self) -> (w: u32)
        ensures
            w == self@.width,
    {
        self.width
    }

    pub fn height(&self) -> (h: u32)
        ensures
            h == self@.height,
    {
        self.height
    }

    /// The pixel at column `x` of row `y`.
    pub fn get_pixel(&self, x: u32, y: u32) -> (p: Rgba)
        requires
            self@.contains(x as int, y as int),
        ensures
            p == self@.at(x as int, y as int),
    {
        proof {
            use_type_invariant(self);
            lemma_pixel_index(self.width as nat, self.height as nat, x as nat, y as nat);
        }
        let len = self.data.len();
        assert(4 * (y * self.width + x) + 3 < len);
        let i: usize = 4 * (y as usize * self.width as usize + x as usize);
        Rgba { r: self.data[i], g: self.data[i + 1], b: self.data[i + 2], a: self.data[i + 3] }
    }

    /// Replaces the pixel at column `x` of row `y`.
    pub fn put_pixel(&mut self, x: u32, y: u32, p: Rgba)
        requires
            old(self)@.contains(x as int, y as int),
        ensures
            final(self)@ == old(self)@.set(x as int, y as int, p),
    {
        proof {
            use_type_invariant(&*self);
            lemma_pixel_index(self.width as nat, self.height as nat, x as nat, y as nat);
        }
        let ghost before = *self;
        let mut taken = Raster { width: 0, height: 0, data: Vec::new() };
        core::mem::swap(self, &mut taken);
        let Raster { width, height, mut data } = taken;
        let len = data.len();
        assert(4 * (y * width + x) + 3 < len);
        let i: usize = 4 * (y as usize * width as usize + x as usize);
        data.set(i, p.r);
        data.set(i + 1, p.g);
        data.set(i + 2, p.b);
        data.set(i + 3, p.a);
        *self = Raster { width, height, data };
        proof {
            let target = before@.set(x as int, y as int, p);
            let w = self.width as nat;
            assert forall|u: int, v: int| self@.contains(u, v) implies self@.at(u, v) == target.at(
                u,
                v,
            ) by {
                lemma_pixel_index(w, self.height as nat, u as nat, v as nat);
                if !(u == x && v == y) {
                    if v * w + u == y * w + x {
                        lemma_pixel_index_injective(w, u as nat, v as nat, x as nat, y as nat);
                    }
                }
            }
            self@.lemma_equal(target);
        }
    }

    /// Paints `top` over this raster with its corner at `(dx, dy)`, inside
    /// `clip`: a pixel is overwritten where `top` shows something and the
    /// position lies in `clip`, and every other pixel stays.
    pub fn overlay_within(&mut self, top: &Raster, dx: i64, dy: i64, clip: Window)
        ensures
            final(self)@ == old(self)@.overlay_within(top@, dx as int, dy as int, clip),
    {
        let ghost before = self@;
        let ghost target = before.overlay_within(top@, dx as int, dy as int, clip);
        let w: i64 = self.width as i64;
        let h: i64 = self.height as i64;
        let tw: i64 = top.width as i64;
        let th: i64 = top.height as i64;
        if dx >= w || dy >= h || dx <= -tw || dy <= -th {
            proof {
                before.lemma_equal(target);
            }
            return ;
        }
        let x_lo: i64 = Raster::max3(0, dx, clip.x0);
        let x_hi: i64 = Raster::min3(w, dx + tw, clip.x1);
        let y_lo: i64 = Raster::max3(0, dy, clip.y0);
        let y_hi: i64 = Raster::min3(h, dy + th, clip.y1);
        let mut y: i64 = y_lo;
        while y < y_hi
            invariant
                y_lo <= y,
                0 <= x_lo,
                x_hi <= w,
                0 <= y_lo,
                y_hi <= h,
                w == before.width,
                h == before.height,
                tw == top@.width,
                th == top@.height,
                x_lo == Raster::spec_max3(0, dx, clip.x0),
                x_hi == Raster::spec_min3(w, (dx + tw) as i64, clip.x1),
                y_lo == Raster::spec_max3(0, dy, clip.y0),
                y_hi == Raster::spec_min3(h, (dy + th) as i64, clip.y1),
                -tw < dx < w,
                -th < dy < h,
                self@.width == before.width,
                self@.height == before.height,
                target == before.overlay_within(top@, dx as int, dy as int, clip),
                forall|i: int, j: int|
                    before.contains(i, j) ==> #[trigger] self@.at(i, j) == (if j < y {
                        target.at(i, j)
                    } else {
                        before.at(i, j)
                    }),
            decreases y_hi - y,
        {
            let mut x: i64 = x_lo;
            while x < x_hi
                invariant
                    y_lo <= y < y_hi,
                    x_lo <= x,
                    0 <= x_lo,
                    x_hi <= w,
                    0 <= y_lo,
                    y_hi <= h,
                    w == before.width,
                    h == before.height,
                    tw == top@.width,
                    th == top@.height,
                    x_lo == Raster::spec_max3(0, dx, clip.x0),
                    x_hi == Raster::spec_min3(w, (dx + tw) as i64, clip.x1),
                    y_lo == Raster::spec_max3(0, dy, clip.y0),
                    y_hi == Raster::spec_min3(h, (dy + th) as i64, clip.y1),
                    -tw < dx < w,
                    -th < dy < h,
                    self@.width == before.width,
                    self@.height == before.height,
                    target == before.overlay_within(top@, dx as int, dy as int, clip),
                    forall|i: int, j: int|
                        before.contains(i, j) ==> #[trigger] self@.at(i, j) == (if j < y || (j == y
                            && i < x) {
                            target.at(i, j)
                        } else {
                            before.at(i, j)
                        }),
                decreases x_hi - x,
            {
                let p = top.get_pixel((x - dx) as u32, (y - dy) as u32);
                if p.is_visible() {
                    self.put_pixel(x as u32, y as u32, p);
                }
                x = x + 1;
            }
            y = y + 1;
        }
        proof {
            self@.lemma_equal(target);
        }
    }

    /// Paints `top` over this raster with its corner at `(dx, dy)`: a pixel
    /// is overwritten where `top` shows something, and every other pixel
    /// stays.
    pub fn overlay(&mut self, top: &Raster, dx: i64, dy: i64)
        ensures
            final(self)@ == old(self)@.overlay(top@, dx as int, dy as int),
    {
        let ghost before = self@;
        let all = Window { x0: 0, y0: 0, x1: self.width as i64, y1: self.height as i64 };
        self.overlay_within(top, dx, dy, all);
        proof {
            self@.lemma_equal(before.overlay(top@, dx as int, dy as int));
        }
    }

    /// The `width` by `height` part of the raster whose corner is `(x, y)`.
    pub fn crop(&self, x: u32, y: u32, width: u32, height: u32) -> (r: Raster)
        requires
            x + width <= self@.width,
            y + height <= self@.height,
        ensures
            r@ == self@.crop(x as int, y as int, width as nat, height as nat),
    {
        proof {
            use_type_invariant(self);
            lemma_area_monotonic(
                width as nat,
                height as nat,
                self.width as nat,
                self.height as nat,
            );
        }
        let len = self.data.len();
        let ghost target = self@.crop(x as int, y as int, width as nat, height as nat);
        let mut r = Raster::new(width, height);
        let mut j: u32 = 0;
        while j < height
            invariant
                j <= height,
                x + width <= self@.width,
                y + height <= self@.height,
                r@.width == width,
                r@.height == height,
                target == self@.crop(x as int, y as int, width as nat, height as nat),
                forall|u: int, v: int|
                    r@.contains(u, v) ==> #[trigger] r@.at(u, v) == (if v < j {
                        target.at(u, v)
                    } else {
                        Rgba::spec_transparent()
                    }),
            decreases height - j,
        {
            let mut i: u32 = 0;
            while i < width
                invariant
                    j < height,
                    i <= width,
                    x + width <= self@.width,
                    y + height <= self@.height,
                    r@.width == width,
                    r@.height == height,
                    target == self@.crop(x as int, y as int, width as nat, height as nat),
                    forall|u: int, v: int|
                        r@.contains(u, v) ==> #[trigger] r@.at(u, v) == (if v < j || (v == j && u
                            < i) {
                            target.at(u, v)
                        } else {
                            Rgba::spec_transparent()
                        }),
                decreases width - i,
            {
                let p = self.get_pixel(x + i, y + j);
                r.put_pixel(i, j, p);
                i = i + 1;
            }
            j = j + 1;
        }
        proof {
            r@.lemma_equal(target);
        }
        r
    }

    /// The largest of three numbers.
    spec fn spec_max3(a: i64, b: i64, c: i64) -> i64 {
        if a >= b && a >= c {
            a
        } else if b >= c {
            b
        } else {
            c
        }
    }

    /// The smallest of three numbers.
    spec fn spec_min3(a: i64, b: i64, c: i64) -> i64 {
        if a <= b && a <= c {
            a
        } else if b <= c {
            b
        } else {
            c
        }
    }

    fn max3(a: i64, b: i64, c: i64) -> (m: i64)
        ensures
            m == Raster::spec_max3(a, b, c),
    {
        if a >= b && a >= c {
            a
        } else if b >= c {
            b
        } else {
            c
        }
    }

    fn min3(a: i64, b: i64, c: i64) -> (m: i64)
        ensures
            m == Raster::spec_min3(a, b, c),
    {
        if a <= b && a <= c {
            a
        } else if b <= c {
            b
        } else {
            c
        }
    }
}

} // verus!
