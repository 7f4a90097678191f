//! The frame buffer: an RGBA8 byte store with row-major pixel addressing.

use vstd::prelude::*;

verus! {

/// Conversion between a color type and one 8-bit RGBA pixel.
///
/// The frame buffer is agnostic to which color type its callers use: any type
/// that can say which four bytes stand for it can be written to and read from
/// the buffer. `rgba_spec` is the mathematical image of the conversion, and
/// both executable directions are pinned to it.
pub trait Rgba32: Sized {
    /// The four RGBA bytes that stand for this color.
    spec fn rgba_spec(&self) -> (u8, u8, u8, u8);

    /// Converts the color to its four RGBA bytes.
    fn to_rgba32(&self) -> (r: (u8, u8, u8, u8))
        ensures
            r == self.rgba_spec(),
    ;

    /// Rebuilds a color from four RGBA bytes.
    fn from_rgba32(rgba: (u8, u8, u8, u8)) -> (r: Self)
        ensures
            r.rgba_spec() == rgba,
    ;
}

/// A color already in 8-bit RGBA form; the identity instance of [`Rgba32`].
#[derive(Clone, Copy, Debug, PartialEq, Eq, Structural)]
pub struct Pixel {
    /// Red channel.
    pub r: u8,
    /// Green channel.
    pub g: u8,
    /// Blue channel.
    pub b: u8,
    /// Alpha channel.
    pub a: u8,
}

impl Rgba32 for Pixel {
    open spec fn rgba_spec(&self) -> (u8, u8, u8, u8) {
        (self.r, self.g, self.b, self.a)
    }

    fn to_rgba32(&self) -> (r: (u8, u8, u8, u8)) {
        (self.r, self.g, self.b, self.a)
    }

    fn from_rgba32(rgba: (u8, u8, u8, u8)) -> (r: Self) {
        Pixel { r: rgba.0, g: rgba.1, b: rgba.2, a: rgba.3 }
    }
}

/// Byte offset of pixel `(x, y)` in a row-major RGBA8 store of width `width`.
pub open spec fn pixel_offset(width: nat, x: nat, y: nat) -> nat {
    (x + y * width) * 4
}

/// The four RGBA bytes stored for pixel `(x, y)`.
pub open spec fn pixel_at(data: Seq<u8>, width: nat, x: nat, y: nat) -> (u8, u8, u8, u8) {
    let o = pixel_offset(width, x, y) as int;
    (data[o], data[o + 1], data[o + 2], data[o + 3])
}

/// The byte store after the four RGBA bytes of pixel `(x, y)` are replaced by
/// `rgba`.
pub open spec fn store_pixel(data: Seq<u8>, width: nat, x: nat, y: nat, rgba: (u8, u8, u8, u8)) -> Seq<
    u8,
> {
    let o = pixel_offset(width, x, y) as int;
    data.update(o, rgba.0).update(o + 1, rgba.1).update(o + 2, rgba.2).update(o + 3, rgba.3)
}

/// An in-bounds pixel occupies four bytes that all lie inside a
/// `width * height * 4` store.
pub proof fn lemma_pixel_offset_in_bounds(width: nat, height: nat, x: nat, y: nat)
    requires
        x < width,
        y < height,
    ensures
        pixel_offset(width, x, y) + 4 <= width * height * 4,
{
    assert((x + y * width) + 1 <= width * height) by (nonlinear_arith)
        requires
            x < width,
            y < height,
    ;
    assert(((x + y * width) + 1) * 4 <= (width * height) * 4) by (nonlinear_arith)
        requires
            (x + y * width) + 1 <= width * height,
    ;
}

/// Distinct in-bounds pixels have distinct row-major indices, so their byte
/// ranges do not overlap.
pub proof fn lemma_pixel_offsets_distinct(width: nat, x1: nat, y1: nat, x2: nat, y2: nat)
    requires
        x1 < width,
        x2 < width,
        !(x1 == x2 && y1 == y2),
    ensures
        pixel_offset(width, x1, y1) + 4 <= pixel_offset(width, x2, y2) || pixel_offset(
            width,
            x2,
            y2,
        ) + 4 <= pixel_offset(width, x1, y1),
{
    assert(x1 + y1 * width != x2 + y2 * width) by (nonlinear_arith)
        requires
            x1 < width,
            x2 < width,
            !(x1 == x2 && y1 == y2),
    ;
    if x1 + y1 * width < x2 + y2 * width {
        assert(((x1 + y1 * width) + 1) * 4 <= (x2 + y2 * width) * 4) by (nonlinear_arith)
            requires
                x1 + y1 * width < x2 + y2 * width,
        ;
    } else {
        assert(((x2 + y2 * width) + 1) * 4 <= (x1 + y1 * width) * 4) by (nonlinear_arith)
            requires
                x2 + y2 * width < x1 + y1 * width,
        ;
    }
}

/// Storing a pixel and reading it back yields exactly the bytes stored.
pub proof fn lemma_store_then_read(
    data: Seq<u8>,
    width: nat,
    height: nat,
    x: nat,
    y: nat,
    rgba: (u8, u8, u8, u8),
)
    requires
        data.len() == width * height * 4,
        x < width,
        y < height,
    ensures
        pixel_at(store_pixel(data, width, x, y, rgba), width, x, y) == rgba,
{
    lemma_pixel_offset_in_bounds(width, height, x, y);
}

/// Storing a pixel leaves every other in-bounds pixel's bytes unchanged.
pub proof fn lemma_store_preserves_others(
    data: Seq<u8>,
    width: nat,
    height: nat,
    x1: nat,
    y1: nat,
    x2: nat,
    y2: nat,
    rgba: (u8, u8, u8, u8),
)
    requires
        data.len() == width * height * 4,
        x1 < width,
        y1 < height,
        x2 < width,
        y2 < height,
        !(x1 == x2 && y1 == y2),
    ensures
        pixel_at(store_pixel(data, width, x1, y1, rgba), width, x2, y2) == pixel_at(
            data,
            width,
            x2,
            y2,
        ),
{
    lemma_pixel_offset_in_bounds(width, height, x1, y1);
    lemma_pixel_offset_in_bounds(width, height, x2, y2);
    lemma_pixel_offsets_distinct(width, x1, y1, x2, y2);
}

/// The raster the renderer writes into: a `width * height * 4` byte store of
/// row-major RGBA8 pixels.
pub struct FrameBuffer {
    width: usize,
    height: usize,
    pixel_data: Vec<u8>,
}

impl FrameBuffer {
    /// Width of the raster in pixels.
    pub closed spec fn spec_width(&self) -> nat {
        self.width as nat
    }

    /// Height of the raster in pixels.
    pub closed spec fn spec_height(&self) -> nat {
        self.height as nat
    }

    /// The byte store.
    pub closed spec fn data(&self) -> Seq<u8> {
        self.pixel_data@
    }

    /// The byte store always holds exactly `width * height * 4` bytes.
    pub open spec fn wf(&self) -> bool {
        self.data().len() == self.spec_width() * self.spec_height() * 4
    }

    /// Allocates a zeroed frame buffer of the given dimensions.
    pub fn new(width: usize, height: usize) -> (r: FrameBuffer)
        requires
            width * height * 4 <= usize::MAX,
        ensures
            r.wf(),
            r.spec_width() == width,
            r.spec_height() == height,
            r.data() == Seq::new((width * height * 4) as nat, |i: int| 0u8),
    {
        proof {
            assert((width * height) * 4 == width * height * 4) by (nonlinear_arith);
        }
        let len = width * height * 4;
        let pixel_data = vec![0u8; len];
        proof {
            assert(pixel_data@ =~= Seq::new((width * height * 4) as nat, |i: int| 0u8));
        }
        FrameBuffer { width, height, pixel_data }
    }

    /// Width of the raster in pixels.
    pub fn width(&self) -> (r: usize)
        ensures
            r == self.spec_width(),
    {
        self.width
    }

    /// Height of the raster in pixels.
    pub fn height(&self) -> (r: usize)
        ensures
            r == self.spec_height(),
    {
        self.height
    }

    /// The raw byte store, for hand-off to display or serialization.
    pub fn pixel_data(&self) -> (r: &[u8])
        ensures
            r@ == self.data(),
    {
        self.pixel_data.as_slice()
    }

    /// Writes the color's four RGBA bytes at pixel `(x, y)`; all other bytes
    /// keep their values.
    pub fn set_pixel<T: Rgba32>(&mut self, x: usize, y: usize, color: T)
        requires
            old(self).wf(),
            x < old(self).spec_width(),
            y < old(self).spec_height(),
        ensures
            final(self).wf(),
            final(self).spec_width() == old(self).spec_width(),
            final(self).spec_height() == old(self).spec_height(),
            final(self).data() == store_pixel(
                old(self).data(),
                old(self).spec_width(),
                x as nat,
                y as nat,
                color.rgba_spec(),
            ),
    {
        proof {
            lemma_pixel_offset_in_bounds(
                self.spec_width(),
                self.spec_height(),
                x as nat,
                y as nat,
            );
        }
        let n = self.pixel_data.len();
        let start = (x + y * self.width) * 4;
        assert(start + 4 <= n);
        let (r, g, b, a) = color.to_rgba32();
        self.pixel_data.set(start, r);
        self.pixel_data.set(start + 1, g);
        self.pixel_data.set(start + 2, b);
        self.pixel_data.set(start + 3, a);
    }

    /// Writes a whole scanline: pixel `(x, y)` takes the bytes of `pixels[x]`
    /// for every column `x`, and every other row keeps its bytes.
    pub fn set_line<T: Rgba32 + Copy>(&mut self, y: usize, pixels: &Vec<T>)
        requires
            old(self).wf(),
            y < old(self).spec_height(),
            pixels@.len() == old(self).spec_width(),
        ensures
            final(self).wf(),
            final(self).spec_width() == old(self).spec_width(),
            final(self).spec_height() == old(self).spec_height(),
            forall|x: nat|
                x < final(self).spec_width() ==> pixel_at(
                    final(self).data(),
                    final(self).spec_width(),
                    x,
                    y as nat,
                ) == pixels@[x as int].rgba_spec(),
            forall|x: nat, y2: nat|
                x < final(self).spec_width() && y2 < final(self).spec_height() && y2 != y
                    ==> pixel_at(final(self).data(), final(self).spec_width(), x, y2) == pixel_at(
                    old(self).data(),
                    old(self).spec_width(),
                    x,
                    y2,
                ),
    {
        let w = self.width();
        let mut x: usize = 0;
        while x < w
            invariant
                self.wf(),
                self.spec_width() == old(self).spec_width(),
                self.spec_height() == old(self).spec_height(),
                w == self.spec_width(),
                y < self.spec_height(),
                pixels@.len() == w,
                x <= w,
                forall|j: nat|
                    j < x ==> pixel_at(self.data(), self.spec_width(), j, y as nat)
                        == pixels@[j as int].rgba_spec(),
                forall|j: nat|
                    x <= j < w ==> pixel_at(self.data(), self.spec_width(), j, y as nat)
                        == pixel_at(old(self).data(), old(self).spec_width(), j, y as nat),
                forall|j: nat, y2: nat|
                    j < w && y2 < self.spec_height() && y2 != y ==> pixel_at(
                        self.data(),
                        self.spec_width(),
                        j,
                        y2,
                    ) == pixel_at(old(self).data(), old(self).spec_width(), j, y2),
            decreases w - x,
        {
            let ghost prev = *self;
            self.set_pixel(x, y, pixels[x]);
            proof {
                lemma_store_then_read(
                    prev.data(),
                    prev.spec_width(),
                    prev.spec_height(),
                    x as nat,
                    y as nat,
                    pixels@[x as int].rgba_spec(),
                );
                assert forall|j: nat, y2: nat|
                    j < w && y2 < self.spec_height() && !(j == x && y2 == y) implies pixel_at(
                    self.data(),
                    self.spec_width(),
                    j,
                    y2,
                ) == pixel_at(prev.data(), prev.spec_width(), j, y2) by {
                    lemma_store_preserves_others(
                        prev.data(),
                        prev.spec_width(),
                        prev.spec_height(),
                        x as nat,
                        y as nat,
                        j,
                        y2,
                        pixels@[x as int].rgba_spec(),
                    );
                }
                assert forall|j: nat| j < x + 1 implies pixel_at(
                    self.data(),
                    self.spec_width(),
                    j,
                    y as nat,
                ) == pixels@[j as int].rgba_spec() by {
                    if j < x {
                        assert(pixel_at(prev.data(), prev.spec_width(), j, y as nat)
                            == pixels@[j as int].rgba_spec());
                    } else {
                        assert(pixel_at(self.data(), self.spec_width(), x as nat, y as nat)
                            == pixels@[x as int].rgba_spec());
                    }
                }
            }
            x = x + 1;
        }
    }

    /// Reads back the color stored at pixel `(x, y)`.
    pub fn get_pixel<T: Rgba32>(&self, x: usize, y: usize) -> (r: T)
        requires
            self.wf(),
            x < self.spec_width(),
            y < self.spec_height(),
        ensures
            r.rgba_spec() == pixel_at(self.data(), self.spec_width(), x as nat, y as nat),
    {
        proof {
            lemma_pixel_offset_in_bounds(
                self.spec_width(),
                self.spec_height(),
                x as nat,
                y as nat,
            );
        }
        let n = self.pixel_data.len();
        let start = (x + y * self.width) * 4;
        assert(start + 4 <= n);
        let rgba = (
            self.pixel_data[start],
            self.pixel_data[start + 1],
            self.pixel_data[start + 2],
            self.pixel_data[start + 3],
        );
        T::from_rgba32(rgba)
    }
}

} // verus!
