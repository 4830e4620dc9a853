use vstd::prelude::*;
use vstd::arithmetic::div_mod::{lemma_fundamental_div_mod, lemma_fundamental_div_mod_converse};
use crate::error::PainterError;

verus! {

/// One texel as four straight 8-bit channels.
#[derive(Clone, Copy, Debug, PartialEq, Eq, Structural)]
pub struct Color {
    pub r: u8,
    pub g: u8,
    pub b: u8,
    pub a: u8,
}

/// A row-major colour image, top row first.
#[derive(Clone, Debug)]
pub struct RgbaImage {
    pub width: usize,
    pub height: usize,
    pub pixels: Vec<Color>,
}

/// A row-major glyph atlas: one quantised coverage value per texel.
#[derive(Clone, Debug)]
pub struct CoverageImage {
    pub width: usize,
    pub height: usize,
    pub coverage: Vec<u8>,
}

/// The payload of a texture update.
#[derive(Clone, Debug)]
pub enum ImageData {
    Color(RgbaImage),
    Font(CoverageImage),
}

/// The mathematical content of an RGBA8 image: its bytes and its dimensions.
pub struct PixelGrid {
    pub pixels: Seq<u8>,
    pub width: nat,
    pub height: nat,
}

/// The encoding that a texture is uploaded with.
#[derive(Clone, Copy, Debug, PartialEq, Eq, Structural)]
pub enum TextureFormat {
    Rgba8Unorm,
    Rgba8UnormSrgb,
}

/// What the render backend is told about one texture.
#[derive(Clone, Copy, Debug, PartialEq, Eq, Structural)]
pub struct TextureHandle {
    pub format: TextureFormat,
    pub width: u32,
    pub height: u32,
}

/// An owned RGBA8 pixel buffer, four bytes per texel, row-major.
#[derive(Clone, Debug)]
pub struct PixelBuffer {
    pixels: Vec<u8>,
    w: usize,
    h: usize,
}

/// Channel `k` of a colour: 0 is red, 1 green, 2 blue, anything else alpha.
pub open spec fn channel(c: Color, k: int) -> u8 {
    if k == 0 {
        c.r
    } else if k == 1 {
        c.g
    } else if k == 2 {
        c.b
    } else {
        c.a
    }
}

/// The bytes of a colour image: byte `i` is channel `i % 4` of texel `i / 4`.
pub open spec fn expand_colors(texels: Seq<Color>) -> Seq<u8> {
    Seq::new(texels.len() * 4, |i: int| channel(texels[i / 4], i % 4))
}

/// The bytes of a glyph atlas: all four channels of a texel carry its coverage.
pub open spec fn expand_coverage(coverage: Seq<u8>) -> Seq<u8> {
    Seq::new(coverage.len() * 4, |i: int| coverage[i / 4])
}

/// Whether a grid's dimensions can be described to the render backend.
pub open spec fn uploadable(grid: PixelGrid) -> bool {
    grid.width <= u32::MAX && grid.height <= u32::MAX
}

/// The handle under which a grid is uploaded: sRGB-encoded RGBA8 with the
/// grid's own dimensions.
pub open spec fn handle_for(grid: PixelGrid) -> TextureHandle {
    TextureHandle {
        format: TextureFormat::Rgba8UnormSrgb,
        width: grid.width as u32,
        height: grid.height as u32,
    }
}

/// Whether a patch whose top-left texel goes to column `x`, row `y` lies
/// inside the target.
pub open spec fn fits(target: PixelGrid, patch: PixelGrid, x: nat, y: nat) -> bool {
    x + patch.width <= target.width && y + patch.height <= target.height
}

/// Byte `i` of the target after the first `rows` rows of the patch were
/// copied to column `x`, row `y`: the patch's byte where `i` lies in a copied
/// row and in the patch's columns, the target's own byte elsewhere.
pub open spec fn blit_byte(
    target: PixelGrid,
    patch: PixelGrid,
    x: nat,
    y: nat,
    rows: nat,
    i: int,
) -> u8 {
    let stride = target.width * 4;
    let row = i / (stride as int);
    let within = i % (stride as int);
    if y <= row < y + rows && 4 * x <= within < 4 * x + patch.width * 4 {
        patch.pixels[(row - y) * (patch.width * 4) + (within - 4 * x)]
    } else {
        target.pixels[i]
    }
}

/// The target with the whole patch copied to column `x`, row `y`.
pub open spec fn blit_grid(target: PixelGrid, patch: PixelGrid, x: nat, y: nat) -> PixelGrid {
    PixelGrid {
        pixels: Seq::new(
            target.pixels.len(),
            |i: int| blit_byte(target, patch, x, y, patch.height, i),
        ),
        width: target.width,
        height: target.height,
    }
}

/// Row `row` of a grid with `rows` rows of `stride` bytes lies inside the
/// grid's `rows * stride` bytes.
proof fn lemma_row_inside(row: int, rows: int, stride: int)
    requires
        0 <= row < rows,
        0 <= stride,
    ensures
        0 <= row * stride,
        row * stride + stride <= rows * stride,
{
    assert(0 <= row * stride) by (nonlinear_arith)
        requires
            0 <= row,
            0 <= stride,
    ;
    assert(row * stride + stride <= rows * stride) by (nonlinear_arith)
        requires
            row + 1 <= rows,
            0 <= stride,
    ;
}

/// Whether `count` texels fill a `width` by `height` image and their four
/// bytes each fit in memory.
pub open spec fn fills(width: nat, height: nat, count: nat) -> bool {
    width * height == count && count * 4 <= usize::MAX
}

/// Tests whether `count` texels fill a `width` by `height` image and can be
/// expanded to four bytes each.
pub fn fills_exactly(width: usize, height: usize, count: usize) -> (ok: bool)
    ensures
        ok == fills(width as nat, height as nat, count as nat),
{
    if count > usize::MAX / 4 {
        return false;
    }
    match width.checked_mul(height) {
        Some(area) => area == count,
        None => false,
    }
}

impl RgbaImage {
    /// One colour per texel, and the expanded bytes fit in memory.
    pub open spec fn wf(&self) -> bool {
        fills(self.width as nat, self.height as nat, self.pixels@.len())
    }

    /// Tests whether the image is well formed.
    pub fn is_wf(&self) -> (ok: bool)
        ensures
            ok == self.wf(),
    {
        fills_exactly(self.width, self.height, self.pixels.len())
    }

    pub open spec fn grid(&self) -> PixelGrid {
        PixelGrid {
            pixels: expand_colors(self.pixels@),
            width: self.width as nat,
            height: self.height as nat,
        }
    }
}

impl CoverageImage {
    /// One coverage value per texel, and the expanded bytes fit in memory.
    pub open spec fn wf(&self) -> bool {
        fills(self.width as nat, self.height as nat, self.coverage@.len())
    }

    /// Tests whether the atlas is well formed.
    pub fn is_wf(&self) -> (ok: bool)
        ensures
            ok == self.wf(),
    {
        fills_exactly(self.width, self.height, self.coverage.len())
    }

    pub open spec fn grid(&self) -> PixelGrid {
        PixelGrid {
            pixels: expand_coverage(self.coverage@),
            width: self.width as nat,
            height: self.height as nat,
        }
    }
}

impl ImageData {
    pub open spec fn wf(&self) -> bool {
        match self {
            ImageData::Color(image) => image.wf(),
            ImageData::Font(image) => image.wf(),
        }
    }

    /// Tests whether the payload is a well-formed image.
    pub fn is_wf(&self) -> (ok: bool)
        ensures
            ok == self.wf(),
    {
        match self {
            ImageData::Color(image) => image.is_wf(),
            ImageData::Font(image) => image.is_wf(),
        }
    }

    pub open spec fn grid(&self) -> PixelGrid {
        match self {
            ImageData::Color(image) => image.grid(),
            ImageData::Font(image) => image.grid(),
        }
    }
}

impl PixelBuffer {
    pub closed spec fn view(&self) -> PixelGrid {
        PixelGrid { pixels: self.pixels@, width: self.w as nat, height: self.h as nat }
    }

    /// Four bytes for each of the `width * height` texels.
    pub open spec fn wf(&self) -> bool {
        self@.pixels.len() == self@.width * self@.height * 4
    }

    /// Expands each texel of a colour image to its four channel bytes.
    pub fn from_color_image(image: &RgbaImage) -> (buffer: PixelBuffer)
        requires
            image.wf(),
        ensures
            buffer.wf(),
            buffer@ == image.grid(),
            buffer@.pixels.len() == image.width * image.height * 4,
    {
        let n: usize = image.pixels.len();
        let mut pix: Vec<u8> = Vec::with_capacity(n * 4);
        let mut i: usize = 0;
        while i < n
            invariant
                n == image.pixels@.len(),
                n * 4 <= usize::MAX,
                i <= n,
                pix@.len() == 4 * i,
                forall|j: int|
                    0 <= j < pix@.len() ==> pix@[j] == channel(
                        #[trigger] image.pixels@[j / 4],
                        j % 4,
                    ),
            decreases n - i,
        {
            let c: Color = image.pixels[i];
            pix.push(c.r);
            pix.push(c.g);
            pix.push(c.b);
            pix.push(c.a);
            i += 1;
        }
        proof {
            assert(pix@ =~= expand_colors(image.pixels@));
        }
        PixelBuffer { pixels: pix, w: image.width, h: image.height }
    }

    /// Expands each coverage value of a glyph atlas to a white texel whose
    /// four channels all carry that coverage.
    pub fn from_font_image(image: &CoverageImage) -> (buffer: PixelBuffer)
        requires
            image.wf(),
        ensures
            buffer.wf(),
            buffer@ == image.grid(),
            buffer@.pixels.len() == image.width * image.height * 4,
            forall|t: int, k: int|
                0 <= t < image.coverage@.len() && 0 <= k < 4 ==> #[trigger] buffer@.pixels[4 * t
                    + k] == buffer@.pixels[4 * t + 3],
    {
        let n: usize = image.coverage.len();
        let mut pix: Vec<u8> = Vec::with_capacity(n * 4);
        let mut i: usize = 0;
        while i < n
            invariant
                n == image.coverage@.len(),
                n * 4 <= usize::MAX,
                i <= n,
                pix@.len() == 4 * i,
                forall|j: int| 0 <= j < pix@.len() ==> pix@[j] == #[trigger] image.coverage@[j / 4],
            decreases n - i,
        {
            let c: u8 = image.coverage[i];
            pix.push(c);
            pix.push(c);
            pix.push(c);
            pix.push(c);
            i += 1;
        }
        proof {
            assert(pix@ =~= expand_coverage(image.coverage@));
            assert forall|t: int, k: int| 0 <= t < image.coverage@.len() && 0 <= k < 4 implies
                #[trigger] pix@[4 * t + k] == pix@[4 * t + 3] by {
                assert((4 * t + k) / 4 == t);
                assert((4 * t + 3) / 4 == t);
            }
        }
        PixelBuffer { pixels: pix, w: image.width, h: image.height }
    }

    /// Builds the buffer for either kind of image payload.
    pub fn from_image_data(image: &ImageData) -> (buffer: PixelBuffer)
        requires
            image.wf(),
        ensures
            buffer.wf(),
            buffer@ == image.grid(),
    {
        match image {
            ImageData::Color(image) => PixelBuffer::from_color_image(image),
            ImageData::Font(image) => PixelBuffer::from_font_image(image),
        }
    }

    /// Describes the texture to create for this buffer: sRGB-encoded RGBA8 with
    /// the buffer's dimensions. Fails exactly when a dimension exceeds what the
    /// backend's 32-bit extent can express.
    pub fn upload(&self) -> (result: Result<TextureHandle, PainterError>)
        ensures
            uploadable(self@) ==> result == Ok::<TextureHandle, PainterError>(handle_for(self@)),
            !uploadable(self@) ==> result == Err::<TextureHandle, PainterError>(
                PainterError::RenderBackendError,
            ),
    {
        if self.w > 0xffff_ffff || self.h > 0xffff_ffff {
            return Err(PainterError::RenderBackendError);
        }
        Ok(
            TextureHandle {
                format: TextureFormat::Rgba8UnormSrgb,
                width: self.w as u32,
                height: self.h as u32,
            },
        )
    }

    /// Copies `source` into this buffer so that its top-left texel lands at
    /// column `x`, row `y`. A source that does not lie inside the buffer is
    /// refused and the buffer is left as it was.
    pub fn blit(&mut self, source: &PixelBuffer, x: usize, y: usize) -> (result: Result<
        (),
        PainterError,
    >)
        requires
            old(self).wf(),
            source.wf(),
        ensures
            final(self).wf(),
            fits(old(self)@, source@, x as nat, y as nat) ==> result == Ok::<(), PainterError>(())
                && final(self)@ == blit_grid(old(self)@, source@, x as nat, y as nat),
            !fits(old(self)@, source@, x as nat, y as nat) ==> result == Err::<(), PainterError>(
                PainterError::BlitOutOfBounds,
            ) && final(self)@ == old(self)@,
    {
        if x > self.w || source.w > self.w - x || y > self.h || source.h > self.h - y {
            return Err(PainterError::BlitOutOfBounds);
        }
        let ghost start = self@;
        let ghost patch = source@;
        if source.w == 0 || source.h == 0 {
            proof {
                assert(self@.pixels =~= blit_grid(start, patch, x as nat, y as nat).pixels);
            }
            return Ok(());
        }
        let total: usize = self.pixels.len();
        let patch_total: usize = source.pixels.len();
        proof {
            lemma_row_inside(0, self.h as int, self.w * 4);
            lemma_row_inside(0, source.h as int, source.w * 4);
            assert(self.w * self.h * 4 == self.h * (self.w * 4)) by (nonlinear_arith);
            assert(source.w * source.h * 4 == source.h * (source.w * 4)) by (nonlinear_arith);
        }
        let stride: usize = self.w * 4;
        let patch_stride: usize = source.w * 4;
        let mut r: usize = 0;
        while r < source.h
            invariant
                r <= source.h,
                source@ == patch,
                patch.pixels.len() == patch.height * (patch.width * 4),
                start.pixels.len() == start.height * (start.width * 4),
                self@.width == start.width,
                self@.height == start.height,
                self@.pixels.len() == start.pixels.len(),
                start.pixels.len() == total,
                patch.pixels.len() == patch_total,
                stride == start.width * 4,
                patch_stride == patch.width * 4,
                patch_stride > 0,
                x + patch.width <= start.width,
                y + patch.height <= start.height,
                forall|i: int|
                    0 <= i < start.pixels.len() ==> #[trigger] self@.pixels[i] == blit_byte(
                        start,
                        patch,
                        x as nat,
                        y as nat,
                        r as nat,
                        i,
                    ),
            decreases source.h - r,
        {
            proof {
                lemma_row_inside((y + r) as int, start.height as int, stride as int);
                lemma_row_inside(r as int, patch.height as int, patch_stride as int);
            }
            let row_start: usize = (y + r) * stride + 4 * x;
            let patch_start: usize = r * patch_stride;
            let mut c: usize = 0;
            while c < patch_stride
                invariant
                    c <= patch_stride,
                    r < source.h,
                    source@ == patch,
                    self@.width == start.width,
                    self@.height == start.height,
                    self@.pixels.len() == start.pixels.len(),
                    start.pixels.len() == total,
                    patch.pixels.len() == patch_total,
                    stride == start.width * 4,
                    patch_stride == patch.width * 4,
                    4 * x + patch_stride <= stride,
                    row_start == (y + r) * stride + 4 * x,
                    row_start + patch_stride <= start.pixels.len(),
                    patch_start == r * patch_stride,
                    patch_start + patch_stride <= patch.pixels.len(),
                    forall|i: int|
                        0 <= i < start.pixels.len() ==> #[trigger] self@.pixels[i] == (if i / (
                        stride as int) == y + r && 4 * x <= i % (stride as int) < 4 * x + c {
                            patch.pixels[patch_start + (i % (stride as int) - 4 * x)]
                        } else {
                            blit_byte(start, patch, x as nat, y as nat, r as nat, i)
                        }),
                decreases patch_stride - c,
            {
                let byte: u8 = source.pixels[patch_start + c];
                let ghost before = self@.pixels;
                let ghost at = (row_start + c) as int;
                self.pixels.set(row_start + c, byte);
                proof {
                    lemma_fundamental_div_mod_converse(
                        at,
                        stride as int,
                        (y + r) as int,
                        (4 * x + c) as int,
                    );
                    assert forall|i: int| 0 <= i < start.pixels.len() implies #[trigger] self@.pixels[i]
                        == (if i / (stride as int) == y + r && 4 * x <= i % (stride as int) < 4 * x
                        + c + 1 {
                        patch.pixels[patch_start + (i % (stride as int) - 4 * x)]
                    } else {
                        blit_byte(start, patch, x as nat, y as nat, r as nat, i)
                    }) by {
                        if i != at {
                            assert(self@.pixels[i] == before[i]);
                            lemma_fundamental_div_mod(i, stride as int);
                            if i / (stride as int) == y + r {
                                assert(i % (stride as int) != 4 * x + c);
                            }
                        }
                    }
                }
                c += 1;
            }
            proof {
                assert forall|i: int| 0 <= i < start.pixels.len() implies #[trigger] self@.pixels[i]
                    == blit_byte(start, patch, x as nat, y as nat, (r + 1) as nat, i) by {
                    let row = i / (stride as int);
                    if row == y + r {
                        assert((row - y) * (patch.width * 4) == patch_start);
                    }
                }
            }
            r += 1;
        }
        proof {
            assert(self@.pixels =~= blit_grid(start, patch, x as nat, y as nat).pixels);
        }
        Ok(())
    }

    pub fn width(&self) -> (w: usize)
        ensures
            w == self@.width,
    {
        self.w
    }

    pub fn height(&self) -> (h: usize)
        ensures
            h == self@.height,
    {
        self.h
    }

    /// The bytes of the buffer, row-major, four per texel.
    pub fn pixels(&self) -> (bytes: &Vec<u8>)
        ensures
            bytes@ == self@.pixels,
    {
        &self.pixels
    }
}

} // verus!
