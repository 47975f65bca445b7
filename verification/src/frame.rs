use vstd::arithmetic::div_mod::lemma_fundamental_div_mod_converse;
use vstd::prelude::*;

verus! {

/// The mathematical picture behind a `PixelBuffer`: its sides and its
/// brightness values, row after row.
pub struct Raster {
    pub width: nat,
    pub height: nat,
    pub bytes: Seq<u8>,
}

impl Raster {
    /// The sides are those of a buffer, and there is exactly one byte per
    /// pixel.
    pub open spec fn wf(self) -> bool {
        &&& self.width <= u32::MAX
        &&& self.height <= u32::MAX
        &&& self.bytes.len() == self.width * self.height
    }

    /// The window of the given size whose top left corner lies at column `x`
    /// of row `y`.
    pub open spec fn region(self, x: nat, y: nat, width: nat, height: nat) -> Raster
        recommends
            x + width <= self.width,
            y + height <= self.height,
    {
        Raster {
            width,
            height,
            bytes: Seq::new(
                width * height,
                |k: int| self.bytes[(y + k / (width as int)) * self.width + x + k % (width as int)],
            ),
        }
    }
}

/// The brightness of one colored pixel: 0.299 of its red, 0.587 of its green
/// and 0.114 of its blue, rounded down.
pub open spec fn luma(red: u8, green: u8, blue: u8) -> u8 {
    ((299 * red + 587 * green + 114 * blue) / 1000) as u8
}

/// The gray picture of a run of pixels of four bytes each (red, green, blue
/// and opacity): one brightness value per complete pixel.
pub open spec fn gray_of(rgba: Seq<u8>) -> Seq<u8> {
    Seq::new(rgba.len() / 4, |k: int| luma(rgba[4 * k], rgba[4 * k + 1], rgba[4 * k + 2]))
}

/// A gray picture: one byte of brightness per pixel, row after row.
#[derive(Debug, PartialEq, Eq)]
pub struct PixelBuffer {
    width: u32,
    height: u32,
    bytes: Vec<u8>,
}

impl Clone for PixelBuffer {
    fn clone(&self) -> (copy: Self)
        ensures
            copy@ == self@,
    {
        proof {
            use_type_invariant(self);
        }
        PixelBuffer { width: self.width, height: self.height, bytes: self.bytes.clone() }
    }
}

impl View for PixelBuffer {
    type V = Raster;

    closed spec fn view(&self) -> Raster {
        Raster { width: self.width as nat, height: self.height as nat, bytes: self.bytes@ }
    }
}

/// The brightness of one colored pixel.
pub fn luma_of(red: u8, green: u8, blue: u8) -> (gray: u8)
    ensures
        gray == luma(red, green, blue),
{
    let weighted: u32 = 299 * (red as u32) + 587 * (green as u32) + 114 * (blue as u32);
    (weighted / 1000) as u8
}

impl PixelBuffer {
    #[verifier::type_invariant]
    spec fn one_byte_per_pixel(&self) -> bool {
        self.bytes@.len() == self.width * self.height
    }

    /// Makes a picture of the given sides out of `bytes`, if there is exactly
    /// one byte per pixel.
    pub fn new(width: u32, height: u32, bytes: Vec<u8>) -> (made: Option<PixelBuffer>)
        ensures
            made is Some <==> bytes@.len() == width * height,
            made matches Some(buffer) ==> buffer@ == (Raster {
                width: width as nat,
                height: height as nat,
                bytes: bytes@,
            }),
    {
        if bytes.len() as u64 == area(width, height) {
            Some(PixelBuffer { width, height, bytes })
        } else {
            None
        }
    }

    /// Makes the gray picture of a colored frame of four bytes per pixel, if
    /// `rgba` holds exactly the pixels of a frame of the given sides.
    pub fn from_rgba(rgba: &Vec<u8>, width: u32, height: u32) -> (made: Option<PixelBuffer>)
        ensures
            made is Some <==> rgba@.len() == 4 * (width * height),
            made matches Some(buffer) ==> buffer@ == (Raster {
                width: width as nat,
                height: height as nat,
                bytes: gray_of(rgba@),
            }),
    {
        let pixels: u64 = area(width, height);
        if rgba.len() % 4 != 0 || (rgba.len() / 4) as u64 != pixels {
            return None;
        }
        let count: usize = rgba.len() / 4;
        let mut bytes: Vec<u8> = Vec::with_capacity(count);
        let mut k: usize = 0;
        while k < count
            invariant
                k <= count,
                count * 4 == rgba@.len(),
                rgba@.len() <= usize::MAX,
                bytes@.len() == k,
                forall|j: int| 0 <= j < k ==> #[trigger] bytes@[j] == gray_of(rgba@)[j],
            decreases count - k,
        {
            bytes.push(luma_of(rgba[4 * k], rgba[4 * k + 1], rgba[4 * k + 2]));
            k += 1;
        }
        assert(bytes@ =~= gray_of(rgba@));
        Some(PixelBuffer { width, height, bytes })
    }

    /// The number of pixels in a row.
    pub fn width(&self) -> (width: u32)
        ensures
            width == self@.width,
            self@.wf(),
    {
        proof {
            use_type_invariant(self);
        }
        self.width
    }

    /// The number of rows.
    pub fn height(&self) -> (height: u32)
        ensures
            height == self@.height,
            self@.wf(),
    {
        proof {
            use_type_invariant(self);
        }
        self.height
    }

    /// The brightness values, row after row.
    pub fn bytes(&self) -> (bytes: &Vec<u8>)
        ensures
            bytes@ == self@.bytes,
            self@.wf(),
    {
        proof {
            use_type_invariant(self);
        }
        &self.bytes
    }

    /// The window of the given size whose top left corner lies at column `x`
    /// of row `y`, if it lies within the picture.
    pub fn crop(&self, x: u32, y: u32, width: u32, height: u32) -> (cut: Option<PixelBuffer>)
        ensures
            self@.wf(),
            cut is Some <==> x + width <= self@.width && y + height <= self@.height,
            cut matches Some(buffer) ==> buffer@ == self@.region(
                x as nat,
                y as nat,
                width as nat,
                height as nat,
            ),
    {
        proof {
            use_type_invariant(self);
        }
        if x as u64 + width as u64 > self.width as u64 || y as u64 + height as u64
            > self.height as u64 {
            return None;
        }
        let stride: usize = self.width as usize;
        let w: usize = width as usize;
        let h: usize = height as usize;
        let source: &Vec<u8> = &self.bytes;
        assert(source.len() <= usize::MAX);
        assert(source@.len() == self.height * stride) by (nonlinear_arith)
            requires
                source@.len() == self.width * self.height,
                stride == self.width,
        ;
        let mut bytes: Vec<u8> = Vec::new();
        let mut row: usize = 0;
        while row < h
            invariant
                row <= h,
                w == width,
                h == height,
                stride == self.width,
                source@ == self@.bytes,
                source@.len() == self.height * stride,
                source@.len() <= usize::MAX,
                x + width <= self.width,
                y + height <= self.height,
                bytes@.len() == row * w,
                forall|k: int|
                    0 <= k < bytes@.len() ==> #[trigger] bytes@[k] == source@[(y + k / (w as int))
                        * stride + x + k % (w as int)],
            decreases h - row,
        {
            proof {
                lemma_row_fits(y as int + row as int, self.height as int, stride as int);
            }
            let start: usize = (y as usize + row) * stride + x as usize;
            let mut col: usize = 0;
            while col < w
                invariant
                    col <= w,
                    row < h,
                    w == width,
                    stride == self.width,
                    source@ == self@.bytes,
                    source@.len() <= usize::MAX,
                    x + width <= self.width,
                    start == (y + row) * stride + x,
                    (y + row) * stride + stride <= source@.len(),
                    bytes@.len() == row * w + col,
                    forall|k: int|
                        0 <= k < bytes@.len() ==> #[trigger] bytes@[k] == source@[(y + k / (
                        w as int)) * stride + x + k % (w as int)],
                decreases w - col,
            {
                proof {
                    lemma_fundamental_div_mod_converse(
                        row * w + col,
                        w as int,
                        row as int,
                        col as int,
                    );
                }
                bytes.push(source[start + col]);
                col += 1;
            }
            assert(row * w + w == (row + 1) * w) by (nonlinear_arith);
            row += 1;
        }
        assert(bytes@.len() == width * height) by (nonlinear_arith)
            requires
                bytes@.len() == h * w,
                w == width,
                h == height,
        ;
        assert(bytes@ =~= self@.region(x as nat, y as nat, width as nat, height as nat).bytes);
        Some(PixelBuffer { width, height, bytes })
    }
}

/// Row `row` of a picture with `rows` rows of `stride` bytes ends within it.
proof fn lemma_row_fits(row: int, rows: int, stride: int)
    by (nonlinear_arith)
    requires
        0 <= row < rows,
        0 <= stride,
    ensures
        0 <= row * stride,
        row * stride + stride <= rows * stride,
{
}

/// The number of pixels of a picture with the given sides.
fn area(width: u32, height: u32) -> (pixels: u64)
    ensures
        pixels == width * height,
{
    assert(width * height <= 0xFFFF_FFFF * 0xFFFF_FFFF) by (nonlinear_arith)
        requires
            width <= 0xFFFF_FFFF,
            height <= 0xFFFF_FFFF,
    ;
    width as u64 * height as u64
}

} // verus!
