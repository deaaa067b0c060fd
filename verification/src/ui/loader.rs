//! What the logic thread hands to the render thread to have a picture made:
//! the pixels of a decoded bitmap, or the modules of a QR code.

use crate::ui::citro2d::{fit, TexDimError, TEX_DIM_MAX};
use crate::ui::id_set::{bits, bits_contains, bits_insert, bits_new};
use crate::ui::texture::{nybbles_of, painted, Image, Luminance4, TexColor, RGBA8};
use bit_set::BitSet;
use vstd::prelude::*;

verus! {

/// Something that a picture can be made of, on the render thread.
pub trait ImageLoader: Sized {
    /// The width of the picture, in pixels.
    spec fn spec_width(&self) -> int;

    /// The height of the picture, in pixels.
    spec fn spec_height(&self) -> int;

    /// The format of the texture that is made.
    spec fn spec_format(&self) -> TexColor;

    /// The bytes of the texture that is made, where one can be made.
    spec fn texture_bytes(&self) -> Seq<u8>;

    /// Makes the picture: the smallest texture that holds it, with every
    /// pixel written. It fails if a side is more than `TEX_DIM_MAX`.
    fn load(self) -> (result: Result<Image, TexDimError>)
        ensures
            result is Ok <==> self.spec_width() <= TEX_DIM_MAX && self.spec_height()
                <= TEX_DIM_MAX,
            result matches Ok(image) ==> {
                let texture = image.spec_texture();
                &&& image.spec_width() == self.spec_width()
                &&& image.spec_height() == self.spec_height()
                &&& texture.wf()
                &&& texture.spec_width() == fit(self.spec_width())
                &&& texture.spec_height() == fit(self.spec_height())
                &&& texture.spec_format() == self.spec_format()
                &&& !texture.spec_filter()
                &&& texture.bytes() == self.texture_bytes()
            },
    ;
}

/// The word that the four bytes of a pixel make, the first byte highest.
pub open spec fn be_word(b0: u8, b1: u8, b2: u8, b3: u8) -> u32 {
    (b0 as u32) << 24 | (b1 as u32) << 16 | (b2 as u32) << 8 | (b3 as u32)
}

/// The pixels that `bytes` hold, four bytes each: red, green, blue, alpha.
pub open spec fn be_words(bytes: Seq<u8>) -> Seq<u32> {
    Seq::new(
        bytes.len() / 4,
        |k: int| be_word(bytes[4 * k], bytes[4 * k + 1], bytes[4 * k + 2], bytes[4 * k + 3]),
    )
}

/// A decoded picture: its pixels row by row, each with red in the highest
/// byte and alpha in the lowest.
pub struct Bitmap {
    width: u16,
    height: u16,
    pixels: Vec<u32>,
}

impl Bitmap {
    #[verifier::type_invariant]
    spec fn valid(self) -> bool {
        self.pixels@.len() == self.width * self.height
    }

    /// The width in pixels.
    pub closed spec fn width(self) -> u16 {
        self.width
    }

    /// The height in pixels.
    pub closed spec fn height(self) -> u16 {
        self.height
    }

    /// The pixels, row by row.
    pub closed spec fn pixels(self) -> Seq<u32> {
        self.pixels@
    }

    /// The bitmap of `width` by `height` pixels that `bytes` hold with four
    /// bytes for a pixel, if `bytes` has that many pixels and no side is
    /// more than 65535.
    pub fn from_rgba(width: u32, height: u32, bytes: &Vec<u8>) -> (result: Option<Self>)
        ensures
            result is Some <==> width <= u16::MAX && height <= u16::MAX && bytes@.len() == 4
                * width * height,
            result matches Some(bitmap) ==> {
                &&& bitmap.width() == width
                &&& bitmap.height() == height
                &&& bitmap.pixels() == be_words(bytes@)
            },
    {
        if width > 0xffff || height > 0xffff {
            return None;
        }
        assert(width * height <= 0xffff * 0xffff) by (nonlinear_arith)
            requires
                width <= 0xffff,
                height <= 0xffff,
        ;
        let count = (width as u64) * (height as u64);
        if bytes.len() as u64 != 4 * count {
            assert(4 * width * height == 4 * (width * height)) by (nonlinear_arith);
            return None;
        }
        assert(4 * width * height == 4 * (width * height)) by (nonlinear_arith);
        let mut pixels: Vec<u32> = Vec::new();
        let mut k: usize = 0;
        while k < bytes.len() / 4
            invariant
                bytes@.len() == 4 * count,
                k <= bytes@.len() / 4,
                pixels@.len() == k,
                forall|i: int| 0 <= i < k ==> pixels@[i] == #[trigger] be_words(bytes@)[i],
            decreases bytes@.len() / 4 - k,
        {
            let b0 = bytes[4 * k] as u32;
            let b1 = bytes[4 * k + 1] as u32;
            let b2 = bytes[4 * k + 2] as u32;
            let b3 = bytes[4 * k + 3] as u32;
            pixels.push(b0 << 24 | b1 << 16 | b2 << 8 | b3);
            k = k + 1;
        }
        assert(pixels@ =~= be_words(bytes@));
        Some(Bitmap { width: width as u16, height: height as u16, pixels })
    }
}

impl Bitmap {
    /// The width in pixels.
    pub fn get_width(&self) -> (width: u16)
        ensures
            width == self.width(),
    {
        self.width
    }

    /// The height in pixels.
    pub fn get_height(&self) -> (height: u16)
        ensures
            height == self.height(),
    {
        self.height
    }
}

impl ImageLoader for Bitmap {
    closed spec fn spec_width(&self) -> int {
        self.width as int
    }

    closed spec fn spec_height(&self) -> int {
        self.height as int
    }

    open spec fn spec_format(&self) -> TexColor {
        TexColor::Rgba8
    }

    closed spec fn texture_bytes(&self) -> Seq<u8> {
        let side = fit(self.width as int);
        let len = side * fit(self.height as int) * 4;
        painted::<RGBA8>(
            Seq::new(len as nat, |i: int| 0u8),
            self.pixels@,
            self.width as int,
            side,
            self.width * self.height,
        )
    }

    fn load(self) -> (result: Result<Image, TexDimError>) {
        proof {
            use_type_invariant(&self);
        }
        let result = Image::build(RGBA8, self.width, self.height, &self.pixels);
        proof {
            let w = fit(self.width as int);
            let h = fit(self.height as int);
            assert(w * h * 8 / 2 == w * h * 4) by (nonlinear_arith);
        }
        result
    }
}

/// The luminance of a dark module of a QR code.
pub const DARK: u8 = 0;

/// The luminance of a light module of a QR code.
pub const LIGHT: u8 = 15;

/// The modules of a QR code, row by row: `DARK` for each number in `dark`,
/// `LIGHT` for the others.
pub open spec fn module_pixels(dark: Set<usize>, count: int) -> Seq<u8> {
    Seq::new(
        count as nat,
        |i: int|
            if dark.contains(i as usize) {
                DARK
            } else {
                LIGHT
            },
    )
}

/// A canvas on which a QR code is drawn, one module for a pixel. Every
/// module is light until it is drawn dark.
pub struct QrCanvas {
    bits: BitSet,
    width: u32,
    height: u32,
}

impl QrCanvas {
    /// The numbers of the dark modules, counted row by row.
    pub closed spec fn dark(&self) -> Set<usize> {
        bits(self.bits)
    }

    /// The width in modules.
    pub closed spec fn width(&self) -> u32 {
        self.width
    }

    /// The height in modules.
    pub closed spec fn height(&self) -> u32 {
        self.height
    }

    /// A canvas of `width` by `height` light modules.
    pub fn new(width: u32, height: u32) -> (canvas: Self)
        ensures
            canvas.width() == width,
            canvas.height() == height,
            canvas.dark() == Set::<usize>::empty(),
    {
        QrCanvas { bits: bits_new(), width, height }
    }

    /// Makes the module in column `x` and row `y` dark. A module outside the
    /// canvas, or one whose number is no `usize`, is left out.
    pub fn draw_dark_pixel(&mut self, x: u32, y: u32)
        ensures
            final(self).width() == old(self).width(),
            final(self).height() == old(self).height(),
            final(self).dark() == if x < old(self).width() && y < old(self).height() && y * old(self).width() + x < usize::MAX {
                old(self).dark().insert((y * old(self).width() + x) as usize)
            } else {
                old(self).dark()
            },
    {
        if x < self.width && y < self.height {
            assert(y * self.width + x <= 0xffff_ffff * 0xffff_ffff + 0xffff_ffff)
                by (nonlinear_arith)
                requires
                    y <= 0xffff_ffff,
                    self.width <= 0xffff_ffff,
                    x <= 0xffff_ffff,
            ;
            let index = (y as u64) * (self.width as u64) + (x as u64);
            if index < usize::MAX as u64 {
                let _ = bits_insert(&mut self.bits, index as usize);
            }
        }
    }

    /// The width in modules.
    pub fn get_width(&self) -> (width: u32)
        ensures
            width == self.width(),
    {
        self.width
    }

    /// The height in modules.
    pub fn get_height(&self) -> (height: u32)
        ensures
            height == self.height(),
    {
        self.height
    }
}

impl ImageLoader for QrCanvas {
    closed spec fn spec_width(&self) -> int {
        self.width as int
    }

    closed spec fn spec_height(&self) -> int {
        self.height as int
    }

    open spec fn spec_format(&self) -> TexColor {
        TexColor::L4
    }

    closed spec fn texture_bytes(&self) -> Seq<u8> {
        let side = fit(self.width as int);
        let len = side * fit(self.height as int) / 2;
        painted::<Luminance4>(
            Seq::new(len as nat, |i: int| 0u8),
            module_pixels(bits(self.bits), self.width * self.height),
            self.width as int,
            side,
            self.width * self.height,
        )
    }

    fn load(self) -> (result: Result<Image, TexDimError>) {
        if self.width > TEX_DIM_MAX as u32 || self.height > TEX_DIM_MAX as u32 {
            return Err(TexDimError);
        }
        assert(self.width * self.height <= 1024 * 1024) by (nonlinear_arith)
            requires
                self.width <= 1024,
                self.height <= 1024,
        ;
        let count = (self.width as usize) * (self.height as usize);
        let mut pixels: Vec<u8> = Vec::new();
        let mut i: usize = 0;
        while i < count
            invariant
                i <= count,
                pixels@.len() == i,
                forall|k: int|
                    0 <= k < i ==> pixels@[k] == #[trigger] module_pixels(
                        bits(self.bits),
                        count as int,
                    )[k],
            decreases count - i,
        {
            let pixel = if bits_contains(&self.bits, i) {
                DARK
            } else {
                LIGHT
            };
            pixels.push(pixel);
            i = i + 1;
        }
        assert(pixels@ =~= module_pixels(bits(self.bits), count as int));
        let result = Image::build(Luminance4, self.width as u16, self.height as u16, &pixels);
        proof {
            let w = fit(self.width as int);
            let h = fit(self.height as int);
            assert(w * h * 1 / 2 == w * h / 2) by (nonlinear_arith);
        }
        result
    }
}

/// Either kind of picture.
pub enum Loader {
    /// A decoded bitmap.
    Bitmap(Bitmap),
    /// A QR code.
    Code(QrCanvas),
}

impl ImageLoader for Loader {
    open spec fn spec_width(&self) -> int {
        match self {
            Loader::Bitmap(bitmap) => bitmap.spec_width(),
            Loader::Code(canvas) => canvas.spec_width(),
        }
    }

    open spec fn spec_height(&self) -> int {
        match self {
            Loader::Bitmap(bitmap) => bitmap.spec_height(),
            Loader::Code(canvas) => canvas.spec_height(),
        }
    }

    open spec fn spec_format(&self) -> TexColor {
        match self {
            Loader::Bitmap(bitmap) => bitmap.spec_format(),
            Loader::Code(canvas) => canvas.spec_format(),
        }
    }

    open spec fn texture_bytes(&self) -> Seq<u8> {
        match self {
            Loader::Bitmap(bitmap) => bitmap.texture_bytes(),
            Loader::Code(canvas) => canvas.texture_bytes(),
        }
    }

    fn load(self) -> (result: Result<Image, TexDimError>) {
        match self {
            Loader::Bitmap(bitmap) => bitmap.load(),
            Loader::Code(canvas) => canvas.load(),
        }
    }
}

} // verus!
