//! Textures as the GPU reads them: tiles of 8 by 8 pixels, each in Morton
//! order, in a buffer that the render thread copies to the GPU.

use crate::ui::citro2d::{
    buffer_offset, fit, is_tex_dim, lemma_buffer_offset, lemma_offset_fits, lemma_pixel_index,
    pixel_index, spec_buffer_offset, TexDim, TexDimError, TEX_DIM_MAX,
};
use vstd::prelude::*;

verus! {

/// The pixel formats that this library writes.
#[derive(Clone, Copy, Debug, PartialEq, Eq, Structural)]
pub enum TexColor {
    /// Eight bits each of red, green, blue and alpha.
    Rgba8,
    /// Four bits of luminance.
    L4,
}

/// How many times four bits a pixel of `format` takes.
pub open spec fn nybbles_of(format: TexColor) -> int {
    match format {
        TexColor::Rgba8 => 8,
        TexColor::L4 => 1,
    }
}

/// The number of bytes of a texture of `width` by `height` pixels that
/// takes `nybbles` times four bits for a pixel.
pub open spec fn texture_len(width: int, height: int, nybbles: int) -> int {
    width * height * nybbles / 2
}

/// A pixel format: how large a pixel is and how it is written.
pub trait TextureFormat {
    /// What one pixel is given as.
    type Pixel: Copy;

    /// How many times four bits a pixel takes.
    spec fn spec_size() -> int;

    /// The buffer after `pixel` has been written as pixel number `index`.
    spec fn put(data: Seq<u8>, index: int, pixel: Self::Pixel) -> Seq<u8>;

    /// How many times four bits a pixel takes: from one to eight.
    fn size() -> (nybbles: usize)
        ensures
            nybbles == Self::spec_size(),
            1 <= nybbles <= 8,
    ;

    /// The name by which the GPU knows this format.
    fn color() -> (color: TexColor)
        ensures
            nybbles_of(color) == Self::spec_size(),
    ;

    /// Writes the pixel in column `x` and row `y` of a texture that is
    /// `width` pixels wide. The buffer must reach to the end of the row of
    /// tiles that holds the pixel.
    fn set(data: &mut Vec<u8>, x: u16, y: u16, width: u16, pixel: Self::Pixel)
        requires
            x < width,
            is_tex_dim(width as int),
            texture_len(width as int, 8 * (y / 8 + 1), Self::spec_size()) <= old(data)@.len(),
        ensures
            final(data)@ == Self::put(old(data)@, pixel_index(x as int, y as int, width as int), pixel),
            final(data)@.len() == old(data)@.len(),
    ;
}

/// Four bits of luminance for a pixel, two pixels in a byte.
pub struct Luminance4;

/// The byte that holds two pixels of four bits, after the low four bits of
/// `pixel` have been written to its lower half (`upper` false) or its upper
/// half.
pub open spec fn with_nybble(byte: u8, upper: bool, pixel: u8) -> u8 {
    if upper {
        (byte & 0x0f) | ((pixel & 0x0f) << 4)
    } else {
        (byte & 0xf0) | (pixel & 0x0f)
    }
}

impl TextureFormat for Luminance4 {
    type Pixel = u8;

    open spec fn spec_size() -> int {
        1
    }

    open spec fn put(data: Seq<u8>, index: int, pixel: u8) -> Seq<u8> {
        data.update(index / 2, with_nybble(data[index / 2], index % 2 == 1, pixel))
    }

    fn size() -> (nybbles: usize) {
        1
    }

    fn color() -> (color: TexColor) {
        TexColor::L4
    }

    fn set(data: &mut Vec<u8>, x: u16, y: u16, width: u16, pixel: u8) {
        proof {
            let rows = 8 * (y as int / 8 + 1);
            assert((1int + 1) / 2 == 1);
            assert(width as int * rows * 1 <= 1024 * 65536 * 4) by (nonlinear_arith)
                requires
                    0 <= width <= 1024,
                    0 <= rows <= 65536,
            ;
            lemma_offset_fits(x as int, y as int, width as int, rows, 1);
        }
        let index = buffer_offset(x as usize, y as usize, width as usize, 1);
        proof {
            let rows = 8 * (y as int / 8 + 1);
            let total = width as int * rows;
            lemma_buffer_offset(x as int, y as int, width as int, 1);
            lemma_pixel_index(x as int, y as int, width as int, rows);
            assert(total * 1 == 2 * (4 * (width as int * (y as int / 8 + 1)))) by (nonlinear_arith)
                requires
                    total == width as int * rows,
                    rows == 8 * (y as int / 8 + 1),
            ;
            assert(texture_len(width as int, rows, 1) == total * 1 / 2);
            assert((1int + 1) / 2 == 1);
            assert(index == pixel_index(x as int, y as int, width as int) * 1);
        }
        let half = index & 1;
        let at = index >> 1;
        assert(half == index % 2 && at == index / 2) by (bit_vector)
            requires
                half == index & 1,
                at == index >> 1,
        ;
        let byte = data[at];
        if half == 0 {
            data.set(at, (byte & 0xf0) | (pixel & 0x0f));
        } else {
            data.set(at, (byte & 0x0f) | ((pixel & 0x0f) << 4));
        }
    }
}

/// Eight bits each of red, green, blue and alpha: the best and the largest
/// format.
pub struct RGBA8;

/// Byte `k` of `pixel`, counted from the lowest.
pub open spec fn pixel_byte(pixel: u32, k: int) -> u8 {
    if k == 0 {
        (pixel & 0xff) as u8
    } else if k == 1 {
        ((pixel >> 8) & 0xff) as u8
    } else if k == 2 {
        ((pixel >> 16) & 0xff) as u8
    } else {
        ((pixel >> 24) & 0xff) as u8
    }
}

impl TextureFormat for RGBA8 {
    type Pixel = u32;

    open spec fn spec_size() -> int {
        8
    }

    open spec fn put(data: Seq<u8>, index: int, pixel: u32) -> Seq<u8> {
        data.update(4 * index, pixel_byte(pixel, 0)).update(
            4 * index + 1,
            pixel_byte(pixel, 1),
        ).update(4 * index + 2, pixel_byte(pixel, 2)).update(4 * index + 3, pixel_byte(pixel, 3))
    }

    fn size() -> (nybbles: usize) {
        8
    }

    fn color() -> (color: TexColor) {
        TexColor::Rgba8
    }

    fn set(data: &mut Vec<u8>, x: u16, y: u16, width: u16, pixel: u32) {
        proof {
            let rows = 8 * (y as int / 8 + 1);
            assert((8int + 1) / 2 == 4);
            assert(width as int * rows * 4 <= 1024 * 65536 * 4) by (nonlinear_arith)
                requires
                    0 <= width <= 1024,
                    0 <= rows <= 65536,
            ;
            lemma_offset_fits(x as int, y as int, width as int, rows, 8);
        }
        let at = buffer_offset(x as usize, y as usize, width as usize, 8);
        proof {
            let rows = 8 * (y as int / 8 + 1);
            let total = width as int * rows;
            lemma_buffer_offset(x as int, y as int, width as int, 8);
            lemma_pixel_index(x as int, y as int, width as int, rows);
            assert(texture_len(width as int, rows, 8) == total * 8 / 2);
            assert((8int + 1) / 2 == 4);
            assert(at == pixel_index(x as int, y as int, width as int) * 4);
        }
        let b0 = pixel & 0xff;
        let b1 = (pixel >> 8) & 0xff;
        let b2 = (pixel >> 16) & 0xff;
        let b3 = (pixel >> 24) & 0xff;
        assert(b0 < 256 && b1 < 256 && b2 < 256 && b3 < 256) by (bit_vector)
            requires
                b0 == pixel & 0xff,
                b1 == (pixel >> 8) & 0xff,
                b2 == (pixel >> 16) & 0xff,
                b3 == (pixel >> 24) & 0xff,
        ;
        data.set(at, b0 as u8);
        data.set(at + 1, b1 as u8);
        data.set(at + 2, b2 as u8);
        data.set(at + 3, b3 as u8);
    }
}

/// A texture of any format: its pixels as the GPU reads them.
pub struct AnyTexture {
    data: Vec<u8>,
    width: u16,
    height: u16,
    format: TexColor,
    filter: bool,
}

impl AnyTexture {
    /// The bytes of the texture.
    pub closed spec fn bytes(&self) -> Seq<u8> {
        self.data@
    }

    /// The width in pixels.
    pub closed spec fn spec_width(&self) -> u16 {
        self.width
    }

    /// The height in pixels.
    pub closed spec fn spec_height(&self) -> u16 {
        self.height
    }

    /// The pixel format.
    pub closed spec fn spec_format(&self) -> TexColor {
        self.format
    }

    /// Whether the GPU smooths the texture when it scales it.
    pub closed spec fn spec_filter(&self) -> bool {
        self.filter
    }

    /// Both sides are sides that the GPU accepts, and the buffer holds
    /// every pixel.
    pub open spec fn wf(&self) -> bool {
        &&& is_tex_dim(self.spec_width() as int)
        &&& is_tex_dim(self.spec_height() as int)
        &&& self.bytes().len() == texture_len(
            self.spec_width() as int,
            self.spec_height() as int,
            nybbles_of(self.spec_format()),
        )
    }

    /// A texture of `width` by `height` pixels in which every byte is zero.
    /// The GPU does not smooth it.
    pub fn new(width: TexDim, height: TexDim, format: TexColor) -> (texture: Self)
        ensures
            texture.wf(),
            texture.spec_width() == width.value(),
            texture.spec_height() == height.value(),
            texture.spec_format() == format,
            !texture.spec_filter(),
            forall|i: int| 0 <= i < texture.bytes().len() ==> texture.bytes()[i] == 0,
    {
        let w = width.get();
        let h = height.get();
        let nybbles: usize = match format {
            TexColor::Rgba8 => 8,
            TexColor::L4 => 1,
        };
        assert((w as usize) * (h as usize) <= 1024 * 1024) by (nonlinear_arith)
            requires
                w <= 1024,
                h <= 1024,
        ;
        let len = (w as usize) * (h as usize) * nybbles / 2;
        AnyTexture { data: vec![0u8; len], width: w, height: h, format, filter: false }
    }

    /// Chooses whether the GPU smooths the texture when it scales it.
    pub fn set_filter(&mut self, filter: bool)
        ensures
            final(self).spec_filter() == filter,
            final(self).bytes() == old(self).bytes(),
            final(self).spec_width() == old(self).spec_width(),
            final(self).spec_height() == old(self).spec_height(),
            final(self).spec_format() == old(self).spec_format(),
    {
        self.filter = filter;
    }

    /// The width in pixels.
    pub fn width(&self) -> (width: u16)
        ensures
            width == self.spec_width(),
    {
        self.width
    }

    /// The height in pixels.
    pub fn height(&self) -> (height: u16)
        ensures
            height == self.spec_height(),
    {
        self.height
    }

    /// The pixel format.
    pub fn format(&self) -> (format: TexColor)
        ensures
            format == self.spec_format(),
    {
        self.format
    }

    /// Whether the GPU smooths the texture when it scales it.
    pub fn filter(&self) -> (filter: bool)
        ensures
            filter == self.spec_filter(),
    {
        self.filter
    }

    /// The bytes of the texture, for the copy to the GPU.
    pub fn data(&self) -> (data: &Vec<u8>)
        ensures
            data@ == self.bytes(),
    {
        &self.data
    }
}

/// A texture whose pixels are written in the format `T`.
pub struct Texture<T: TextureFormat> {
    any: AnyTexture,
    format: T,
}

impl<T: TextureFormat> Texture<T> {
    /// The texture, without its format.
    pub closed spec fn inner(&self) -> AnyTexture {
        self.any
    }

    /// The texture is well formed and its pixels have the size of `T`.
    pub open spec fn wf(&self) -> bool {
        &&& self.inner().wf()
        &&& nybbles_of(self.inner().spec_format()) == T::spec_size()
    }

    /// A texture of `width` by `height` pixels in which every byte is zero.
    pub fn new(format: T, width: TexDim, height: TexDim) -> (texture: Self)
        ensures
            texture.wf(),
            texture.inner().spec_width() == width.value(),
            texture.inner().spec_height() == height.value(),
            !texture.inner().spec_filter(),
            forall|i: int|
                0 <= i < texture.inner().bytes().len() ==> texture.inner().bytes()[i] == 0,
    {
        Texture { any: AnyTexture::new(width, height, T::color()), format }
    }

    /// Writes the pixel in column `x` and row `y`.
    pub fn set(&mut self, x: u16, y: u16, pixel: T::Pixel)
        requires
            old(self).wf(),
            x < old(self).inner().spec_width(),
            y < old(self).inner().spec_height(),
        ensures
            final(self).wf(),
            final(self).inner().bytes() == T::put(
                old(self).inner().bytes(),
                pixel_index(x as int, y as int, old(self).inner().spec_width() as int),
                pixel,
            ),
            final(self).inner().spec_width() == old(self).inner().spec_width(),
            final(self).inner().spec_height() == old(self).inner().spec_height(),
            final(self).inner().spec_format() == old(self).inner().spec_format(),
            final(self).inner().spec_filter() == old(self).inner().spec_filter(),
    {
        let width = self.any.width;
        proof {
            let w = width as int;
            let h = self.any.height as int;
            let n = T::spec_size();
            let rows = 8 * (y as int / 8 + 1);
            assert(rows <= h);
            assert(w * rows * n <= w * h * n) by (nonlinear_arith)
                requires
                    0 <= rows <= h,
                    0 <= w,
                    0 <= n,
            ;
        }
        T::set(&mut self.any.data, x, y, width, pixel);
    }

    /// Chooses whether the GPU smooths the texture when it scales it.
    pub fn set_filter(&mut self, filter: bool)
        ensures
            final(self).inner().spec_filter() == filter,
            final(self).inner().bytes() == old(self).inner().bytes(),
            final(self).inner().spec_width() == old(self).inner().spec_width(),
            final(self).inner().spec_height() == old(self).inner().spec_height(),
            final(self).inner().spec_format() == old(self).inner().spec_format(),
    {
        self.any.set_filter(filter);
    }

    /// Gives up the format and hands out the texture.
    pub fn into_any(self) -> (any: AnyTexture)
        ensures
            any == self.inner(),
    {
        self.any
    }
}

/// The buffer after the first `count` of `pixels` have been written, row by
/// row, into a texture that is `side` pixels wide. The rows of the picture
/// are `width` pixels long.
pub open spec fn painted<T: TextureFormat>(
    data: Seq<u8>,
    pixels: Seq<T::Pixel>,
    width: int,
    side: int,
    count: int,
) -> Seq<u8>
    decreases count,
{
    if count <= 0 {
        data
    } else {
        let k = count - 1;
        T::put(
            painted::<T>(data, pixels, width, side, k),
            pixel_index(k % width, k / width, side),
            pixels[k],
        )
    }
}

/// A picture: a texture, and the size of the part of it that is shown, from
/// its first column and row.
pub struct Image {
    texture: AnyTexture,
    width: u16,
    height: u16,
}

impl Image {
    /// The texture that holds the picture.
    pub closed spec fn spec_texture(&self) -> AnyTexture {
        self.texture
    }

    /// The width of the picture, in pixels.
    pub closed spec fn spec_width(&self) -> u16 {
        self.width
    }

    /// The height of the picture, in pixels.
    pub closed spec fn spec_height(&self) -> u16 {
        self.height
    }

    /// The first `width` columns and `height` rows of `texture`.
    pub fn new(texture: AnyTexture, width: u16, height: u16) -> (image: Self)
        ensures
            image.spec_texture() == texture,
            image.spec_width() == width,
            image.spec_height() == height,
    {
        Image { texture, width, height }
    }

    /// Makes the smallest texture that holds `width` by `height` pixels and
    /// writes `pixels` into it, which holds the rows of the picture one
    /// after the other. It fails if a side is more than `TEX_DIM_MAX`.
    pub fn build<T: TextureFormat>(format: T, width: u16, height: u16, pixels: &Vec<T::Pixel>) -> (
        result: Result<Self, TexDimError>)
        requires
            pixels@.len() == width * height,
        ensures
            result is Ok <==> width <= TEX_DIM_MAX && height <= TEX_DIM_MAX,
            result matches Ok(image) ==> {
                let texture = image.spec_texture();
                &&& image.spec_width() == width
                &&& image.spec_height() == height
                &&& texture.wf()
                &&& texture.spec_width() == fit(width as int)
                &&& texture.spec_height() == fit(height as int)
                &&& nybbles_of(texture.spec_format()) == T::spec_size()
                &&& !texture.spec_filter()
                &&& texture.bytes() == painted::<T>(
                    Seq::new(texture.bytes().len(), |i: int| 0u8),
                    pixels@,
                    width as int,
                    fit(width as int),
                    width * height,
                )
            },
    {
        let tex_width = match TexDim::to_fit(width) {
            Ok(side) => side,
            Err(e) => {
                return Err(e);
            },
        };
        let tex_height = match TexDim::to_fit(height) {
            Ok(side) => side,
            Err(e) => {
                return Err(e);
            },
        };
        let mut texture = Texture::new(format, tex_width, tex_height);
        let ghost blank = texture.inner().bytes();
        let ghost side = fit(width as int);
        assert(blank =~= Seq::new(blank.len(), |i: int| 0u8));
        let mut y: u16 = 0;
        while y < height
            invariant
                y <= height,
                pixels@.len() == width * height,
                texture.wf(),
                texture.inner().spec_width() == side,
                side == fit(width as int),
                texture.inner().spec_height() == fit(height as int),
                width <= TEX_DIM_MAX,
                height <= TEX_DIM_MAX,
                !texture.inner().spec_filter(),
                texture.inner().bytes().len() == blank.len(),
                texture.inner().bytes() == painted::<T>(blank, pixels@, width as int, side, y * width),
            decreases height - y,
        {
            let mut x: u16 = 0;
            while x < width
                invariant
                    x <= width,
                    y < height,
                    pixels@.len() == width * height,
                    texture.wf(),
                    texture.inner().spec_width() == side,
                    side == fit(width as int),
                    texture.inner().spec_height() == fit(height as int),
                    width <= TEX_DIM_MAX,
                    height <= TEX_DIM_MAX,
                    !texture.inner().spec_filter(),
                    texture.inner().bytes().len() == blank.len(),
                    texture.inner().bytes() == painted::<T>(
                        blank,
                        pixels@,
                        width as int,
                        side,
                        y * width + x,
                    ),
                decreases width - x,
            {
                proof {
                    assert(y * width + x < width * height) by (nonlinear_arith)
                        requires
                            x < width,
                            y < height,
                            0 <= x,
                            0 <= y,
                    ;
                    assert(y * width <= 1024 * 1024) by (nonlinear_arith)
                        requires
                            0 <= y <= 1024,
                            0 <= width <= 1024,
                    ;
                    vstd::arithmetic::div_mod::lemma_fundamental_div_mod_converse(
                        y * width + x,
                        width as int,
                        y as int,
                        x as int,
                    );
                }
                let k = (y as usize) * (width as usize) + (x as usize);
                texture.set(x, y, pixels[k]);
                x = x + 1;
            }
            assert((y + 1) * width == y * width + width) by (nonlinear_arith);
            y = y + 1;
        }
        assert(y * width == width * height) by (nonlinear_arith)
            requires
                y == height,
        ;
        Ok(Image::new(texture.into_any(), width, height))
    }

    /// The texture that holds the picture.
    pub fn texture(&self) -> (texture: &AnyTexture)
        ensures
            *texture == self.spec_texture(),
    {
        &self.texture
    }

    /// The width of the picture, in pixels.
    pub fn width(&self) -> (width: u16)
        ensures
            width == self.spec_width(),
    {
        self.width
    }

    /// The height of the picture, in pixels.
    pub fn height(&self) -> (height: u16)
        ensures
            height == self.spec_height(),
    {
        self.height
    }
}

} // verus!
