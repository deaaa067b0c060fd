//! Colours, texture dimensions and the tiled texture layout of the GPU.

use vstd::prelude::*;

verus! {

/// There were not enough resources to complete a GPU operation.
#[derive(Debug)]
pub struct C2dMemError;

impl C2dMemError {
    /// The text shown for this error.
    pub fn to_string(&self) -> (s: String)
        ensures
            s@ == "not enough resources for GPU operation"@,
    {
        "not enough resources for GPU operation".to_owned()
    }
}

/// The colour with the given channels: red in the lowest byte, alpha in the
/// highest.
pub open spec fn spec_color32(r: u8, g: u8, b: u8, a: u8) -> int {
    r + 0x100 * g + 0x1_0000 * b + 0x100_0000 * a
}

/// Packs four channels into one colour word.
pub fn color32(r: u8, g: u8, b: u8, a: u8) -> (c: u32)
    ensures
        c == spec_color32(r, g, b, a),
{
    (r as u32) + 0x100 * (g as u32) + 0x1_0000 * (b as u32) + 0x100_0000 * (a as u32)
}

} // verus!

verus! {

/// A texture side was asked for that the GPU cannot have.
#[derive(Debug)]
pub struct TexDimError;

impl TexDimError {
    /// The text shown for this error.
    pub fn to_string(&self) -> (s: String)
        ensures
            s@ == "texture dimension too large"@,
    {
        "texture dimension too large".to_owned()
    }
}

/// The largest side that a texture can have.
pub const TEX_DIM_MAX: u16 = 1024;

/// Whether `dim` can be the side of a texture: a power of two from 8 to
/// `TEX_DIM_MAX`.
pub open spec fn is_tex_dim(dim: int) -> bool {
    dim == 8 || dim == 16 || dim == 32 || dim == 64 || dim == 128 || dim == 256 || dim == 512
        || dim == 1024
}

/// The smallest texture side that holds `dim` pixels. It is not defined
/// above `TEX_DIM_MAX`.
pub open spec fn fit(dim: int) -> int
    recommends
        dim <= TEX_DIM_MAX,
{
    if dim <= 8 {
        8
    } else if dim <= 16 {
        16
    } else if dim <= 32 {
        32
    } else if dim <= 64 {
        64
    } else if dim <= 128 {
        128
    } else if dim <= 256 {
        256
    } else if dim <= 512 {
        512
    } else {
        1024
    }
}

/// A side of a texture, in pixels: a power of two that the GPU accepts.
pub struct TexDim(u16);

impl TexDim {
    #[verifier::type_invariant]
    spec fn valid(self) -> bool {
        is_tex_dim(self.0 as int)
    }

    /// The side, in pixels.
    pub closed spec fn value(self) -> u16 {
        self.0
    }

    /// The smallest side that holds `dim` pixels, or an error if `dim` is
    /// more than `TEX_DIM_MAX`.
    pub fn to_fit(dim: u16) -> (result: Result<Self, TexDimError>)
        ensures
            dim <= TEX_DIM_MAX <==> result is Ok,
            result matches Ok(side) ==> side.value() == fit(dim as int) && is_tex_dim(
                side.value() as int,
            ),
    {
        if dim > TEX_DIM_MAX {
            return Err(TexDimError);
        }
        let mut side: u16 = 8;
        while side < dim
            invariant
                dim <= TEX_DIM_MAX,
                is_tex_dim(side as int),
                side == 8 || side < 2 * dim,
            decreases TEX_DIM_MAX - side,
        {
            side = side * 2;
        }
        Ok(TexDim(side))
    }

    /// The side, in pixels.
    pub fn get(&self) -> (dim: u16)
        ensures
            dim == self.value(),
            is_tex_dim(dim as int),
    {
        proof {
            use_type_invariant(self);
        }
        self.0
    }
}

/// Where the three low bits of a column go inside a tile.
pub open spec fn morton_x(x: int) -> int {
    let v = x % 8;
    if v == 0 {
        0x00
    } else if v == 1 {
        0x01
    } else if v == 2 {
        0x04
    } else if v == 3 {
        0x05
    } else if v == 4 {
        0x10
    } else if v == 5 {
        0x11
    } else if v == 6 {
        0x14
    } else {
        0x15
    }
}

/// Where the three low bits of a row go inside a tile.
#[verifier::inline]
pub open spec fn morton_y(y: int) -> int {
    2 * morton_x(y)
}

/// The index of a pixel inside its tile of 8 by 8 pixels: the bits of its
/// column and of its row, interleaved.
#[verifier::inline]
pub open spec fn spec_morton_interleave(x: int, y: int) -> int {
    morton_x(x) + morton_y(y)
}

/// The offset of a pixel in a row of tiles, in bytes.
#[verifier::inline]
pub open spec fn spec_morton_offset(x: int, y: int, bytes_per_pixel: int) -> int {
    (spec_morton_interleave(x, y) + 64 * (x / 8)) * bytes_per_pixel
}

/// The offset of a pixel in a texture that is `width` pixels wide: in bytes
/// where a pixel takes a byte or more, in pixels where it takes four bits.
#[verifier::inline]
pub open spec fn spec_buffer_offset(x: int, y: int, width: int, nybbles_per_pixel: int) -> int {
    spec_morton_offset(x, y, (nybbles_per_pixel + 1) / 2) + 8 * (y / 8) * (((nybbles_per_pixel
        + 1) / 2) * width)
}

fn morton_bits(v: usize) -> (bits: u8)
    ensures
        bits == morton_x(v as int),
        bits & 0x15 == bits,
{
    let low = v & 7;
    assert(low == v % 8) by (bit_vector)
        requires
            low == v & 7,
    ;
    let bits: u8 = if low == 0 {
        0x00
    } else if low == 1 {
        0x01
    } else if low == 2 {
        0x04
    } else if low == 3 {
        0x05
    } else if low == 4 {
        0x10
    } else if low == 5 {
        0x11
    } else if low == 6 {
        0x14
    } else {
        0x15
    };
    assert(bits & 0x15 == bits) by (bit_vector)
        requires
            bits == 0x00 || bits == 0x01 || bits == 0x04 || bits == 0x05 || bits == 0x10 || bits
                == 0x11 || bits == 0x14 || bits == 0x15,
    ;
    bits
}

/// The index of a pixel inside its tile.
pub fn morton_interleave(x: usize, y: usize) -> (index: u8)
    ensures
        index == spec_morton_interleave(x as int, y as int),
        index < 64,
{
    let a = morton_bits(x);
    let b = morton_bits(y);
    let index = a | (b << 1);
    assert(index == a + 2 * b && index < 64) by (bit_vector)
        requires
            a & 0x15 == a,
            b & 0x15 == b,
            index == a | (b << 1),
    ;
    index
}

/// Whether the offset of a pixel in a row of tiles, and the index that it
/// is computed from, are numbers of the machine.
#[verifier::inline]
pub open spec fn morton_offset_fits(x: int, y: int, bytes_per_pixel: int) -> bool {
    &&& spec_morton_interleave(x, y) + 64 * (x / 8) <= usize::MAX
    &&& bytes_per_pixel * (spec_morton_interleave(x, y) + 64 * (x / 8)) <= usize::MAX
}

/// Whether the offset of a pixel in a texture, and what it is computed
/// from, are numbers of the machine: the size of a pixel, the index of the
/// pixel in its row of tiles, the bytes of a row of pixels, and the offset
/// itself.
#[verifier::inline]
pub open spec fn buffer_offset_fits(x: int, y: int, width: int, nybbles_per_pixel: int) -> bool {
    &&& nybbles_per_pixel < usize::MAX
    &&& spec_morton_interleave(x, y) + 64 * (x / 8) <= usize::MAX
    &&& ((nybbles_per_pixel + 1) / 2) * width <= usize::MAX
    &&& ((nybbles_per_pixel + 1) / 2) * pixel_index(x, y, width) <= usize::MAX
}

/// The offsets in a texture of no more pixels and bytes a pixel than the
/// GPU takes are numbers of the machine.
pub proof fn lemma_small_offset_fits(x: int, y: int, width: int, nybbles: int)
    requires
        0 <= x <= u16::MAX,
        0 <= y <= u16::MAX,
        0 <= width <= TEX_DIM_MAX,
        0 <= nybbles <= 8,
    ensures
        buffer_offset_fits(x, y, width, nybbles),
{
    let b = (nybbles + 1) / 2;
    let tile = pixel_index(x, y, width);
    assert(0 <= 8 * (y / 8) * width <= 65528 * 1024) by (nonlinear_arith)
        requires
            0 <= 8 * (y / 8) <= 65528,
            0 <= width <= 1024,
    ;
    assert(b * width <= 4 * 1024) by (nonlinear_arith)
        requires
            0 <= b <= 4,
            0 <= width <= 1024,
    ;
    assert(b * tile <= 4 * (64 * 8191 + 63 + 65528 * 1024)) by (nonlinear_arith)
        requires
            0 <= b <= 4,
            0 <= tile <= 64 * 8191 + 63 + 65528 * 1024,
    ;
}

/// The offset of a pixel in a row of tiles.
pub fn morton_offset(x: usize, y: usize, bytes_per_pixel: usize) -> (offset: usize)
    requires
        morton_offset_fits(x as int, y as int, bytes_per_pixel as int),
    ensures
        offset == spec_morton_offset(x as int, y as int, bytes_per_pixel as int),
{
    let i = morton_interleave(x, y) as usize;
    let tiles = (x / 8) * 64;
    let index = i + tiles;
    assert(index * bytes_per_pixel == bytes_per_pixel * index) by (nonlinear_arith);
    index * bytes_per_pixel
}

/// The offset of the pixel in column `x` and row `y` of a texture that is
/// `width` pixels wide and takes `nybbles_per_pixel` times four bits for a
/// pixel: the number of the pixel times the bytes that a pixel takes. So
/// it is the number of the pixel itself for a pixel of four or eight bits,
/// and four times that number for a pixel of four bytes.
///
/// The offset must be a number of the machine. It is one wherever the
/// second condition holds, which is there for the caller's ease and asks
/// nothing more: see `lemma_small_offset_fits`.
pub fn buffer_offset(x: usize, y: usize, width: usize, nybbles_per_pixel: usize) -> (offset: usize)
    requires
        buffer_offset_fits(x as int, y as int, width as int, nybbles_per_pixel as int) || (x
            <= u16::MAX && y <= u16::MAX && width <= TEX_DIM_MAX && nybbles_per_pixel <= 8),
    ensures
        offset == spec_buffer_offset(
            x as int,
            y as int,
            width as int,
            nybbles_per_pixel as int,
        ),
        offset == pixel_index(x as int, y as int, width as int) * ((nybbles_per_pixel + 1) / 2),
        1 <= nybbles_per_pixel <= 2 ==> offset == pixel_index(x as int, y as int, width as int),
        7 <= nybbles_per_pixel <= 8 ==> offset == 4 * pixel_index(x as int, y as int, width as int),
{
    proof {
        if x <= u16::MAX && y <= u16::MAX && width <= TEX_DIM_MAX && nybbles_per_pixel <= 8 {
            lemma_small_offset_fits(
                x as int,
                y as int,
                width as int,
                nybbles_per_pixel as int,
            );
        }
    }
    let bytes_per_pixel = (nybbles_per_pixel + 1) / 2;
    let stride = bytes_per_pixel * width;
    let rows = (y / 8) * 8;
    proof {
        let b = bytes_per_pixel as int;
        let row = spec_morton_interleave(x as int, y as int) + 64 * (x as int / 8);
        let above = 8 * (y as int / 8) * width;
        let p = pixel_index(x as int, y as int, width as int);
        assert(0 <= above) by (nonlinear_arith)
            requires
                above == 8 * (y as int / 8) * width,
                0 <= y as int / 8,
                0 <= width,
        ;
        assert(b * row + b * above == b * (row + above)) by (nonlinear_arith);
        assert(0 <= b * row && 0 <= b * above) by (nonlinear_arith)
            requires
                0 <= b,
                0 <= row,
                0 <= above,
        ;
        assert(rows * stride == b * above) by (nonlinear_arith)
            requires
                rows == (y as int / 8) * 8,
                stride == b * width,
                above == 8 * (y as int / 8) * width,
        ;
        assert(rows * stride == 8 * (y as int / 8) * (b * width)) by (nonlinear_arith)
            requires
                rows == (y as int / 8) * 8,
                stride == b * width,
        ;
        assert(row * b == b * row) by (nonlinear_arith);
        lemma_buffer_offset(x as int, y as int, width as int, nybbles_per_pixel as int);
        if b == 1 {
            assert(p * 1 == p);
        }
        if b == 4 {
            assert(p * 4 == 4 * p);
        }
    }
    let within = morton_offset(x, y, bytes_per_pixel);
    within + rows * stride
}

/// The number of the pixel in column `x` and row `y`, in the order in which
/// a texture that is `width` pixels wide stores its pixels.
#[verifier::inline]
pub open spec fn pixel_index(x: int, y: int, width: int) -> int {
    spec_morton_interleave(x, y) + 64 * (x / 8) + 8 * (y / 8) * width
}

/// Every pixel of a texture has its place inside the texture.
pub proof fn lemma_pixel_index(x: int, y: int, width: int, height: int)
    requires
        0 <= x < width,
        0 <= y < height,
        width % 8 == 0,
        height % 8 == 0,
    ensures
        0 <= pixel_index(x, y, width) < width * height,
{
    let tx = x / 8;
    let ty = y / 8;
    let tw = width / 8;
    let th = height / 8;
    assert(0 <= spec_morton_interleave(x, y) <= 63);
    assert(tx <= tw - 1 && ty <= th - 1);
    assert(ty * width <= (th - 1) * width) by (nonlinear_arith)
        requires
            0 <= ty <= th - 1,
            width >= 0,
    ;
    assert(0 <= ty * width) by (nonlinear_arith)
        requires
            0 <= ty,
            width >= 0,
    ;
    assert(8 * ((th - 1) * width) == height * width - 8 * width) by (nonlinear_arith)
        requires
            height == 8 * th,
    ;
    assert(8 * ty * width == 8 * (ty * width)) by (nonlinear_arith);
    assert(width * height == height * width) by (nonlinear_arith);
}

/// The offset of a pixel is its number times the bytes that a pixel takes.
pub proof fn lemma_buffer_offset(x: int, y: int, width: int, nybbles: int)
    ensures
        spec_buffer_offset(x, y, width, nybbles) == pixel_index(x, y, width) * ((nybbles + 1) / 2),
{
    let b = (nybbles + 1) / 2;
    let m = spec_morton_interleave(x, y);
    let tx = x / 8;
    let ty = y / 8;
    assert((m + 64 * tx) * b + 8 * ty * (b * width) == (m + 64 * tx + 8 * ty * width) * b)
        by (nonlinear_arith);
}

/// Whether two tile indices of three bits each, interleaved, are told
/// apart: the even bits of the sum are the first index and the odd bits
/// the second.
proof fn lemma_interleave_split(a: u8, b: u8)
    by (bit_vector)
    requires
        a == 0x00 || a == 0x01 || a == 0x04 || a == 0x05 || a == 0x10 || a == 0x11 || a == 0x14 || a
            == 0x15,
        b == 0x00 || b == 0x01 || b == 0x04 || b == 0x05 || b == 0x10 || b == 0x11 || b == 0x14 || b
            == 0x15,
    ensures
        a + 2 * b < 64,
        ((a + 2 * b) as u8) & 0x15 == a,
        (((a + 2 * b) as u8) >> 1) & 0x15 == b,
{
}

/// Two pixels of a tile have the same index only if they are the same
/// pixel of the tile.
proof fn lemma_interleave_distinct(x1: int, y1: int, x2: int, y2: int)
    requires
        spec_morton_interleave(x1, y1) == spec_morton_interleave(x2, y2),
    ensures
        x1 % 8 == x2 % 8,
        y1 % 8 == y2 % 8,
{
    let a1 = morton_x(x1) as u8;
    let b1 = morton_x(y1) as u8;
    let a2 = morton_x(x2) as u8;
    let b2 = morton_x(y2) as u8;
    lemma_interleave_split(a1, b1);
    lemma_interleave_split(a2, b2);
    assert(a1 == a2 && b1 == b2);
}

/// The pixels of a texture that takes at least a byte for a pixel, and
/// whose sides are multiples of eight, lie inside the texture, each at a
/// multiple of the size of a pixel, and the offset of each can be
/// computed wherever the texture itself fits into memory.
pub proof fn lemma_offset_fits(x: int, y: int, width: int, height: int, nybbles: int)
    requires
        0 <= x < width,
        0 <= y < height,
        width % 8 == 0,
        height % 8 == 0,
        1 <= nybbles < usize::MAX,
        width * height * ((nybbles + 1) / 2) <= usize::MAX,
    ensures
        buffer_offset_fits(x, y, width, nybbles),
        spec_buffer_offset(x, y, width, nybbles) == pixel_index(x, y, width) * ((nybbles + 1) / 2),
        0 <= spec_buffer_offset(x, y, width, nybbles),
        spec_buffer_offset(x, y, width, nybbles) + (nybbles + 1) / 2 <= width * height * ((nybbles
            + 1) / 2),
        spec_buffer_offset(x, y, width, nybbles) % ((nybbles + 1) / 2) == 0,
{
    let b = (nybbles + 1) / 2;
    let p = pixel_index(x, y, width);
    let total = width * height;
    lemma_pixel_index(x, y, width, height);
    lemma_buffer_offset(x, y, width, nybbles);
    assert(p * b + b <= total * b && 0 <= p * b && b * p == p * b) by (nonlinear_arith)
        requires
            0 <= p < total,
            1 <= b,
    ;
    assert(total * b == width * height * b);
    assert(width <= total && total <= total * b) by (nonlinear_arith)
        requires
            total == width * height,
            1 <= height,
            0 <= width,
            1 <= b,
    ;
    assert(b * width <= total * b) by (nonlinear_arith)
        requires
            width <= total,
            1 <= b,
            0 <= width,
    ;
    assert(64 * (x / 8) + 63 < 8 * width);
    assert(8 * width <= total) by (nonlinear_arith)
        requires
            total == width * height,
            8 <= height,
            0 <= width,
    ;
    assert((p * b) % b == 0) by (nonlinear_arith)
        requires
            1 <= b,
    ;
}

/// No two pixels of a texture have the same number: the texture stores
/// each pixel in a place of its own.
pub proof fn lemma_pixel_index_distinct(x1: int, y1: int, x2: int, y2: int, width: int)
    requires
        0 <= x1 < width,
        0 <= x2 < width,
        0 <= y1,
        0 <= y2,
        width % 8 == 0,
        pixel_index(x1, y1, width) == pixel_index(x2, y2, width),
    ensures
        x1 == x2,
        y1 == y2,
{
    let row = 8 * width;
    let r1 = spec_morton_interleave(x1, y1) + 64 * (x1 / 8);
    let r2 = spec_morton_interleave(x2, y2) + 64 * (x2 / 8);
    assert(0 <= r1 < row && 0 <= r2 < row);
    let p = pixel_index(x1, y1, width);
    assert(p == (y1 / 8) * row + r1) by (nonlinear_arith)
        requires
            p == r1 + 8 * (y1 / 8) * width,
            row == 8 * width,
    ;
    assert(p == (y2 / 8) * row + r2) by (nonlinear_arith)
        requires
            p == r2 + 8 * (y2 / 8) * width,
            row == 8 * width,
    ;
    vstd::arithmetic::div_mod::lemma_fundamental_div_mod_converse(p, row, y1 / 8, r1);
    vstd::arithmetic::div_mod::lemma_fundamental_div_mod_converse(p, row, y2 / 8, r2);
    assert(y1 / 8 == y2 / 8 && r1 == r2);
    assert(x1 / 8 == x2 / 8);
    lemma_interleave_distinct(x1, y1, x2, y2);
}

/// No two pixels of a texture that takes at least a byte for a pixel have
/// the same offset.
pub proof fn lemma_buffer_offset_distinct(
    x1: int,
    y1: int,
    x2: int,
    y2: int,
    width: int,
    nybbles: int,
)
    requires
        0 <= x1 < width,
        0 <= x2 < width,
        0 <= y1,
        0 <= y2,
        width % 8 == 0,
        1 <= nybbles,
        spec_buffer_offset(x1, y1, width, nybbles) == spec_buffer_offset(x2, y2, width, nybbles),
    ensures
        x1 == x2,
        y1 == y2,
{
    let b = (nybbles + 1) / 2;
    let first = pixel_index(x1, y1, width);
    let second = pixel_index(x2, y2, width);
    lemma_buffer_offset(x1, y1, width, nybbles);
    lemma_buffer_offset(x2, y2, width, nybbles);
    assert(first == second) by (nonlinear_arith)
        requires
            first * b == second * b,
            1 <= b,
    ;
    lemma_pixel_index_distinct(x1, y1, x2, y2, width);
}

} // verus!
