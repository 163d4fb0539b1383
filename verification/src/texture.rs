//! From the bytes of a PNG file to the bytes of a texture.
//!
//! A picture is decoded into RGBA bytes, row by row from the top. A texture
//! holds its rows from the bottom, so the rows are put in reverse order.

use glium::texture::RawImage2d;
use std::io::Cursor;
use vstd::prelude::*;

verus! {

/// The picture that the bytes of a PNG file encode, as the `image` crate
/// decodes it: its width, its height and its RGBA bytes from the top row
/// down; `None` where the bytes are no PNG file that it accepts.
pub uninterp spec fn png_picture(bytes: Seq<u8>) -> Option<(u32, u32, Seq<u8>)>;

/// The rows of `data`, each `row` bytes long, in reverse order. Where the
/// length of `data` is no multiple of `row`, the last row is the short one.
pub open spec fn rows_reversed(data: Seq<u8>, row: int) -> Seq<u8>
    decreases data.len(),
{
    if row <= 0 || data.len() <= row {
        data
    } else {
        rows_reversed(data.subrange(row, data.len() as int), row) + data.subrange(0, row)
    }
}

/// The texture of a decoded picture: the same size, the rows from the
/// bottom up. There is none where there is no picture, or where the picture
/// does not hold four bytes for each of its pixels.
pub open spec fn texture_of(picture: Option<(u32, u32, Seq<u8>)>) -> Option<(u32, u32, Seq<u8>)> {
    match picture {
        Some((width, height, data)) => if data.len() == 4 * width * height {
            Some((width, height, rows_reversed(data, 4 * width)))
        } else {
            None
        },
        None => None,
    }
}

/// Reversing the rows keeps the length; and where all rows are full, byte
/// `j` of row `i` of the result is byte `j` of row `i` from the end.
pub proof fn lemma_rows_reversed(data: Seq<u8>, row: int, rows: int, i: int, j: int)
    requires
        row > 0,
        rows >= 0,
        data.len() == row * rows,
        0 <= i < rows,
        0 <= j < row,
    ensures
        rows_reversed(data, row).len() == data.len(),
        0 <= i * row + j < data.len(),
        0 <= (rows - 1 - i) * row + j < data.len(),
        rows_reversed(data, row)[i * row + j] == data[(rows - 1 - i) * row + j],
    decreases rows,
{
    lemma_rows_reversed_length(data, row);
    assert(0 <= i * row + j < row * rows && 0 <= (rows - 1 - i) * row + j < row * rows)
        by (nonlinear_arith)
        requires
            row > 0,
            0 <= i < rows,
            0 <= j < row,
    ;
    if rows > 1 {
        assert(data.len() == row * (rows - 1) + row && row * (rows - 1) >= row)
            by (nonlinear_arith)
            requires
                data.len() == row * rows,
                rows > 1,
                row > 0,
        ;
        let rest = data.subrange(row, data.len() as int);
        lemma_rows_reversed_length(rest, row);
        if i < rows - 1 {
            lemma_rows_reversed(rest, row, rows - 1, i, j);
            assert((rows - 1 - i) * row + j == (rows - 1 - 1 - i) * row + j + row)
                by (nonlinear_arith);
        } else {
            assert(i * row + j == row * (rows - 1) + j && (rows - 1 - i) * row + j == j)
                by (nonlinear_arith)
                requires
                    i == rows - 1,
            ;
        }
    } else {
        assert(data.len() == row) by (nonlinear_arith)
            requires
                data.len() == row * rows,
                rows == 1,
        ;
    }
}

/// Reversing the rows keeps the length.
pub proof fn lemma_rows_reversed_length(data: Seq<u8>, row: int)
    ensures
        rows_reversed(data, row).len() == data.len(),
    decreases data.len(),
{
    if row > 0 && data.len() > row {
        lemma_rows_reversed_length(data.subrange(row, data.len() as int), row);
    }
}

/// The bytes of a texture: RGBA, row by row from the bottom.
#[derive(Debug, PartialEq, Eq)]
pub struct Picture {
    pub width: u32,
    pub height: u32,
    pub data: Vec<u8>,
}

impl View for Picture {
    type V = (u32, u32, Seq<u8>);

    open spec fn view(&self) -> (u32, u32, Seq<u8>) {
        (self.width, self.height, self.data@)
    }
}

/// A picture with its bytes as a sequence.
pub open spec fn picture_view(picture: Option<(u32, u32, Vec<u8>)>) -> Option<
    (u32, u32, Seq<u8>),
> {
    match picture {
        Some((width, height, data)) => Some((width, height, data@)),
        None => None,
    }
}

/// A texture with its bytes as a sequence.
pub open spec fn texture_view(texture: Option<Picture>) -> Option<(u32, u32, Seq<u8>)> {
    match texture {
        Some(picture) => Some(picture@),
        None => None,
    }
}

/// Decodes a PNG file with `image::load`, and converts what it gives to
/// RGBA bytes with `to_rgba8`, `dimensions` and `into_raw`.
///
/// Believed, not proved: the outcome depends on the bytes alone. Nothing
/// else is claimed of it.
#[verifier::external_body]
fn decode_png(bytes: &[u8]) -> (decoded: Option<(u32, u32, Vec<u8>)>)
    ensures
        picture_view(decoded) == png_picture(bytes@),
{
    match image::load(Cursor::new(bytes), image::ImageFormat::Png) {
        Ok(image) => {
            let image = image.to_rgba8();
            let (width, height) = image.dimensions();
            Some((width, height, image.into_raw()))
        },
        Err(_) => None,
    }
}

/// Reverses the rows of RGBA bytes with glium's
/// `RawImage2d::from_raw_rgba_reversed`, and hands back the bytes of what
/// it builds.
///
/// Believed, not proved: the function cuts the bytes into pieces of four
/// times the width, the last one shorter where they do not divide, and
/// strings the pieces together from the last to the first. It panics on
/// pieces of no length, which the precondition excludes.
#[verifier::external_body]
fn reverse_rows(data: &[u8], width: u32, height: u32) -> (reversed: Vec<u8>)
    requires
        width > 0,
        4 * width <= usize::MAX,
    ensures
        reversed@ == rows_reversed(data@, 4 * width),
{
    RawImage2d::from_raw_rgba_reversed(data, (width, height)).data.into_owned()
}

/// Makes the texture of a decoded picture.
pub fn texture_from(picture: Option<(u32, u32, Vec<u8>)>) -> (texture: Option<Picture>)
    ensures
        texture_view(texture) == texture_of(picture_view(picture)),
{
    match picture {
        Some((width, height, data)) => {
            let pixels: u64 = pixel_count(width, height);
            let length: u128 = data.len() as u128;
            assert(4 * width * height == 4 * (width * height)) by (nonlinear_arith);
            if length != 4 * (pixels as u128) {
                None
            } else if data.len() == 0 {
                assert(rows_reversed(data@, 4 * width) == data@);
                Some(Picture { width, height, data })
            } else {
                assert(width > 0 && 4 * width <= data@.len()) by (nonlinear_arith)
                    requires
                        data@.len() == 4 * (width * height),
                        data@.len() > 0,
                ;
                let reversed = reverse_rows(data.as_slice(), width, height);
                Some(Picture { width, height, data: reversed })
            }
        },
        None => None,
    }
}

/// The number of pixels of a picture.
fn pixel_count(width: u32, height: u32) -> (count: u64)
    ensures
        count == width * height,
{
    assert(width * height <= 0xffff_ffff * 0xffff_ffff) by (nonlinear_arith)
        requires
            width <= 0xffff_ffff,
            height <= 0xffff_ffff,
    ;
    (width as u64) * (height as u64)
}

/// Decodes a PNG file and makes the texture of the picture in it.
///
/// Returns `None` where the bytes are no PNG file.
pub fn load_png_texture(bytes: &[u8]) -> (texture: Option<Picture>)
    ensures
        texture_view(texture) == texture_of(png_picture(bytes@)),
{
    texture_from(decode_png(bytes))
}

} // verus!
