//! Pictures: raw RGB frames, their encoded forms, and crops of detections.

use vstd::prelude::*;

verus! {

/// The codecs that pictures travel in.
#[derive(Clone, Copy, Debug, PartialEq, Eq, Structural)]
pub enum PictureType {
    Png,
    WebP,
}

/// Frames travel as PNG on the `frames` subject.
pub const FRAME_PICTURE_TYPE: PictureType = PictureType::Png;

/// Crops are re-encoded as WebP on the `recognition` subject.
pub const CROP_PICTURE_TYPE: PictureType = PictureType::WebP;

impl PictureType {
    pub open spec fn content_type_spec(self) -> Seq<char> {
        match self {
            PictureType::Png => "image/png"@,
            PictureType::WebP => "image/webp"@,
        }
    }

    pub open spec fn extension_spec(self) -> Seq<char> {
        match self {
            PictureType::Png => "png"@,
            PictureType::WebP => "webp"@,
        }
    }

    /// The media type named in a `Content-Type` header.
    pub fn content_type(self) -> (r: String)
        ensures
            r@ == self.content_type_spec(),
    {
        match self {
            PictureType::Png => String::from_str("image/png"),
            PictureType::WebP => String::from_str("image/webp"),
        }
    }

    /// The file extension of an object stored in this codec.
    pub fn extension(self) -> (r: String)
        ensures
            r@ == self.extension_spec(),
    {
        format_extension(self)
    }
}

/// Relies on image's `ImageFormat::extensions_str`, whose first entry is
/// "png" for PNG and "webp" for WebP.
#[verifier::external_body]
fn format_extension(t: PictureType) -> (r: String)
    ensures
        r@ == t.extension_spec(),
{
    let format = match t {
        PictureType::Png => image::ImageFormat::Png,
        PictureType::WebP => image::ImageFormat::WebP,
    };
    format.extensions_str()[0].to_string()
}

#[verifier::external_type_specification]
#[verifier::external_body]
pub struct ExDynamicImage(image::DynamicImage);

/// Whether `len` bytes are exactly a `width` by `height` image of three
/// channels, with no padding: the PNG encoder takes no other length.
pub open spec fn rgb_fits(width: u32, height: u32, len: nat) -> bool {
    3 * (width as int) * (height as int) == len
}

/// The PNG encoding of a `width` by `height` RGB frame, or `None` where the
/// encoder fails.
pub uninterp spec fn png_of(width: u32, height: u32, pixels: Seq<u8>) -> Option<Seq<u8>>;

/// Whether `bytes` decode as a picture in the codec `t`.
pub uninterp spec fn decodes(bytes: Seq<u8>, t: PictureType) -> bool;

/// The WebP encoding of the crop to the given rectangle (clipped to the
/// picture) of the picture that `frame` decodes to in the codec `t`, or
/// `None` where the encoder fails.
pub uninterp spec fn crop_webp_of(
    frame: Seq<u8>,
    t: PictureType,
    x: u32,
    y: u32,
    width: u32,
    height: u32,
) -> Option<Seq<u8>>;

/// Relies on image's `ImageBuffer::from_raw`, which accepts a buffer of at
/// least three bytes per pixel, and on `DynamicImage::write_to` in PNG,
/// whose encoder asserts a buffer of exactly that length (hence the
/// exact-length `requires`): the encoding depends on the dimensions and
/// pixels alone.
#[verifier::external_body]
fn png_encode(width: u32, height: u32, pixels: Vec<u8>) -> (r: Option<Vec<u8>>)
    requires
        rgb_fits(width, height, pixels@.len()),
    ensures
        r is Some <==> png_of(width, height, pixels@) is Some,
        r matches Some(b) ==> png_of(width, height, pixels@) == Some(b@),
{
    let img = image::RgbImage::from_raw(width, height, pixels)?;
    let mut out = std::io::Cursor::new(Vec::new());
    image::DynamicImage::ImageRgb8(img).write_to(&mut out, image::ImageFormat::Png).ok()?;
    Some(out.into_inner())
}

/// Relies on image's `load_from_memory_with_format`: whether it decodes
/// depends on the bytes and the codec alone.
#[verifier::external_body]
fn decode_image(bytes: &Vec<u8>, t: PictureType) -> (r: Option<image::DynamicImage>)
    ensures
        r is Some <==> decodes(bytes@, t),
{
    let format = match t {
        PictureType::Png => image::ImageFormat::Png,
        PictureType::WebP => image::ImageFormat::WebP,
    };
    image::load_from_memory_with_format(bytes, format).ok()
}

/// Relies on image's `DynamicImage::crop_imm`, which clips the rectangle to
/// the picture and never fails, and on `DynamicImage::write_to` in WebP. The
/// picture held by a `DecodedFrame` is the decoding of its source bytes.
#[verifier::external_body]
fn crop_webp(frame: &DecodedFrame, b: CropBox) -> (r: Option<Vec<u8>>)
    ensures
        r is Some <==> crop_webp_of(frame.source(), frame.codec(), b.x, b.y, b.width, b.height) is Some,
        r matches Some(v) ==> crop_webp_of(frame.source(), frame.codec(), b.x, b.y, b.width, b.height)
            == Some(v@),
{
    let cropped = frame.image.crop_imm(b.x, b.y, b.width, b.height);
    let mut out = std::io::Cursor::new(Vec::new());
    cropped.write_to(&mut out, image::ImageFormat::WebP).ok()?;
    Some(out.into_inner())
}

/// A rectangle of a picture in pixels.
#[derive(Clone, Copy, Debug, PartialEq, Eq, Structural)]
pub struct CropBox {
    pub x: u32,
    pub y: u32,
    pub width: u32,
    pub height: u32,
}

#[derive(Clone, Copy, Debug, PartialEq, Eq, Structural)]
pub enum MediaError {
    /// The raw buffer is not exactly three bytes per pixel of the frame.
    FrameSizeMismatch,
    Encode,
    Decode,
}

pub fn copy_bytes(b: &Vec<u8>) -> (r: Vec<u8>)
    ensures
        r@ == b@,
{
    let mut out: Vec<u8> = Vec::new();
    let mut i: usize = 0;
    while i < b.len()
        invariant
            i <= b@.len(),
            out@ == b@.take(i as int),
        decreases b@.len() - i,
    {
        out.push(b[i]);
        assert(b@.take(i + 1) =~= b@.take(i as int).push(b@[i as int]));
        i = i + 1;
    }
    assert(b@.take(b@.len() as int) =~= b@);
    out
}

/// Whether a buffer of `len` bytes is exactly a `width` by `height` RGB frame.
pub fn frame_fits(width: u32, height: u32, len: usize) -> (r: bool)
    ensures
        r == rgb_fits(width, height, len as nat),
{
    let w = width as u128;
    let h = height as u128;
    assert(w * h <= 0xffff_ffffu128 * 0xffff_ffffu128) by (nonlinear_arith)
        requires
            w <= 0xffff_ffffu128,
            h <= 0xffff_ffffu128,
    ;
    let wh: u128 = w * h;
    let need: u128 = 3 * wh;
    assert(need as int == 3 * (width as int) * (height as int)) by (nonlinear_arith)
        requires
            need == 3 * wh,
            wh == w * h,
            w == width,
            h == height,
    ;
    need == len as u128
}

/// Where row `y` of a frame starts in a buffer.
pub open spec fn row_start(offset: int, stride: int, y: int) -> int {
    offset + y * stride
}

/// Whether every one of `height` rows of `row` bytes lies inside a buffer of
/// `len` bytes.
pub open spec fn rows_inside(len: int, row: int, stride: int, offset: int, height: int) -> bool {
    forall|y: int| 0 <= y < height ==> #[trigger] row_start(offset, stride, y) + row <= len
}

/// The first `height` rows of `row` bytes of `data`, back to back.
pub open spec fn packed_rows(data: Seq<u8>, row: int, stride: int, offset: int, height: nat) -> Seq<
    u8,
>
    decreases height,
{
    if height == 0 {
        seq![]
    } else {
        let start = row_start(offset, stride, height - 1);
        packed_rows(data, row, stride, offset, (height - 1) as nat) + data.subrange(
            start,
            start + row,
        )
    }
}

proof fn lemma_packed_len(data: Seq<u8>, row: int, stride: int, offset: int, height: nat)
    requires
        row >= 0,
        stride >= 0,
        offset >= 0,
        rows_inside(data.len() as int, row, stride, offset, height as int),
    ensures
        packed_rows(data, row, stride, offset, height).len() == row * height,
    decreases height,
{
    if height > 0 {
        let h = (height - 1) as nat;
        assert(rows_inside(data.len() as int, row, stride, offset, h as int));
        lemma_packed_len(data, row, stride, offset, h);
        let start = row_start(offset, stride, h as int);
        assert(start + row <= data.len());
        assert(0 <= offset + h * stride) by (nonlinear_arith)
            requires
                offset >= 0,
                stride >= 0,
                h >= 0,
        ;
        assert(packed_rows(data, row, stride, offset, height) == packed_rows(
            data,
            row,
            stride,
            offset,
            h,
        ) + data.subrange(start, start + row));
        assert(data.subrange(start, start + row).len() == row);
        assert(row * h + row == row * height) by (nonlinear_arith)
            requires
                height == h + 1,
        ;
    } else {
        assert(row * height == 0) by (nonlinear_arith)
            requires
                height == 0,
        ;
    }
}

/// The pixels of a frame whose rows are `stride` bytes apart from `offset`
/// on, without the padding after each row: three bytes per pixel, rows back
/// to back. `None` where a row reaches past the buffer.
pub fn pack_rows(data: &Vec<u8>, width: u32, height: u32, stride: usize, offset: usize) -> (r: Option<
    Vec<u8>,
>)
    ensures
        r is Some <==> rows_inside(
            data@.len() as int,
            3 * width as int,
            stride as int,
            offset as int,
            height as int,
        ),
        r matches Some(v) ==> v@ == packed_rows(
            data@,
            3 * width as int,
            stride as int,
            offset as int,
            height as nat,
        ) && v@.len() == 3 * (width as int) * (height as int),
{
    let row: u128 = 3 * (width as u128);
    let n: usize = data.len();
    let len: u128 = n as u128;
    let ghost rowi = 3 * width as int;
    let mut out: Vec<u8> = Vec::new();
    let mut y: u32 = 0;
    while y < height
        invariant
            y <= height,
            row == rowi,
            rowi == 3 * width as int,
            len == data@.len(),
            len <= usize::MAX,
            rows_inside(data@.len() as int, rowi, stride as int, offset as int, y as int),
            out@ == packed_rows(data@, rowi, stride as int, offset as int, y as nat),
        decreases height - y,
    {
        let yy = y as u128;
        let ss = stride as u128;
        assert(yy * ss <= 0xffff_ffffu128 * 0xffff_ffff_ffff_ffffu128) by (nonlinear_arith)
            requires
                yy <= 0xffff_ffffu128,
                ss <= 0xffff_ffff_ffff_ffffu128,
        ;
        let start: u128 = offset as u128 + yy * ss;
        assert(start == row_start(offset as int, stride as int, y as int));
        if start + row > len {
            assert(!(row_start(offset as int, stride as int, y as int) + rowi <= data@.len()));
            return None;
        }
        assert(start + row <= len);
        let s = start as usize;
        let e = (start + row) as usize;
        let ghost before = out@;
        let mut j: usize = s;
        while j < e
            invariant
                s <= j <= e,
                e <= data@.len(),
                out@ == before + data@.subrange(s as int, j as int),
            decreases e - j,
        {
            out.push(data[j]);
            assert(data@.subrange(s as int, j + 1) =~= data@.subrange(s as int, j as int).push(
                data@[j as int],
            ));
            j = j + 1;
        }
        proof {
            assert forall|z: int| 0 <= z < y + 1 implies #[trigger] row_start(
                offset as int,
                stride as int,
                z,
            ) + rowi <= data@.len() by {
                if z < y {
                    assert(rows_inside(data@.len() as int, rowi, stride as int, offset as int, y as int));
                }
            }
            let next = (y + 1) as nat;
            assert((next - 1) as nat == y as nat);
            assert(packed_rows(data@, rowi, stride as int, offset as int, next) == packed_rows(
                data@,
                rowi,
                stride as int,
                offset as int,
                y as nat,
            ) + data@.subrange(s as int, e as int));
        }
        y = y + 1;
    }
    proof {
        lemma_packed_len(data@, rowi, stride as int, offset as int, height as nat);
        assert(rowi * (height as int) == 3 * (width as int) * (height as int)) by (nonlinear_arith)
            requires
                rowi == 3 * width as int,
        ;
    }
    Some(out)
}

/// Encodes a raw RGB frame in the frame codec.
pub fn encode_frame(width: u32, height: u32, pixels: Vec<u8>) -> (r: Result<Vec<u8>, MediaError>)
    ensures
        !rgb_fits(width, height, pixels@.len()) ==> r == Err::<Vec<u8>, MediaError>(
            MediaError::FrameSizeMismatch,
        ),
        rgb_fits(width, height, pixels@.len()) ==> (r is Ok <==> png_of(width, height, pixels@) is Some),
        r matches Ok(b) ==> Some(b@) == png_of(width, height, pixels@),
        r matches Err(e) ==> (e == MediaError::FrameSizeMismatch || e == MediaError::Encode),
{
    if !frame_fits(width, height, pixels.len()) {
        return Err(MediaError::FrameSizeMismatch);
    }
    match png_encode(width, height, pixels) {
        Some(bytes) => Ok(bytes),
        None => Err(MediaError::Encode),
    }
}

/// A decoded picture together with the bytes and codec it was decoded
/// from; only `decode_picture` makes one.
#[derive(Debug)]
pub struct DecodedFrame {
    image: image::DynamicImage,
    source: Vec<u8>,
    codec: PictureType,
}

impl DecodedFrame {
    pub closed spec fn source(&self) -> Seq<u8> {
        self.source@
    }

    pub closed spec fn codec(&self) -> PictureType {
        self.codec
    }

    /// The decoded picture.
    pub fn image(&self) -> &image::DynamicImage {
        &self.image
    }

    /// Whether this frame was decoded from `bytes` in the codec `t`.
    pub fn is_decoding_of(&self, bytes: &Vec<u8>, t: PictureType) -> (r: bool)
        ensures
            r == (self.source() == bytes@ && self.codec() == t),
    {
        if self.codec != t || self.source.len() != bytes.len() {
            return false;
        }
        let mut i: usize = 0;
        while i < bytes.len()
            invariant
                i <= bytes@.len(),
                self.source@.len() == bytes@.len(),
                forall|j: int| 0 <= j < i ==> self.source@[j] == bytes@[j],
            decreases bytes@.len() - i,
        {
            if self.source[i] != bytes[i] {
                return false;
            }
            i = i + 1;
        }
        assert(self.source@ =~= bytes@);
        true
    }
}

/// Decodes an encoded picture.
pub fn decode_picture(bytes: &Vec<u8>, t: PictureType) -> (r: Result<DecodedFrame, MediaError>)
    ensures
        r is Ok <==> decodes(bytes@, t),
        r matches Ok(f) ==> f.source() == bytes@ && f.codec() == t,
        r matches Err(e) ==> e == MediaError::Decode,
{
    match decode_image(bytes, t) {
        Some(image) => Ok(DecodedFrame { image, source: copy_bytes(bytes), codec: t }),
        None => Err(MediaError::Decode),
    }
}

/// Crops a decoded picture to a box and encodes the crop in the crop codec.
pub fn encode_crop(frame: &DecodedFrame, b: CropBox) -> (r: Option<Vec<u8>>)
    ensures
        r is Some <==> crop_webp_of(frame.source(), frame.codec(), b.x, b.y, b.width, b.height) is Some,
        r matches Some(v) ==> crop_webp_of(frame.source(), frame.codec(), b.x, b.y, b.width, b.height)
            == Some(v@),
{
    crop_webp(frame, b)
}

} // verus!
