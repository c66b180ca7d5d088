//! Previews of PDF files: the first embedded image of a scanned document,
//! else the document's text.
use vstd::prelude::*;
use vstd::utf8::{valid_utf8, decode_utf8, encode_utf8};
use crate::text::{chars_of, push_decimal, push_str, str_eq, string_from_chars, trim_chars};
use crate::port64::string_from_utf8;

verus! {

#[verifier::external_type_specification]
#[verifier::external_body]
pub struct ExPdfDocument(lopdf::Document);

#[verifier::external_type_specification]
#[verifier::external_body]
pub struct ExPdfDictionary(lopdf::Dictionary);

#[verifier::external_type_specification]
#[verifier::external_body]
pub struct ExPdfStream(lopdf::Stream);

#[verifier::external_type_specification]
#[verifier::external_body]
pub struct ExDynamicImage(image::DynamicImage);

/// What a file preview shows.
#[derive(Debug, Clone)]
pub enum ContentPreview {
    /// A PNG image.
    Image { filename: String, data: Vec<u8>, width: u32, height: u32 },
    /// Plain text.
    Text { filename: String, content: String, line_count: usize },
}

// ── Text ──────────────────────────────────────────────────────────

/// Number of `\n` characters in a text.
pub open spec fn newlines(t: Seq<char>) -> nat
    decreases t.len(),
{
    if t.len() == 0 {
        0
    } else {
        newlines(t.drop_last()) + if t.last() == '\n' {
            1nat
        } else {
            0nat
        }
    }
}

proof fn lemma_newlines_bound(t: Seq<char>)
    ensures
        newlines(t) <= t.len(),
    decreases t.len(),
{
    if t.len() > 0 {
        lemma_newlines_bound(t.drop_last());
    }
}

/// The number of lines `str::lines` yields: one per `\n`, plus a last line
/// that does not end in one.
pub open spec fn line_count(t: Seq<char>) -> nat {
    if t.len() == 0 {
        0
    } else {
        newlines(t) + if t.last() == '\n' {
            0nat
        } else {
            1nat
        }
    }
}

fn count_lines(t: &Vec<char>) -> (n: usize)
    ensures
        n == line_count(t@),
{
    let mut count: usize = 0;
    let mut i: usize = 0;
    while i < t.len()
        invariant
            i <= t@.len(),
            count == newlines(t@.take(i as int)),
            count <= i,
        decreases t@.len() - i,
    {
        assert(t@.take(i as int + 1).drop_last() =~= t@.take(i as int));
        if t[i] == '\n' {
            count = count + 1;
        }
        i = i + 1;
    }
    assert(t@.take(i as int) =~= t@);
    if t.len() > 0 && t[t.len() - 1] != '\n' {
        proof {
            lemma_newlines_bound(t@.drop_last());
        }
        count + 1
    } else {
        count
    }
}

/// The message of a PDF with neither an image nor text.
pub open spec fn empty_pdf_message() -> Seq<char> {
    "PDF contains no extractable text or images"@
}

/// The text preview made of what text extraction gave: the text trimmed,
/// with its number of lines; an error when extraction failed or left
/// nothing.
pub open spec fn text_preview_spec(extracted: Result<Seq<char>, Seq<char>>, filename: Seq<char>) -> Result<
    (Seq<char>, Seq<char>, nat),
    Seq<char>,
> {
    match extracted {
        Err(e) => Err("Failed to extract text: "@ + e),
        Ok(s) => {
            let t = crate::text::trim(s);
            if t.len() == 0 {
                Err(empty_pdf_message())
            } else {
                Ok((filename, t, line_count(t)))
            }
        },
    }
}

/// The characters of an extraction result.
pub open spec fn extracted_view(e: Result<String, String>) -> Result<Seq<char>, Seq<char>> {
    match e {
        Ok(s) => Ok(s@),
        Err(m) => Err(m@),
    }
}

/// The model of a text preview result.
pub open spec fn text_result_view(r: Result<ContentPreview, String>) -> Option<
    Result<(Seq<char>, Seq<char>, nat), Seq<char>>,
> {
    match r {
        Ok(ContentPreview::Text { filename, content, line_count }) => Some(
            Ok((filename@, content@, line_count as nat)),
        ),
        Ok(ContentPreview::Image { .. }) => None,
        Err(e) => Some(Err(e@)),
    }
}

/// The text preview of an extraction result (see `text_preview_spec`).
pub fn text_preview(extracted: Result<String, String>, filename: String) -> (r: Result<
    ContentPreview,
    String,
>)
    ensures
        text_result_view(r) == Some(text_preview_spec(extracted_view(extracted), filename@)),
{
    match extracted {
        Err(e) => {
            let mut out: Vec<char> = Vec::new();
            push_str(&mut out, "Failed to extract text: ");
            push_str(&mut out, e.as_str());
            Err(string_from_chars(&out))
        },
        Ok(s) => {
            let t = trim_chars(&chars_of(s.as_str()));
            if t.len() == 0 {
                Err(String::from_str("PDF contains no extractable text or images"))
            } else {
                let line_count = count_lines(&t);
                Ok(ContentPreview::Text { filename, content: string_from_chars(&t), line_count })
            }
        },
    }
}

/// Whether a preview is the text preview of some text, or error, that
/// `extract_text` may give for the bytes of a PDF.
pub open spec fn text_of_extraction<G: Fn(Vec<u8>) -> Result<String, String>>(
    r: Result<ContentPreview, String>,
    data: Seq<u8>,
    filename: Seq<char>,
    extract_text: G,
) -> bool {
    exists|v: Vec<u8>, t: Result<String, String>|
        v@ == data && #[trigger] call_ensures(extract_text, (v,), t) && text_result_view(r) == Some(
            text_preview_spec(extracted_view(t), filename),
        )
}

/// The text preview of a PDF: the text `extract_text` gives for its bytes,
/// trimmed (see `text_preview`).
pub fn extract_pdf_text<G: Fn(Vec<u8>) -> Result<String, String>>(
    data: &[u8],
    filename: String,
    extract_text: &G,
) -> (r: Result<ContentPreview, String>)
    requires
        forall|v: Vec<u8>| extract_text.requires((v,)),
    ensures
        text_of_extraction(r, data@, filename@, *extract_text),
{
    let bytes = crate::text::sub_bytes(data, 0, data.len());
    let ghost v = bytes;
    assert(data@.subrange(0, data@.len() as int) =~= data@);
    let extracted = extract_text(bytes);
    let ghost t = extracted;
    let r = text_preview(extracted, filename);
    assert(call_ensures(*extract_text, (v,), t));
    r
}

// ── Raw pixels ────────────────────────────────────────────────────

/// Grey pixels of a 1-bit image: each bit, most significant first, is
/// white (255) when set, else black (0).
pub open spec fn bit_pixels(raw: Seq<u8>) -> Seq<u8> {
    Seq::new(
        8 * raw.len(),
        |i: int|
            if (raw[i / 8] >> ((7 - i % 8) as u8)) & 1 == 1 {
                255u8
            } else {
                0u8
            },
    )
}

/// The grey pixels of a 1-bit image of `count` pixels (at most as many as
/// the bits hold).
pub open spec fn gray1_pixels(raw: Seq<u8>, count: nat) -> Seq<u8> {
    if bit_pixels(raw).len() <= count {
        bit_pixels(raw)
    } else {
        bit_pixels(raw).take(count as int)
    }
}

/// Law: a 1-bit grey image has as many pixels as asked for, at most eight
/// per byte, and pixel `i` is white (255) when bit `7 - i % 8` of byte
/// `i / 8` is set (the most significant bit comes first) and black (0)
/// when that bit is clear.
pub proof fn law_one_bit_pixels(raw: Seq<u8>, count: nat, i: int)
    requires
        0 <= i < gray1_pixels(raw, count).len(),
    ensures
        gray1_pixels(raw, count).len() == if count < 8 * raw.len() {
            count
        } else {
            8 * raw.len()
        },
        raw[i / 8] & (0x80u8 >> ((i % 8) as u8)) != 0 ==> gray1_pixels(raw, count)[i] == 255,
        raw[i / 8] & (0x80u8 >> ((i % 8) as u8)) == 0 ==> gray1_pixels(raw, count)[i] == 0,
{
    let x: u8 = raw[i / 8];
    let s: u8 = (i % 8) as u8;
    let t: u8 = (7 - i % 8) as u8;
    assert(t == 7 - s);
    assert(((x >> t) & 1 == 1) == (x & (0x80u8 >> s) != 0)) by (bit_vector)
        requires
            s < 8,
            t == 7 - s,
    ;
    assert(gray1_pixels(raw, count)[i] == bit_pixels(raw)[i]);
}

fn expand_bits(raw: &[u8], count: usize) -> (r: Vec<u8>)
    ensures
        r@ == gray1_pixels(raw@, count as nat),
{
    let mut out: Vec<u8> = Vec::new();
    let mut i: usize = 0;
    while i < raw.len() && out.len() < count
        invariant
            i <= raw@.len(),
            out@.len() <= 8 * i,
            out@.len() < count ==> out@.len() == 8 * i,
            out@.len() <= count,
            out@ == bit_pixels(raw@).take(out@.len() as int),
        decreases raw@.len() - i,
    {
        let byte = raw[i];
        let mut bit: u8 = 0;
        while bit < 8 && out.len() < count
            invariant
                i < raw@.len(),
                byte == raw@[i as int],
                bit <= 8,
                out@.len() == 8 * i + bit,
                out@.len() <= count,
                out@ == bit_pixels(raw@).take(out@.len() as int),
            decreases 8 - bit,
        {
            let shift: u8 = 7 - bit;
            let v: u8 = if (byte >> shift) & 1 == 1 {
                255
            } else {
                0
            };
            let ghost k = out@.len() as int;
            assert(k / 8 == i && k % 8 == bit) by (nonlinear_arith)
                requires
                    k == 8 * i + bit,
                    bit < 8,
            ;
            out.push(v);
            assert(out@ =~= bit_pixels(raw@).take(out@.len() as int));
            bit = bit + 1;
        }
        i = i + 1;
    }
    proof {
        if out@.len() < count {
            assert(i == raw@.len());
            assert(out@.len() == bit_pixels(raw@).len());
            assert(bit_pixels(raw@).take(out@.len() as int) =~= bit_pixels(raw@));
        }
    }
    out
}

/// The layout of a `DynamicImage` (image): its color type's code (1 for
/// 8-bit grey `ImageLuma8`, 3 for 8-bit RGB `ImageRgb8`, other codes for
/// the other types), its width and its height.
pub uninterp spec fn image_layout(img: image::DynamicImage) -> (u8, u32, u32);

/// The contents of a `DynamicImage` (image): its sample buffer as bytes
/// (`DynamicImage::as_bytes`).
pub uninterp spec fn image_bytes(img: image::DynamicImage) -> Seq<u8>;

/// The bytes per pixel of a `DynamicImage` (image): what
/// `ColorType::bytes_per_pixel` gives for its `DynamicImage::color`.
pub uninterp spec fn pixel_bytes(img: image::DynamicImage) -> u8;

/// Whether an image's buffer holds exactly its pixels.
pub open spec fn exact_buffer(img: image::DynamicImage) -> bool {
    image_bytes(img).len() == pixel_bytes(img) * image_layout(img).1 * image_layout(img).2
}

/// What `DynamicImage::write_to` (image) with the PNG format writes for an
/// image of the given layout and contents: the PNG bytes, or the text of
/// the error.
pub uninterp spec fn png_encoding(layout: (u8, u32, u32), bytes: Seq<u8>) -> Result<Seq<u8>, Seq<char>>;

/// Calls `image::GrayImage::from_raw` (image) and wraps the result as a
/// `DynamicImage`: present exactly when the buffer holds the
/// `width * height` pixels, and then an 8-bit grey image of that size
/// whose buffer is the whole of `data`.
#[verifier::external_body]
fn gray_image(width: u32, height: u32, data: Vec<u8>) -> (r: Option<image::DynamicImage>)
    ensures
        r is Some <==> width * height <= data@.len(),
        r matches Some(i) ==> image_layout(i) == (1u8, width, height) && pixel_bytes(i) == 1
            && image_bytes(i) == data@,
{
    match image::GrayImage::from_raw(width, height, data) {
        Some(img) => Some(image::DynamicImage::ImageLuma8(img)),
        None => None,
    }
}

/// Calls `image::RgbImage::from_raw` (image) and wraps the result as a
/// `DynamicImage`: present exactly when the buffer holds the
/// `3 * width * height` channel bytes, and then an 8-bit RGB image of that
/// size whose buffer is the whole of `data`.
#[verifier::external_body]
fn rgb_image(width: u32, height: u32, data: Vec<u8>) -> (r: Option<image::DynamicImage>)
    ensures
        r is Some <==> 3 * width * height <= data@.len(),
        r matches Some(i) ==> image_layout(i) == (3u8, width, height) && pixel_bytes(i) == 3
            && image_bytes(i) == data@,
{
    match image::RgbImage::from_raw(width, height, data) {
        Some(img) => Some(image::DynamicImage::ImageRgb8(img)),
        None => None,
    }
}

/// Calls `DynamicImage::color` and `ColorType::bytes_per_pixel` (image):
/// the bytes per pixel, as `pixel_bytes` names them.
#[verifier::external_body]
fn image_pixel_bytes(img: &image::DynamicImage) -> (n: u8)
    ensures
        n == pixel_bytes(*img),
{
    img.color().bytes_per_pixel()
}

/// Calls `DynamicImage::as_bytes` (image): the length of the buffer.
#[verifier::external_body]
fn image_byte_len(img: &image::DynamicImage) -> (n: usize)
    ensures
        n == image_bytes(*img).len(),
{
    img.as_bytes().len()
}

/// Calls `DynamicImage::write_to` (image) with the PNG format into a
/// buffer: the PNG bytes, or the text of the error, as `png_encoding`
/// names them for the image's layout and contents. The PNG encoder
/// asserts that the buffer holds exactly the image's pixels, so
/// `requires` asks for that.
#[verifier::external_body]
fn encode_png(img: &image::DynamicImage) -> (r: Result<Vec<u8>, String>)
    requires
        exact_buffer(*img),
    ensures
        match r {
            Ok(b) => png_encoding(image_layout(*img), image_bytes(*img)) == Ok::<Seq<u8>, Seq<char>>(b@),
            Err(e) => png_encoding(image_layout(*img), image_bytes(*img)) == Err::<Seq<u8>, Seq<char>>(e@),
        },
{
    let mut png: Vec<u8> = Vec::new();
    match img.write_to(&mut std::io::Cursor::new(&mut png), image::ImageFormat::Png) {
        Ok(()) => Ok(png),
        Err(e) => Err(e.to_string()),
    }
}

/// The raw-pixel formats a preview handles.
pub open spec fn raw_format_supported(color_space: Seq<char>, bpc: u8) -> bool {
    (color_space == "DeviceGray"@ && bpc == 8) || (color_space == "DeviceRGB"@ && bpc == 8) || (
    color_space == "DeviceCMYK"@ && bpc == 8) || (color_space == "DeviceGray"@ && bpc == 1)
}

/// The message of an unsupported raw-pixel format.
pub open spec fn unsupported_raw_message(color_space: Seq<char>, bpc: u8) -> Seq<char> {
    "Unsupported color space/depth: "@ + color_space + " / "@ + crate::text::decimal(bpc as nat)
        + " bits"@
}

/// The PNG preview of an image of the given layout and contents, shown
/// with the given dimensions: the PNG encoding of the image, or the
/// encoding's error.
pub open spec fn raw_preview_ok(
    r: Result<ContentPreview, String>,
    filename: Seq<char>,
    width: u32,
    height: u32,
    layout: (u8, u32, u32),
    pixel: u8,
    bytes: Seq<u8>,
) -> bool {
    if bytes.len() != pixel * layout.1 * layout.2 {
        r matches Err(m) && m@ == "Image data does not match its size"@
    } else {
        match png_encoding(layout, bytes) {
            Ok(png) => r matches Ok(ContentPreview::Image { filename: f, data, width: w, height: h })
                && f@ == filename && data@ == png && w == width && h == height,
            Err(e) => r matches Err(m) && m@ == "Failed to encode PNG: "@ + e,
        }
    }
}

/// The PNG preview of a decoded image, with the given dimensions; an
/// image whose buffer does not hold exactly its pixels is refused.
fn png_preview(img: &image::DynamicImage, filename: String, width: u32, height: u32) -> (r: Result<
    ContentPreview,
    String,
>)
    ensures
        raw_preview_ok(
            r,
            filename@,
            width,
            height,
            image_layout(*img),
            pixel_bytes(*img),
            image_bytes(*img),
        ),
{
    let n = image_byte_len(img);
    let pixel = image_pixel_bytes(img);
    let w = image_width(img);
    let h = image_height(img);
    assert((pixel as u128) * (w as u128) <= 0xff * 0xffff_ffff) by (nonlinear_arith)
        requires
            pixel <= 0xff,
            w <= 0xffff_ffff,
    ;
    let pw: u128 = (pixel as u128) * (w as u128);
    assert(pw * (h as u128) <= 0xff * 0xffff_ffff * 0xffff_ffff) by (nonlinear_arith)
        requires
            pw <= 0xff * 0xffff_ffff,
            h <= 0xffff_ffff,
    ;
    let expected: u128 = pw * (h as u128);
    if (n as u128) != expected {
        return Err(String::from_str("Image data does not match its size"));
    }
    match encode_png(img) {
        Ok(data) => Ok(ContentPreview::Image { filename, data, width, height }),
        Err(e) => {
            let mut out: Vec<char> = Vec::new();
            push_str(&mut out, "Failed to encode PNG: ");
            push_str(&mut out, e.as_str());
            Err(string_from_chars(&out))
        },
    }
}

/// What the RGB preview of CMYK pixels gives, from the RGB bytes the
/// conversion returned.
pub open spec fn cmyk_preview_ok(
    r: Result<ContentPreview, String>,
    filename: Seq<char>,
    width: u32,
    height: u32,
    px: Seq<u8>,
) -> bool {
    if 3 * width * height <= px.len() {
        raw_preview_ok(r, filename, width, height, (3u8, width, height), 3u8, px)
    } else {
        r matches Err(e) && e@ == "Failed to create RGB image from CMYK"@
    }
}

/// What an image preview of raw pixel data gives (see
/// `convert_raw_to_image`); CMYK pixels go through `cmyk_to_rgb`, and the
/// preview is that of some RGB bytes it may return for them.
pub open spec fn raw_image_result<F: Fn(Vec<u8>) -> Vec<u8>>(
    r: Result<ContentPreview, String>,
    raw_data: Seq<u8>,
    width: u32,
    height: u32,
    color_space: Seq<char>,
    bits_per_component: u8,
    filename: Seq<char>,
    cmyk_to_rgb: F,
) -> bool {
    &&& (!raw_format_supported(color_space, bits_per_component) ==> (r matches Err(e) && e@
            == unsupported_raw_message(color_space, bits_per_component)))
    &&& (color_space == "DeviceGray"@ && bits_per_component == 8 ==> if width * height
            <= raw_data.len() {
            raw_preview_ok(r, filename, width, height, (1u8, width, height), 1u8, raw_data)
        } else {
            (r matches Err(e) && e@ == "Failed to create grayscale image"@)
        })
    &&& (color_space == "DeviceRGB"@ && bits_per_component == 8 ==> if 3 * width * height
            <= raw_data.len() {
            raw_preview_ok(r, filename, width, height, (3u8, width, height), 3u8, raw_data)
        } else {
            (r matches Err(e) && e@ == "Failed to create RGB image"@)
        })
    &&& (color_space == "DeviceCMYK"@ && bits_per_component == 8 ==> exists|v: Vec<u8>, px: Vec<u8>|
            v@ == raw_data && #[trigger] call_ensures(cmyk_to_rgb, (v,), px) && cmyk_preview_ok(
            r,
            filename,
            width,
            height,
            px@,
        ))
    &&& (color_space == "DeviceGray"@ && bits_per_component == 1 ==> if width * height
            <= gray1_pixels(raw_data, ((width * height) % 0x1_0000_0000) as nat).len() {
            raw_preview_ok(
                r,
                filename,
                width,
                height,
                (1u8, width, height),
                1u8,
                gray1_pixels(raw_data, ((width * height) % 0x1_0000_0000) as nat),
            )
        } else {
            (r matches Err(e) && e@ == "Failed to create 1-bit grayscale image"@)
        })
}

/// An image preview of raw pixel data: 8-bit grey, 8-bit RGB, 8-bit CMYK
/// (turned into RGB by `cmyk_to_rgb`) or 1-bit grey; any other format is
/// refused.  The pixel count of a 1-bit image is `width * height` wrapped
/// to 32 bits.
pub fn convert_raw_to_image<F: Fn(Vec<u8>) -> Vec<u8>>(
    raw_data: &[u8],
    width: u32,
    height: u32,
    color_space: &str,
    bits_per_component: u8,
    filename: String,
    cmyk_to_rgb: &F,
) -> (r: Result<ContentPreview, String>)
    requires
        forall|v: Vec<u8>| cmyk_to_rgb.requires((v,)),
    ensures
        raw_image_result(
            r,
            raw_data@,
            width,
            height,
            color_space@,
            bits_per_component,
            filename@,
            *cmyk_to_rgb,
        ),
{
    proof {
        reveal_strlit("DeviceGray");
        reveal_strlit("DeviceRGB");
        reveal_strlit("DeviceCMYK");
        assert("DeviceGray"@.len() != "DeviceRGB"@.len());
        assert("DeviceCMYK"@.len() != "DeviceRGB"@.len());
        assert("DeviceGray"@[6] != "DeviceCMYK"@[6]);
    }
    let gray = str_eq(color_space, "DeviceGray");
    let rgb = str_eq(color_space, "DeviceRGB");
    let cmyk = str_eq(color_space, "DeviceCMYK");
    let img = if gray && bits_per_component == 8 {
        match gray_image(width, height, crate::text::sub_bytes(raw_data, 0, raw_data.len())) {
            Some(img) => img,
            None => {
                return Err(String::from_str("Failed to create grayscale image"));
            },
        }
    } else if rgb && bits_per_component == 8 {
        match rgb_image(width, height, crate::text::sub_bytes(raw_data, 0, raw_data.len())) {
            Some(img) => img,
            None => {
                return Err(String::from_str("Failed to create RGB image"));
            },
        }
    } else if cmyk && bits_per_component == 8 {
        let cmyk_data = crate::text::sub_bytes(raw_data, 0, raw_data.len());
        let ghost v = cmyk_data;
        assert(raw_data@.subrange(0, raw_data@.len() as int) =~= raw_data@);
        let rgb_data = cmyk_to_rgb(cmyk_data);
        let ghost px = rgb_data;
        assert(call_ensures(*cmyk_to_rgb, (v,), px));
        let r = match rgb_image(width, height, rgb_data) {
            Some(img) => png_preview(&img, filename, width, height),
            None => Err(String::from_str("Failed to create RGB image from CMYK")),
        };
        assert(cmyk_preview_ok(r, filename@, width, height, px@));
        return r;
    } else if gray && bits_per_component == 1 {
        let count = width.wrapping_mul(height) as usize;
        let pixels = expand_bits(raw_data, count);
        match gray_image(width, height, pixels) {
            Some(img) => img,
            None => {
                return Err(String::from_str("Failed to create 1-bit grayscale image"));
            },
        }
    } else {
        let mut out: Vec<char> = Vec::new();
        push_str(&mut out, "Unsupported color space/depth: ");
        push_str(&mut out, color_space);
        push_str(&mut out, " / ");
        push_decimal(&mut out, bits_per_component as u64);
        push_str(&mut out, " bits");
        return Err(string_from_chars(&out));
    };
    assert(raw_data@.subrange(0, raw_data@.len() as int) =~= raw_data@);
    png_preview(&img, filename, width, height)
}


// ── Image streams ─────────────────────────────────────────────────

/// What the dictionary of an image stream holds of its image, as read:
/// each entry `None` where it is missing or of another type.
#[derive(Debug, Clone)]
pub struct ImageStreamInfo {
    pub width: Option<i64>,
    pub height: Option<i64>,
    /// The bytes of the `/Filter` name.
    pub filter: Option<Vec<u8>>,
    /// The bytes of the `/ColorSpace` name.
    pub color_space: Option<Vec<u8>>,
    pub bits_per_component: Option<i64>,
}

/// The bytes of an optional byte vector.
pub open spec fn opt_bytes(o: Option<Vec<u8>>) -> Option<Seq<u8>> {
    match o {
        Some(v) => Some(v@),
        None => None,
    }
}

/// The text of a name entry: its bytes decoded where they are UTF-8, else
/// the default.
pub open spec fn name_text(name: Option<Seq<u8>>, default: Seq<char>) -> Seq<char> {
    match name {
        Some(b) => if valid_utf8(b) {
            decode_utf8(b)
        } else {
            default
        },
        None => default,
    }
}

/// The image width: the entry, or 0, truncated to 32 bits.
pub open spec fn width_of(info: ImageStreamInfo) -> u32 {
    (match info.width {
        Some(w) => w,
        None => 0,
    }) as u32
}

/// The image height: the entry, or 0, truncated to 32 bits.
pub open spec fn height_of(info: ImageStreamInfo) -> u32 {
    (match info.height {
        Some(h) => h,
        None => 0,
    }) as u32
}

/// The bits per component: the entry, or 8, truncated to 8 bits.
pub open spec fn bits_of(info: ImageStreamInfo) -> u8 {
    (match info.bits_per_component {
        Some(b) => b,
        None => 8,
    }) as u8
}

/// The filter's name, or the empty text.
pub open spec fn filter_of(info: ImageStreamInfo) -> Seq<char> {
    name_text(opt_bytes(info.filter), ""@)
}

/// The color space's name, or `DeviceGray`.
pub open spec fn color_space_of(info: ImageStreamInfo) -> Seq<char> {
    name_text(opt_bytes(info.color_space), "DeviceGray"@)
}

/// The preview of what the image crate decoded: the PNG preview of the
/// decoded image at its own size, or the decoding error behind the prefix.
pub open spec fn decoded_preview_ok(
    r: Result<ContentPreview, String>,
    filename: Seq<char>,
    decode_prefix: Seq<char>,
    decoded: Result<((u8, u32, u32), u8, Seq<u8>), Seq<char>>,
) -> bool {
    match decoded {
        Ok((layout, pixel, bytes)) => raw_preview_ok(r, filename, layout.1, layout.2, layout, pixel, bytes),
        Err(e) => r matches Err(m) && m@ == decode_prefix + e,
    }
}

/// What the preview of an image stream gives, from what its dictionary
/// holds and what decompressing its content gave.
pub open spec fn stream_preview_result<F: Fn(Vec<u8>) -> Vec<u8>>(
    r: Result<ContentPreview, String>,
    info: ImageStreamInfo,
    content: Result<Vec<u8>, String>,
    filename: Seq<char>,
    cmyk_to_rgb: F,
) -> bool {
    let w = width_of(info);
    let h = height_of(info);
    if w == 0 || h == 0 {
        r matches Err(e) && e@ == "Invalid image dimensions"@
    } else {
        match content {
            Err(e) => r matches Err(m) && m@ == "Failed to decompress: "@ + e@,
            Ok(raw) => {
                let f = filter_of(info);
                if f == "DCTDecode"@ {
                    decoded_preview_ok(r, filename, "Failed to decode JPEG: "@, decoded_jpeg(raw@))
                } else if f == "FlateDecode"@ || f.len() == 0 {
                    raw_image_result(
                        r,
                        raw@,
                        w,
                        h,
                        color_space_of(info),
                        bits_of(info),
                        filename,
                        cmyk_to_rgb,
                    )
                } else if f == "JPXDecode"@ {
                    decoded_preview_ok(r, filename, "Failed to decode JPEG2000: "@, decoded_image(raw@))
                } else {
                    r matches Err(m) && m@ == "Unsupported image filter: "@ + f
                }
            },
        }
    }
}

/// The text of a name entry (see `name_text`).
fn name_to_text(name: Option<Vec<u8>>, default: &str) -> (s: String)
    ensures
        s@ == name_text(opt_bytes(name), default@),
{
    match name {
        Some(bytes) => match string_from_utf8(bytes) {
            Ok(s) => s,
            Err(_) => String::from_str(default),
        },
        None => String::from_str(default),
    }
}

/// What `image::load_from_memory_with_format` (image) with the JPEG
/// format gives for some bytes: the decoded image's layout, bytes per pixel and contents,
/// or the text of the error.
pub uninterp spec fn decoded_jpeg(data: Seq<u8>) -> Result<((u8, u32, u32), u8, Seq<u8>), Seq<char>>;

/// What `image::load_from_memory` (image), which guesses the format, gives
/// for some bytes: the decoded image's layout, bytes per pixel and contents, or the text of
/// the error.
pub uninterp spec fn decoded_image(data: Seq<u8>) -> Result<((u8, u32, u32), u8, Seq<u8>), Seq<char>>;

/// The layout, bytes per pixel and contents of a decoded image, or the decoding error.
pub open spec fn decode_view(r: Result<image::DynamicImage, String>) -> Result<((u8, u32, u32), u8, Seq<u8>), Seq<char>> {
    match r {
        Ok(i) => Ok((image_layout(i), pixel_bytes(i), image_bytes(i))),
        Err(e) => Err(e@),
    }
}

/// Calls `image::load_from_memory_with_format` (image) with the JPEG
/// format: the decoded image, or the text of the error, as `decoded_jpeg`
/// names them.
#[verifier::external_body]
fn decode_jpeg(data: &[u8]) -> (r: Result<image::DynamicImage, String>)
    ensures
        decode_view(r) == decoded_jpeg(data@),
{
    match image::load_from_memory_with_format(data, image::ImageFormat::Jpeg) {
        Ok(img) => Ok(img),
        Err(e) => Err(e.to_string()),
    }
}

/// Calls `image::load_from_memory` (image), which guesses the format: the
/// decoded image, or the text of the error, as `decoded_image` names them.
#[verifier::external_body]
fn decode_image(data: &[u8]) -> (r: Result<image::DynamicImage, String>)
    ensures
        decode_view(r) == decoded_image(data@),
{
    match image::load_from_memory(data) {
        Ok(img) => Ok(img),
        Err(e) => Err(e.to_string()),
    }
}

/// Calls `DynamicImage::width` (image): the width of its layout.
#[verifier::external_body]
fn image_width(img: &image::DynamicImage) -> (w: u32)
    ensures
        w == image_layout(*img).1,
{
    img.width()
}

/// Calls `DynamicImage::height` (image): the height of its layout.
#[verifier::external_body]
fn image_height(img: &image::DynamicImage) -> (h: u32)
    ensures
        h == image_layout(*img).2,
{
    img.height()
}

/// The PNG preview of a decoded image, or the decoding error behind the
/// given prefix.
fn decoded_preview(
    decoded: Result<image::DynamicImage, String>,
    filename: String,
    decode_prefix: &str,
) -> (r: Result<ContentPreview, String>)
    ensures
        decoded_preview_ok(r, filename@, decode_prefix@, decode_view(decoded)),
{
    match decoded {
        Ok(img) => {
            let w = image_width(&img);
            let h = image_height(&img);
            png_preview(&img, filename, w, h)
        },
        Err(e) => {
            let mut out: Vec<char> = Vec::new();
            push_str(&mut out, decode_prefix);
            push_str(&mut out, e.as_str());
            Err(string_from_chars(&out))
        },
    }
}

/// The preview of an image stream from what its dictionary holds and what
/// decompressing its content gave (see `stream_preview_result`).  Raw
/// CMYK pixels are turned into RGB by `cmyk_to_rgb`.
pub fn image_preview_from<F: Fn(Vec<u8>) -> Vec<u8>>(
    info: &ImageStreamInfo,
    content: Result<Vec<u8>, String>,
    filename: String,
    cmyk_to_rgb: &F,
) -> (r: Result<ContentPreview, String>)
    requires
        forall|v: Vec<u8>| cmyk_to_rgb.requires((v,)),
    ensures
        stream_preview_result(r, *info, content, filename@, *cmyk_to_rgb),
{
    let w: i64 = match info.width {
        Some(w) => w,
        None => 0,
    };
    let h: i64 = match info.height {
        Some(h) => h,
        None => 0,
    };
    let width = w as u32;
    let height = h as u32;
    if width == 0 || height == 0 {
        return Err(String::from_str("Invalid image dimensions"));
    }
    let raw = match content {
        Ok(raw) => raw,
        Err(e) => {
            let mut out: Vec<char> = Vec::new();
            push_str(&mut out, "Failed to decompress: ");
            push_str(&mut out, e.as_str());
            return Err(string_from_chars(&out));
        },
    };
    let filter = name_to_text(info.filter.clone(), "");
    let color_space = name_to_text(info.color_space.clone(), "DeviceGray");
    let b: i64 = match info.bits_per_component {
        Some(b) => b,
        None => 8,
    };
    let bits = b as u8;
    proof {
        reveal_strlit("");
        reveal_strlit("DCTDecode");
        reveal_strlit("FlateDecode");
    }
    if str_eq(filter.as_str(), "DCTDecode") {
        decoded_preview(decode_jpeg(raw.as_slice()), filename, "Failed to decode JPEG: ")
    } else if str_eq(filter.as_str(), "FlateDecode") || filter.as_str().unicode_len() == 0 {
        convert_raw_to_image(
            raw.as_slice(),
            width,
            height,
            color_space.as_str(),
            bits,
            filename,
            cmyk_to_rgb,
        )
    } else if str_eq(filter.as_str(), "JPXDecode") {
        decoded_preview(decode_image(raw.as_slice()), filename, "Failed to decode JPEG2000: ")
    } else {
        let mut out: Vec<char> = Vec::new();
        push_str(&mut out, "Unsupported image filter: ");
        push_str(&mut out, filter.as_str());
        Err(string_from_chars(&out))
    }
}


// ── Reading the document ──────────────────────────────────────────

/// What the walk reads of an image stream: the integer entries and the
/// name entries of its dictionary, and its decompressed content or the
/// text of the error.
pub type StreamFacts = (Map<Seq<u8>, i64>, Map<Seq<u8>, Seq<u8>>, Result<Seq<u8>, Seq<char>>);

/// What the walk reads of a parsed document: its page ids in page order
/// (`Document::page_iter`); for each page for which
/// `Document::get_page_resources` gives a resource dictionary holding a
/// dictionary under `/XObject`, that dictionary's values in order, each as
/// the object id it refers to (`None` where it is no reference); and for
/// each object id for which `Document::get_object` gives a stream, what
/// the walk reads of that stream.
pub type PdfFacts = (
    Seq<(u32, u16)>,
    Map<(u32, u16), Seq<Option<(u32, u16)>>>,
    Map<(u32, u16), StreamFacts>,
);

/// The integer entries of a lopdf `Dictionary`: each key whose value is
/// an `Object::Integer`, with that integer.
pub uninterp spec fn dict_integers(d: lopdf::Dictionary) -> Map<Seq<u8>, i64>;

/// The name entries of a lopdf `Dictionary`: each key whose value is an
/// `Object::Name`, with the name's bytes.
pub uninterp spec fn dict_names(d: lopdf::Dictionary) -> Map<Seq<u8>, Seq<u8>>;

/// The dictionary entries of a lopdf `Dictionary`: each key whose value
/// is an `Object::Dictionary`, with that dictionary's values in order,
/// each as the object id where it is an `Object::Reference`.
pub uninterp spec fn dict_subdict_refs(d: lopdf::Dictionary) -> Map<Seq<u8>, Seq<Option<(u32, u16)>>>;

/// The values of a lopdf `Dictionary` in order, each as the object id
/// where it is an `Object::Reference`.
pub uninterp spec fn dict_value_refs(d: lopdf::Dictionary) -> Seq<Option<(u32, u16)>>;

/// What the walk reads of a lopdf `Stream` (see `StreamFacts`).
pub uninterp spec fn stream_facts(s: lopdf::Stream) -> StreamFacts;

/// What the walk reads of a lopdf `Document` (see `PdfFacts`).
pub uninterp spec fn pdf_contents(doc: lopdf::Document) -> PdfFacts;

/// What `Document::load_mem` (lopdf) gives for the bytes of a PDF: what
/// the walk reads of the parsed document, or the text of the error. A
/// function of the bytes alone.
pub uninterp spec fn pdf_document(data: Seq<u8>) -> Result<PdfFacts, Seq<char>>;

/// An entry of a dictionary, read as an integer, a name and a dictionary,
/// each where it is one.
pub struct DictEntry<'a> {
    pub integer: Option<i64>,
    pub name: Option<Vec<u8>>,
    pub dict: Option<&'a lopdf::Dictionary>,
}

/// Calls `Dictionary::get` (lopdf) with the key's UTF-8 bytes: the entry,
/// or `None` where the key is missing. The entry's integer, name and
/// dictionary are those `dict_integers`, `dict_names` and
/// `dict_subdict_refs` give for the key.
#[verifier::external_body]
fn dict_get<'a>(dict: &'a lopdf::Dictionary, key: &str) -> (r: Option<DictEntry<'a>>)
    ensures
        match r {
            Some(e) => {
                &&& e.integer == dict_integers(*dict).get(encode_utf8(key@))
                &&& opt_bytes(e.name) == dict_names(*dict).get(encode_utf8(key@))
                &&& (e.dict is Some <==> dict_subdict_refs(*dict).contains_key(encode_utf8(key@)))
                &&& (e.dict matches Some(d) ==> dict_value_refs(*d) == dict_subdict_refs(
                    *dict,
                )[encode_utf8(key@)])
            },
            None => {
                &&& !dict_integers(*dict).contains_key(encode_utf8(key@))
                &&& !dict_names(*dict).contains_key(encode_utf8(key@))
                &&& !dict_subdict_refs(*dict).contains_key(encode_utf8(key@))
            },
        },
{
    match dict.get(key.as_bytes()) {
        Ok(obj) => Some(DictEntry {
            integer: match obj { lopdf::Object::Integer(v) => Some(*v), _ => None },
            name: match obj { lopdf::Object::Name(n) => Some(n.clone()), _ => None },
            dict: match obj { lopdf::Object::Dictionary(d) => Some(d), _ => None },
        }),
        Err(_) => None,
    }
}

/// Calls `Dictionary::iter` (lopdf) and hands out the values in order,
/// each as the object id where it is an `Object::Reference`, as
/// `dict_value_refs` names them.
#[verifier::external_body]
fn dict_refs(dict: &lopdf::Dictionary) -> (r: Vec<Option<(u32, u16)>>)
    ensures
        r@ == dict_value_refs(*dict),
{
    let mut out = Vec::new();
    for (_, v) in dict.iter() {
        out.push(match v { lopdf::Object::Reference(id) => Some(*id), _ => None });
    }
    out
}

/// Reads the `dict` field of a `Stream` (lopdf): the stream's dictionary,
/// whose entries are those `stream_facts` gives.
#[verifier::external_body]
fn stream_dict<'a>(stream: &'a lopdf::Stream) -> (r: &'a lopdf::Dictionary)
    ensures
        dict_integers(*r) == stream_facts(*stream).0,
        dict_names(*r) == stream_facts(*stream).1,
{
    &stream.dict
}

/// The bytes, or the text of the error, of a result.
pub open spec fn content_view(c: Result<Vec<u8>, String>) -> Result<Seq<u8>, Seq<char>> {
    match c {
        Ok(v) => Ok(v@),
        Err(e) => Err(e@),
    }
}

/// Calls `Stream::decompressed_content` (lopdf): the content with the
/// stream's filters undone, or the text of the error, as `stream_facts`
/// gives them.
#[verifier::external_body]
fn stream_content(stream: &lopdf::Stream) -> (r: Result<Vec<u8>, String>)
    ensures
        content_view(r) == stream_facts(*stream).2,
{
    match stream.decompressed_content() {
        Ok(data) => Ok(data),
        Err(e) => Err(e.to_string()),
    }
}

/// What the walk reads of a parsed document, or the text of the error.
pub open spec fn load_view(r: Result<lopdf::Document, String>) -> Result<PdfFacts, Seq<char>> {
    match r {
        Ok(d) => Ok(pdf_contents(d)),
        Err(e) => Err(e@),
    }
}

/// Calls `Document::load_mem` (lopdf): the parsed document, or the text of
/// the error, as `pdf_document` names them.
#[verifier::external_body]
fn load_document(data: &[u8]) -> (r: Result<lopdf::Document, String>)
    ensures
        load_view(r) == pdf_document(data@),
{
    match lopdf::Document::load_mem(data) {
        Ok(doc) => Ok(doc),
        Err(e) => Err(e.to_string()),
    }
}

/// Calls `Document::page_iter` (lopdf) and collects the page ids in page
/// order, as `pdf_contents` gives them.
#[verifier::external_body]
fn page_ids(doc: &lopdf::Document) -> (r: Vec<(u32, u16)>)
    ensures
        r@ == pdf_contents(*doc).0,
{
    doc.page_iter().collect()
}

/// Calls `Document::get_page_resources` (lopdf): the page's own resource
/// dictionary, or `None` where it has none or the lookup failed. Its
/// `/XObject` dictionary's values are those `pdf_contents` gives for the
/// page; where there is no resource dictionary, `pdf_contents` gives none.
#[verifier::external_body]
fn page_resources<'a>(doc: &'a lopdf::Document, page: (u32, u16)) -> (r: Option<&'a lopdf::Dictionary>)
    ensures
        match r {
            Some(d) => dict_subdict_refs(*d).get(encode_utf8("XObject"@)) == pdf_contents(*doc).1.get(
                page,
            ),
            None => !pdf_contents(*doc).1.contains_key(page),
        },
{
    match doc.get_page_resources(page) {
        Ok((resources, _)) => resources,
        Err(_) => None,
    }
}

/// Calls `Document::get_object` (lopdf), which follows references, and
/// keeps the object where it is a stream; `None` where there is no object
/// or it is no stream. What the walk reads of the stream is what
/// `pdf_contents` gives for the id.
#[verifier::external_body]
fn document_stream<'a>(doc: &'a lopdf::Document, id: (u32, u16)) -> (r: Option<&'a lopdf::Stream>)
    ensures
        r is Some <==> pdf_contents(*doc).2.contains_key(id),
        r matches Some(s) ==> stream_facts(*s) == pdf_contents(*doc).2[id],
{
    match doc.get_object(id) {
        Ok(lopdf::Object::Stream(s)) => Some(s),
        _ => None,
    }
}

/// The integer entry of a dictionary, where it is one.
fn dict_i64(dict: &lopdf::Dictionary, key: &str) -> (r: Option<i64>)
    ensures
        r == dict_integers(*dict).get(encode_utf8(key@)),
{
    match dict_get(dict, key) {
        Some(e) => e.integer,
        None => None,
    }
}

/// The name entry of a dictionary, where it is one.
fn dict_name(dict: &lopdf::Dictionary, key: &str) -> (r: Option<Vec<u8>>)
    ensures
        opt_bytes(r) == dict_names(*dict).get(encode_utf8(key@)),
{
    match dict_get(dict, key) {
        Some(e) => e.name,
        None => None,
    }
}

/// Whether an `ImageStreamInfo` holds what a dictionary with these integer
/// and name entries says of its image.
pub open spec fn info_read_from(
    info: ImageStreamInfo,
    ints: Map<Seq<u8>, i64>,
    names: Map<Seq<u8>, Seq<u8>>,
) -> bool {
    &&& info.width == ints.get(encode_utf8("Width"@))
    &&& info.height == ints.get(encode_utf8("Height"@))
    &&& info.bits_per_component == ints.get(encode_utf8("BitsPerComponent"@))
    &&& opt_bytes(info.filter) == names.get(encode_utf8("Filter"@))
    &&& opt_bytes(info.color_space) == names.get(encode_utf8("ColorSpace"@))
}

/// What an image stream's dictionary holds of its image: its `/Width`,
/// `/Height` and `/BitsPerComponent` integer entries and its `/Filter`
/// and `/ColorSpace` name entries (each `None` where missing or of
/// another type).
pub fn read_image_info(dict: &lopdf::Dictionary) -> (info: ImageStreamInfo)
    ensures
        info_read_from(info, dict_integers(*dict), dict_names(*dict)),
{
    ImageStreamInfo {
        width: dict_i64(dict, "Width"),
        height: dict_i64(dict, "Height"),
        filter: dict_name(dict, "Filter"),
        color_space: dict_name(dict, "ColorSpace"),
        bits_per_component: dict_i64(dict, "BitsPerComponent"),
    }
}

/// The content handed on for a stream: what decompressing gave where
/// both dimensions are nonzero, else no bytes (nothing is decompressed).
pub open spec fn handed_content(info: ImageStreamInfo, content: Result<Seq<u8>, Seq<char>>) -> Result<
    Seq<u8>,
    Seq<char>,
> {
    if width_of(info) != 0 && height_of(info) != 0 {
        content
    } else {
        Ok(Seq::empty())
    }
}

/// Whether a preview is what an image stream with these facts gives: its
/// dictionary read, its content decompressed where the dimensions are
/// valid, then `image_preview_from`.
pub open spec fn stream_previews<F: Fn(Vec<u8>) -> Vec<u8>>(
    r: Result<ContentPreview, String>,
    facts: StreamFacts,
    filename: Seq<char>,
    cmyk_to_rgb: F,
) -> bool {
    exists|info: ImageStreamInfo, content: Result<Vec<u8>, String>|
        info_read_from(info, facts.0, facts.1) && content_view(content) == handed_content(
            info,
            facts.2,
        ) && #[trigger] stream_preview_result(r, info, content, filename, cmyk_to_rgb)
}

/// The preview of an image stream: its dictionary read, its content
/// decompressed where the dimensions are valid, then `image_preview_from`.
pub fn extract_image_from_stream<F: Fn(Vec<u8>) -> Vec<u8>>(
    stream: &lopdf::Stream,
    filename: String,
    cmyk_to_rgb: &F,
) -> (r: Result<ContentPreview, String>)
    requires
        forall|v: Vec<u8>| cmyk_to_rgb.requires((v,)),
    ensures
        stream_previews(r, stream_facts(*stream), filename@, *cmyk_to_rgb),
{
    let info = read_image_info(stream_dict(stream));
    let w: i64 = match info.width {
        Some(w) => w,
        None => 0,
    };
    let h: i64 = match info.height {
        Some(h) => h,
        None => 0,
    };
    let content = if w as u32 != 0 && h as u32 != 0 {
        stream_content(stream)
    } else {
        Ok(Vec::new())
    };
    let ghost c = content;
    let ghost fname = filename@;
    assert(content_view(c) == handed_content(info, stream_facts(*stream).2));
    let r = image_preview_from(&info, content, filename, cmyk_to_rgb);
    assert(stream_preview_result(r, info, c, fname, *cmyk_to_rgb));
    r
}

/// Whether a preview is the image preview of the file.
pub open spec fn image_of_file(r: Result<ContentPreview, String>, filename: Seq<char>) -> bool {
    r matches Ok(ContentPreview::Image { filename: f, .. }) && f@ == filename
}

/// A preview of an image stream that is not an error is an image of the
/// file.
pub proof fn lemma_stream_preview_is_image<F: Fn(Vec<u8>) -> Vec<u8>>(
    r: Result<ContentPreview, String>,
    facts: StreamFacts,
    filename: Seq<char>,
    cmyk_to_rgb: F,
)
    requires
        stream_previews(r, facts, filename, cmyk_to_rgb),
        r is Ok,
    ensures
        image_of_file(r, filename),
{
    let (info, content) = choose|info: ImageStreamInfo, content: Result<Vec<u8>, String>|
        info_read_from(info, facts.0, facts.1) && content_view(content) == handed_content(
            info,
            facts.2,
        ) && #[trigger] stream_preview_result(r, info, content, filename, cmyk_to_rgb);
    let cs = color_space_of(info);
    let b = bits_of(info);
    if cs == "DeviceGray"@ && b == 8 {
    } else if cs == "DeviceRGB"@ && b == 8 {
    } else if cs == "DeviceCMYK"@ && b == 8 {
    } else if cs == "DeviceGray"@ && b == 1 {
    }
}

/// Whether a stream is an image XObject: its `/Subtype` name reads
/// `Image`.
pub open spec fn is_image_stream(facts: StreamFacts) -> bool {
    name_text(facts.1.get(encode_utf8("Subtype"@)), ""@) == "Image"@
}

/// The image streams a list of XObject entries refers to, in order.
pub open spec fn entry_images(
    refs: Seq<Option<(u32, u16)>>,
    streams: Map<(u32, u16), StreamFacts>,
) -> Seq<StreamFacts>
    decreases refs.len(),
{
    if refs.len() == 0 {
        Seq::empty()
    } else {
        let rest = entry_images(refs.drop_last(), streams);
        match refs.last() {
            Some(id) => if streams.contains_key(id) && is_image_stream(streams[id]) {
                rest.push(streams[id])
            } else {
                rest
            },
            None => rest,
        }
    }
}

/// The image streams of a document in walk order: pages in order, and on
/// each page the entries of its `/XObject` resources in order.
pub open spec fn pdf_images(pages: Seq<(u32, u16)>, doc: PdfFacts) -> Seq<StreamFacts>
    decreases pages.len(),
{
    if pages.len() == 0 {
        Seq::empty()
    } else {
        let rest = pdf_images(pages.drop_last(), doc);
        match doc.1.get(pages.last()) {
            Some(refs) => rest + entry_images(refs, doc.2),
            None => rest,
        }
    }
}

/// Whether the preview of an image stream may fail.
pub open spec fn may_fail<F: Fn(Vec<u8>) -> Vec<u8>>(facts: StreamFacts, filename: Seq<char>, cmyk_to_rgb: F) -> bool {
    exists|e: String| #[trigger] stream_previews(Err(e), facts, filename, cmyk_to_rgb)
}

/// What the image preview of a PDF gives: the parse error behind a
/// prefix; else, among the document's image streams in walk order, the
/// preview of one whose predecessors may all fail; else, where every one
/// may fail, "No embedded images found".
pub open spec fn pdf_image_result<F: Fn(Vec<u8>) -> Vec<u8>>(
    r: Result<ContentPreview, String>,
    data: Seq<u8>,
    filename: Seq<char>,
    cmyk_to_rgb: F,
) -> bool {
    match pdf_document(data) {
        Err(e) => r matches Err(m) && m@ == "Failed to parse PDF: "@ + e,
        Ok(doc) => {
            let images = pdf_images(doc.0, doc);
            match r {
                Ok(_) => exists|k: int|
                    0 <= k < images.len() && #[trigger] stream_previews(r, images[k], filename, cmyk_to_rgb)
                        && forall|j: int| 0 <= j < k ==> may_fail(#[trigger] images[j], filename, cmyk_to_rgb),
                Err(m) => m@ == "No embedded images found"@ && forall|j: int|
                    0 <= j < images.len() ==> may_fail(#[trigger] images[j], filename, cmyk_to_rgb),
            }
        },
    }
}

/// The image streams of the first entries of a list form a prefix of
/// those of the whole list.
proof fn lemma_entry_images_prefix(
    refs: Seq<Option<(u32, u16)>>,
    streams: Map<(u32, u16), StreamFacts>,
    a: int,
)
    requires
        0 <= a <= refs.len(),
    ensures
        entry_images(refs.take(a), streams).is_prefix_of(entry_images(refs, streams)),
    decreases refs.len(),
{
    if a == refs.len() {
        assert(refs.take(a) =~= refs);
    } else {
        lemma_entry_images_prefix(refs.drop_last(), streams, a);
        assert(refs.drop_last().take(a) =~= refs.take(a));
    }
}

/// The image streams of the first pages form a prefix of those of all
/// pages.
proof fn lemma_pdf_images_prefix(pages: Seq<(u32, u16)>, doc: PdfFacts, a: int)
    requires
        0 <= a <= pages.len(),
    ensures
        pdf_images(pages.take(a), doc).is_prefix_of(pdf_images(pages, doc)),
    decreases pages.len(),
{
    if a == pages.len() {
        assert(pages.take(a) =~= pages);
    } else {
        lemma_pdf_images_prefix(pages.drop_last(), doc, a);
        assert(pages.drop_last().take(a) =~= pages.take(a));
    }
}

/// The first image of a PDF that previews: pages in order, and on each
/// page the entries of its `/XObject` resources in order; an entry counts
/// where it refers to a stream whose `/Subtype` is `Image`.  Fails when
/// the document does not parse or no image previews.
pub fn extract_pdf_image<F: Fn(Vec<u8>) -> Vec<u8>>(
    data: &[u8],
    filename: String,
    cmyk_to_rgb: &F,
) -> (r: Result<ContentPreview, String>)
    requires
        forall|v: Vec<u8>| cmyk_to_rgb.requires((v,)),
    ensures
        pdf_image_result(r, data@, filename@, *cmyk_to_rgb),
        r is Ok ==> image_of_file(r, filename@),
{
    let doc = match load_document(data) {
        Ok(doc) => doc,
        Err(e) => {
            let mut out: Vec<char> = Vec::new();
            push_str(&mut out, "Failed to parse PDF: ");
            push_str(&mut out, e.as_str());
            return Err(string_from_chars(&out));
        },
    };
    let ghost facts = pdf_contents(doc);
    let ghost fname = filename@;
    let pages = page_ids(&doc);
    let mut i: usize = 0;
    while i < pages.len()
        invariant
            i <= pages@.len(),
            pages@ == facts.0,
            facts == pdf_contents(doc),
            pdf_document(data@) == Ok::<PdfFacts, Seq<char>>(facts),
            fname == filename@,
            forall|v: Vec<u8>| cmyk_to_rgb.requires((v,)),
            forall|k: int|
                0 <= k < pdf_images(pages@.take(i as int), facts).len() ==> may_fail(
                    #[trigger] pdf_images(pages@.take(i as int), facts)[k],
                    fname,
                    *cmyk_to_rgb,
                ),
        decreases pages@.len() - i,
    {
        let ghost before = pdf_images(pages@.take(i as int), facts);
        proof {
            assert(pages@.take(i + 1).drop_last() =~= pages@.take(i as int));
        }
        let mut refs: Vec<Option<(u32, u16)>> = Vec::new();
        let mut has_refs = false;
        if let Some(resources) = page_resources(&doc, pages[i]) {
            if let Some(xobjects) = dict_get(resources, "XObject") {
                if let Some(xobject_dict) = xobjects.dict {
                    refs = dict_refs(xobject_dict);
                    has_refs = true;
                }
            }
        }
        assert(has_refs ==> facts.1.get(pages@[i as int]) == Some(refs@));
        assert(!has_refs ==> facts.1.get(pages@[i as int]) is None);
        let mut j: usize = 0;
        while j < refs.len()
            invariant
                j <= refs@.len(),
                pages@ == facts.0,
                facts == pdf_contents(doc),
                i < pages@.len(),
                fname == filename@,
                forall|v: Vec<u8>| cmyk_to_rgb.requires((v,)),
                before == pdf_images(pages@.take(i as int), facts),
                has_refs ==> facts.1.get(pages@[i as int]) == Some(refs@),
                !has_refs ==> refs@.len() == 0,
                pages@.take(i + 1).drop_last() == pages@.take(i as int),
                pdf_document(data@) == Ok::<PdfFacts, Seq<char>>(facts),
                forall|k: int|
                    0 <= k < (before + entry_images(refs@.take(j as int), facts.2)).len() ==> may_fail(
                        #[trigger] (before + entry_images(refs@.take(j as int), facts.2))[k],
                        fname,
                        *cmyk_to_rgb,
                    ),
            decreases refs@.len() - j,
        {
            let ghost tried = before + entry_images(refs@.take(j as int), facts.2);
            proof {
                assert(refs@.take(j + 1).drop_last() =~= refs@.take(j as int));
            }
            if let Some(id) = refs[j] {
                if let Some(stream) = document_stream(&doc, id) {
                    let subtype = name_to_text(dict_name(stream_dict(stream), "Subtype"), "");
                    if str_eq(subtype.as_str(), "Image") {
                        let preview = extract_image_from_stream(stream, filename.clone(), cmyk_to_rgb);
                        if preview.is_ok() {
                            proof {
                                lemma_stream_preview_is_image(preview, facts.2[id], fname, *cmyk_to_rgb);
                                let images = pdf_images(facts.0, facts);
                                let next = tried.push(facts.2[id]);
                                assert(entry_images(refs@.take(j + 1), facts.2) == entry_images(
                                    refs@.take(j as int),
                                    facts.2,
                                ).push(facts.2[id]));
                                assert(next =~= before + entry_images(refs@.take(j + 1), facts.2));
                                lemma_entry_images_prefix(refs@, facts.2, j + 1);
                                lemma_pdf_images_prefix(facts.0, facts, i + 1);
                                assert(has_refs);
                                assert(pages@.take(i + 1).last() == pages@[i as int]);
                                assert(pdf_images(pages@.take(i + 1), facts) == before
                                    + entry_images(refs@, facts.2));
                                assert(next.is_prefix_of(images));
                                let k = tried.len() as int;
                                assert(next =~= images.subrange(0, next.len() as int));
                                assert(next[k] == facts.2[id]);
                                assert(images.subrange(0, next.len() as int)[k] == images[k]);
                                assert(images[k] == facts.2[id]);
                                assert forall|m: int| 0 <= m < k implies may_fail(
                                    #[trigger] images[m],
                                    fname,
                                    *cmyk_to_rgb,
                                ) by {
                                    assert(images.subrange(0, next.len() as int)[m] == images[m]);
                                    assert(next[m] == tried[m]);
                                    assert(images[m] == tried[m]);
                                }
                                assert(stream_previews(preview, images[k], fname, *cmyk_to_rgb));
                                let d2 = pdf_document(data@)->Ok_0;
                                assert(pdf_images(d2.0, d2) == images);
                                assert(pdf_image_result(preview, data@, filename@, *cmyk_to_rgb));
                            }
                            return preview;
                        }
                        proof {
                            let e = preview->Err_0;
                            assert(stream_previews(Err(e), facts.2[id], fname, *cmyk_to_rgb));
                            assert(may_fail(facts.2[id], fname, *cmyk_to_rgb));
                        }
                    }
                }
            }
            proof {
                let next = before + entry_images(refs@.take(j + 1), facts.2);
                assert forall|k: int| 0 <= k < next.len() implies may_fail(#[trigger] next[k], fname, *cmyk_to_rgb) by {
                    if k < tried.len() {
                        assert(next[k] == tried[k]);
                    }
                }
            }
            j = j + 1;
        }
        proof {
            assert(refs@.take(refs@.len() as int) =~= refs@);
            let next = pdf_images(pages@.take(i + 1), facts);
            assert(pages@.take(i + 1).last() == pages@[i as int]);
            if has_refs {
                assert(next == before + entry_images(refs@, facts.2));
            } else {
                assert(next == before);
            }
        }
        i = i + 1;
    }
    proof {
        assert(pages@.take(pages@.len() as int) =~= pages@);
    }
    Err(String::from_str("No embedded images found"))
}

/// The preview of a PDF: its first embedded image that previews (see
/// `extract_pdf_image`), else its text (see `extract_pdf_text`).
pub fn load_pdf_preview_from_bytes<
    F: Fn(Vec<u8>) -> Vec<u8>,
    G: Fn(Vec<u8>) -> Result<String, String>,
>(data: &[u8], filename: String, cmyk_to_rgb: &F, extract_text: &G) -> (r: Result<
    ContentPreview,
    String,
>)
    requires
        forall|v: Vec<u8>| cmyk_to_rgb.requires((v,)),
        forall|v: Vec<u8>| extract_text.requires((v,)),
    ensures
        exists|image: Result<ContentPreview, String>|
            #[trigger] pdf_image_result(image, data@, filename@, *cmyk_to_rgb) && if image is Ok {
                r == image && image_of_file(r, filename@)
            } else {
                text_of_extraction(r, data@, filename@, *extract_text)
            },
{
    let image = extract_pdf_image(data, filename.clone(), cmyk_to_rgb);
    if image.is_ok() {
        return image;
    }
    let r = extract_pdf_text(data, filename, extract_text);
    assert(pdf_image_result(image, data@, filename@, *cmyk_to_rgb));
    r
}

} // verus!
