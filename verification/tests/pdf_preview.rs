use lopdf::{Dictionary, Document, Object, Stream};
use ultimate64_manager::pdf_preview::{
    convert_raw_to_image, extract_image_from_stream, extract_pdf_image, extract_pdf_text, image_preview_from,
    load_pdf_preview_from_bytes, read_image_info, text_preview, ContentPreview, ImageStreamInfo,
};

fn cmyk_to_rgb(data: Vec<u8>) -> Vec<u8> {
    data.chunks(4)
        .flat_map(|cmyk| {
            if cmyk.len() == 4 {
                let c = cmyk[0] as f32 / 255.0;
                let m = cmyk[1] as f32 / 255.0;
                let y = cmyk[2] as f32 / 255.0;
                let k = cmyk[3] as f32 / 255.0;
                vec![
                    ((1.0 - c) * (1.0 - k) * 255.0) as u8,
                    ((1.0 - m) * (1.0 - k) * 255.0) as u8,
                    ((1.0 - y) * (1.0 - k) * 255.0) as u8,
                ]
            } else {
                vec![0, 0, 0]
            }
        })
        .collect()
}

fn extract_text(data: Vec<u8>) -> Result<String, String> {
    pdf_extract::extract_text_from_mem(&data).map_err(|e| e.to_string())
}

fn err_text(r: Result<ContentPreview, String>) -> String {
    match r {
        Err(e) => e,
        Ok(p) => panic!("expected an error, got {:?}", p),
    }
}

fn image_dims(r: &Result<ContentPreview, String>) -> (String, u32, u32, bool) {
    match r {
        Ok(ContentPreview::Image { filename, data, width, height }) => {
            (filename.clone(), *width, *height, data.starts_with(&[0x89, b'P', b'N', b'G']))
        }
        other => panic!("expected an image, got {:?}", other),
    }
}

fn info(width: Option<i64>, height: Option<i64>, filter: Option<&str>, cs: Option<&str>, bpc: Option<i64>) -> ImageStreamInfo {
    ImageStreamInfo {
        width,
        height,
        filter: filter.map(|f| f.as_bytes().to_vec()),
        color_space: cs.map(|c| c.as_bytes().to_vec()),
        bits_per_component: bpc,
    }
}

#[test]
fn text_preview_trims_and_counts_lines() {
    let r = text_preview(Ok("  \nfirst\nsecond\n\nthird\n  ".to_string()), "doc.pdf".to_string());
    match r {
        Ok(ContentPreview::Text { filename, content, line_count }) => {
            assert_eq!(filename, "doc.pdf");
            assert_eq!(content, "first\nsecond\n\nthird");
            assert_eq!(line_count, 4);
        }
        other => panic!("unexpected {:?}", other),
    }
}

#[test]
fn text_preview_single_line() {
    match text_preview(Ok("hello".to_string()), "a.pdf".to_string()) {
        Ok(ContentPreview::Text { content, line_count, .. }) => {
            assert_eq!(content, "hello");
            assert_eq!(line_count, 1);
        }
        other => panic!("unexpected {:?}", other),
    }
}

#[test]
fn text_preview_errors() {
    assert_eq!(
        err_text(text_preview(Ok(" \n\t ".to_string()), "a.pdf".to_string())),
        "PDF contains no extractable text or images"
    );
    assert_eq!(
        err_text(text_preview(Err("bad xref".to_string()), "a.pdf".to_string())),
        "Failed to extract text: bad xref"
    );
}

#[test]
fn raw_gray_image_previews_as_png() {
    let r = convert_raw_to_image(&[0, 128, 255, 64], 2, 2, "DeviceGray", 8, "g.pdf".to_string(), &cmyk_to_rgb);
    assert_eq!(image_dims(&r), ("g.pdf".to_string(), 2, 2, true));
}

#[test]
fn raw_images_too_short_fail() {
    assert_eq!(
        err_text(convert_raw_to_image(&[0, 1, 2], 2, 2, "DeviceGray", 8, "g".to_string(), &cmyk_to_rgb)),
        "Failed to create grayscale image"
    );
    assert_eq!(
        err_text(convert_raw_to_image(&[0; 11], 2, 2, "DeviceRGB", 8, "g".to_string(), &cmyk_to_rgb)),
        "Failed to create RGB image"
    );
    assert_eq!(
        err_text(convert_raw_to_image(&[0; 12], 2, 2, "DeviceCMYK", 8, "g".to_string(), &cmyk_to_rgb)),
        "Failed to create RGB image from CMYK"
    );
    assert_eq!(
        err_text(convert_raw_to_image(&[0xff], 3, 3, "DeviceGray", 1, "g".to_string(), &cmyk_to_rgb)),
        "Failed to create 1-bit grayscale image"
    );
}

#[test]
fn raw_rgb_cmyk_and_bitmap_images_preview() {
    let rgb = convert_raw_to_image(&[0; 12], 2, 2, "DeviceRGB", 8, "c.pdf".to_string(), &cmyk_to_rgb);
    assert_eq!(image_dims(&rgb), ("c.pdf".to_string(), 2, 2, true));
    let cmyk = convert_raw_to_image(&[0; 16], 2, 2, "DeviceCMYK", 8, "c.pdf".to_string(), &cmyk_to_rgb);
    assert_eq!(image_dims(&cmyk), ("c.pdf".to_string(), 2, 2, true));
    let bits = convert_raw_to_image(&[0b1010_0000, 0xff], 3, 3, "DeviceGray", 1, "b.pdf".to_string(), &cmyk_to_rgb);
    assert_eq!(image_dims(&bits), ("b.pdf".to_string(), 3, 3, true));
}

#[test]
fn raw_unsupported_format_is_named() {
    assert_eq!(
        err_text(convert_raw_to_image(&[0; 4], 1, 1, "DeviceN", 8, "x".to_string(), &cmyk_to_rgb)),
        "Unsupported color space/depth: DeviceN / 8 bits"
    );
    assert_eq!(
        err_text(convert_raw_to_image(&[0; 4], 1, 1, "DeviceRGB", 16, "x".to_string(), &cmyk_to_rgb)),
        "Unsupported color space/depth: DeviceRGB / 16 bits"
    );
}

#[test]
fn stream_preview_checks_dimensions_content_and_filter() {
    assert_eq!(
        err_text(image_preview_from(&info(None, Some(4), None, None, None), Ok(vec![0; 4]), "s".to_string(), &cmyk_to_rgb)),
        "Invalid image dimensions"
    );
    assert_eq!(
        err_text(image_preview_from(&info(Some(1i64 << 32), Some(4), None, None, None), Ok(vec![0; 4]), "s".to_string(), &cmyk_to_rgb)),
        "Invalid image dimensions"
    );
    assert_eq!(
        err_text(image_preview_from(&info(Some(2), Some(2), None, None, None), Err("zlib".to_string()), "s".to_string(), &cmyk_to_rgb)),
        "Failed to decompress: zlib"
    );
    assert_eq!(
        err_text(image_preview_from(&info(Some(2), Some(2), Some("LZWDecode"), None, None), Ok(vec![0; 4]), "s".to_string(), &cmyk_to_rgb)),
        "Unsupported image filter: LZWDecode"
    );
    let jpeg = err_text(image_preview_from(&info(Some(2), Some(2), Some("DCTDecode"), None, None), Ok(vec![1, 2, 3]), "s".to_string(), &cmyk_to_rgb));
    assert!(jpeg.starts_with("Failed to decode JPEG: "), "{}", jpeg);
    let jpx = err_text(image_preview_from(&info(Some(2), Some(2), Some("JPXDecode"), None, None), Ok(vec![1, 2, 3]), "s".to_string(), &cmyk_to_rgb));
    assert!(jpx.starts_with("Failed to decode JPEG2000: "), "{}", jpx);
}

#[test]
fn stream_preview_defaults_to_8_bit_gray() {
    let r = image_preview_from(&info(Some(2), Some(1), Some("FlateDecode"), None, None), Ok(vec![0, 255]), "d.pdf".to_string(), &cmyk_to_rgb);
    assert_eq!(image_dims(&r), ("d.pdf".to_string(), 2, 1, true));
    let r = image_preview_from(&info(Some(8), Some(1), None, Some("DeviceGray"), Some(1)), Ok(vec![0xf0]), "d.pdf".to_string(), &cmyk_to_rgb);
    assert_eq!(image_dims(&r), ("d.pdf".to_string(), 8, 1, true));
}

fn image_stream(width: i64, height: i64, content: Vec<u8>) -> Stream {
    let mut dict = Dictionary::new();
    dict.set("Type", Object::Name(b"XObject".to_vec()));
    dict.set("Subtype", Object::Name(b"Image".to_vec()));
    dict.set("Width", Object::Integer(width));
    dict.set("Height", Object::Integer(height));
    dict.set("ColorSpace", Object::Name(b"DeviceGray".to_vec()));
    dict.set("BitsPerComponent", Object::Integer(8));
    Stream::new(dict, content)
}

fn pdf_with_image(stream: Stream) -> Vec<u8> {
    pdf_with_images(vec![stream])
}

fn pdf_with_images(streams: Vec<Stream>) -> Vec<u8> {
    let mut doc = Document::with_version("1.5");
    let pages_id = doc.new_object_id();
    let mut xobjects = Dictionary::new();
    for (n, stream) in streams.into_iter().enumerate() {
        let image_id = doc.add_object(Object::Stream(stream));
        xobjects.set(format!("Im{}", n), Object::Reference(image_id));
    }
    let mut resources = Dictionary::new();
    resources.set("XObject", Object::Dictionary(xobjects));
    let mut page = Dictionary::new();
    page.set("Type", Object::Name(b"Page".to_vec()));
    page.set("Parent", Object::Reference(pages_id));
    page.set("Resources", Object::Dictionary(resources));
    page.set(
        "MediaBox",
        Object::Array(vec![Object::Integer(0), Object::Integer(0), Object::Integer(10), Object::Integer(10)]),
    );
    let page_id = doc.add_object(Object::Dictionary(page));
    let mut pages = Dictionary::new();
    pages.set("Type", Object::Name(b"Pages".to_vec()));
    pages.set("Kids", Object::Array(vec![Object::Reference(page_id)]));
    pages.set("Count", Object::Integer(1));
    doc.objects.insert(pages_id, Object::Dictionary(pages));
    let mut catalog = Dictionary::new();
    catalog.set("Type", Object::Name(b"Catalog".to_vec()));
    catalog.set("Pages", Object::Reference(pages_id));
    let catalog_id = doc.add_object(Object::Dictionary(catalog));
    doc.trailer.set("Root", Object::Reference(catalog_id));
    let mut out = Vec::new();
    doc.save_to(&mut out).expect("save");
    out
}

#[test]
fn stream_of_a_document_previews() {
    let r = extract_image_from_stream(&image_stream(2, 2, vec![0, 80, 160, 240]), "s.pdf".to_string(), &cmyk_to_rgb);
    assert_eq!(image_dims(&r), ("s.pdf".to_string(), 2, 2, true));
}

#[test]
fn pdf_image_found_in_page_resources() {
    let bytes = pdf_with_image(image_stream(2, 2, vec![0, 80, 160, 240]));
    let r = extract_pdf_image(&bytes, "scan.pdf".to_string(), &cmyk_to_rgb);
    assert_eq!(image_dims(&r), ("scan.pdf".to_string(), 2, 2, true));
    let r = load_pdf_preview_from_bytes(&bytes, "scan.pdf".to_string(), &cmyk_to_rgb, &extract_text);
    assert_eq!(image_dims(&r), ("scan.pdf".to_string(), 2, 2, true));
}

#[test]
fn pdf_without_usable_image() {
    let bytes = pdf_with_image(image_stream(0, 2, vec![0, 1]));
    assert_eq!(err_text(extract_pdf_image(&bytes, "t.pdf".to_string(), &cmyk_to_rgb)), "No embedded images found");
}

#[test]
fn garbage_is_not_a_pdf() {
    let e = err_text(extract_pdf_image(b"not a pdf", "x.pdf".to_string(), &cmyk_to_rgb));
    assert!(e.starts_with("Failed to parse PDF: "), "{}", e);
    let e = err_text(load_pdf_preview_from_bytes(b"not a pdf", "x.pdf".to_string(), &cmyk_to_rgb, &extract_text));
    assert!(e.starts_with("Failed to extract text: "), "{}", e);
}

#[test]
fn image_info_reads_the_dictionary() {
    let mut d = Dictionary::new();
    d.set("Width", Object::Integer(640));
    d.set("Height", Object::Integer(480));
    d.set("Filter", Object::Name(b"DCTDecode".to_vec()));
    d.set("ColorSpace", Object::Integer(3));
    let info = read_image_info(&d);
    assert_eq!(info.width, Some(640));
    assert_eq!(info.height, Some(480));
    assert_eq!(info.filter, Some(b"DCTDecode".to_vec()));
    assert_eq!(info.color_space, None);
    assert_eq!(info.bits_per_component, None);
}

#[test]
fn pdf_walk_skips_images_that_fail_and_other_xobjects() {
    let mut form = image_stream(2, 2, vec![0, 80, 160, 240]);
    form.dict.set("Subtype", Object::Name(b"Form".to_vec()));
    let bytes = pdf_with_images(vec![
        image_stream(0, 2, vec![0, 1]),
        form,
        image_stream(3, 1, vec![10, 20, 30]),
    ]);
    let r = extract_pdf_image(&bytes, "walk.pdf".to_string(), &cmyk_to_rgb);
    assert_eq!(image_dims(&r), ("walk.pdf".to_string(), 3, 1, true));
}

#[test]
fn raw_images_with_trailing_bytes_are_refused() {
    assert_eq!(
        err_text(convert_raw_to_image(&[0, 1, 2, 3, 4], 2, 2, "DeviceGray", 8, "g".to_string(), &cmyk_to_rgb)),
        "Image data does not match its size"
    );
    assert_eq!(
        err_text(convert_raw_to_image(&[0; 13], 2, 2, "DeviceRGB", 8, "g".to_string(), &cmyk_to_rgb)),
        "Image data does not match its size"
    );
}

#[test]
fn cmyk_pixels_go_through_the_conversion() {
    let r = convert_raw_to_image(&[0, 0, 0, 0, 255, 255, 255, 255], 2, 1, "DeviceCMYK", 8, "c".to_string(), &cmyk_to_rgb);
    assert_eq!(image_dims(&r), ("c".to_string(), 2, 1, true));
    let to_black = |v: Vec<u8>| vec![0u8; v.len() / 4 * 3];
    let r = convert_raw_to_image(&[9; 8], 2, 1, "DeviceCMYK", 8, "c".to_string(), &to_black);
    assert_eq!(image_dims(&r), ("c".to_string(), 2, 1, true));
    let too_short = |_v: Vec<u8>| vec![0u8; 5];
    assert_eq!(
        err_text(convert_raw_to_image(&[9; 8], 2, 1, "DeviceCMYK", 8, "c".to_string(), &too_short)),
        "Failed to create RGB image from CMYK"
    );
}

#[test]
fn pdf_text_comes_from_the_extractor() {
    let text = |_v: Vec<u8>| Ok::<String, String>("  Hello\nworld \n".to_string());
    match extract_pdf_text(b"%PDF", "t.pdf".to_string(), &text) {
        Ok(ContentPreview::Text { filename, content, line_count }) => {
            assert_eq!(filename, "t.pdf");
            assert_eq!(content, "Hello\nworld");
            assert_eq!(line_count, 2);
        }
        other => panic!("expected text, got {:?}", other),
    }
    let failing = |_v: Vec<u8>| Err::<String, String>("broken".to_string());
    assert!(err_text(extract_pdf_text(b"%PDF", "t.pdf".to_string(), &failing)).contains("broken"));
}
