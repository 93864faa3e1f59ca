//! The trusted boundary to the outside image codecs: the general-purpose
//! decoder, the RAW parser, the Catmull-Rom resampler, and the PNG encoder.
//! Every item here wraps exactly one outside call; everything computed from
//! their results is verified elsewhere.

use vstd::prelude::*;

use image::ImageEncoder;
use rawloader::RawImageData;

use crate::img::ImageBuf;

verus! {

/// What the general-purpose codec makes of a byte stream: whether it
/// decodes, and if so the width, height and RGBA8 bytes. The result depends
/// on the bytes alone.
pub uninterp spec fn image_decode(bytes: Seq<u8>) -> (bool, nat, nat, Seq<u8>);

/// What the RAW parser makes of a byte stream: whether it parses, and if
/// so the width, height, components per pixel, samples, row-major
/// color-plane indices, and the R/G/B black and white levels. The result
/// depends on the bytes alone.
pub uninterp spec fn raw_parse(bytes: Seq<u8>) -> (
    bool,
    nat,
    nat,
    nat,
    Seq<u16>,
    Seq<u8>,
    (int, int, int),
    (int, int, int),
);

/// What the RAW parser's last-resort dummy mode makes of a byte stream,
/// in the same shape as `raw_parse`; a function of the bytes alone.
pub uninterp spec fn dummy_parse(bytes: Seq<u8>) -> (
    bool,
    nat,
    nat,
    nat,
    Seq<u16>,
    Seq<u8>,
    (int, int, int),
    (int, int, int),
);

/// The Catmull-Rom resample of an RGBA8 buffer to new dimensions; a
/// function of the pixels and the dimensions alone.
pub uninterp spec fn cubic_resize(data: Seq<u8>, w: nat, h: nat, nw: nat, nh: nat) -> Seq<u8>;

/// The PNG encoding of an RGBA8 buffer at fast compression settings:
/// whether encoding succeeds, and the bytes; a function of the input alone.
pub uninterp spec fn png_encoding(w: nat, h: nat, data: Seq<u8>) -> (bool, Seq<u8>);

/// Relies on image::load_from_memory (format sniffing over the bytes) and
/// DynamicImage::to_rgba8: the decoded buffer holds exactly
/// `4 * width * height` bytes, and the result is a function of the bytes.
#[verifier::external_body]
pub(crate) fn image_decode_bytes(bytes: &Vec<u8>) -> (r: Result<(u32, u32, Vec<u8>), String>)
    ensures
        r matches Ok(t) ==> {
            &&& image_decode(bytes@).0
            &&& t.0 as nat == image_decode(bytes@).1
            &&& t.1 as nat == image_decode(bytes@).2
            &&& t.2@ == image_decode(bytes@).3
            &&& t.2@.len() == 4 * t.0 * t.1
        },
        r is Err ==> !image_decode(bytes@).0,
{
    match image::load_from_memory(bytes) {
        Ok(img) => {
            let rgba = img.to_rgba8();
            Ok((rgba.width(), rgba.height(), rgba.into_raw()))
        },
        Err(e) => Err(format!("{e}")),
    }
}

/// The executable grid tuple matches the named parse result, component by
/// component, and carries one plane index per pixel.
pub open spec fn sp_grid_matches(
    n: (bool, nat, nat, nat, Seq<u16>, Seq<u8>, (int, int, int), (int, int, int)),
    t: (u64, u64, u64, Vec<u16>, Vec<u8>, [u16; 4], [u16; 4]),
) -> bool {
    &&& t.0 as nat == n.1
    &&& t.1 as nat == n.2
    &&& t.2 as nat == n.3
    &&& t.3@ == n.4
    &&& t.4@ == n.5
    &&& (t.5[0] as int, t.5[1] as int, t.5[2] as int) == n.6
    &&& (t.6[0] as int, t.6[1] as int, t.6[2] as int) == n.7
    &&& t.4@.len() == t.0 * t.1
}

/// Relies on rawloader::decode (deterministic over the bytes, with a
/// static camera table) and the RawImage it returns: dimensions and
/// component count from its fields, samples from its data (floating-point
/// sample data truncated to integer samples), one plane index per pixel
/// from the total CFA::color_at (row-major, so the index vector has
/// exactly width*height entries by construction), and the first three
/// black/white levels (RGBE order).
#[verifier::external_body]
pub(crate) fn rawloader_grid(bytes: &Vec<u8>) -> (r: Result<
    (u64, u64, u64, Vec<u16>, Vec<u8>, [u16; 4], [u16; 4]),
    String,
>)
    ensures
        r is Ok <==> raw_parse(bytes@).0,
        r matches Ok(t) ==> sp_grid_matches(raw_parse(bytes@), t),
{
    let mut cur = std::io::Cursor::new(bytes.as_slice());
    let raw = rawloader::decode(&mut cur).map_err(|e| format!("{e}"))?;
    let samples = match &raw.data {
        RawImageData::Integer(d) => d.clone(),
        RawImageData::Float(d) => d.iter().map(|v| *v as u16).collect(),
    };
    let mut cfa = Vec::new();
    for y in 0..raw.height { for x in 0..raw.width { cfa.push(raw.cfa.color_at(y, x) as u8); } }
    Ok((raw.width as u64, raw.height as u64, raw.cpp as u64, samples, cfa,
        raw.blacklevels, raw.whitelevels))
}

/// Relies on rawloader::decode_dummy, the last-resort parse that shows
/// pixels without accurate white balance, converted exactly as
/// `rawloader_grid` converts a regular parse.
#[verifier::external_body]
pub(crate) fn rawloader_grid_dummy(bytes: &Vec<u8>) -> (r: Result<
    (u64, u64, u64, Vec<u16>, Vec<u8>, [u16; 4], [u16; 4]),
    String,
>)
    ensures
        r is Ok <==> dummy_parse(bytes@).0,
        r matches Ok(t) ==> sp_grid_matches(dummy_parse(bytes@), t),
{
    let mut cur = std::io::Cursor::new(bytes.as_slice());
    let raw = rawloader::decode_dummy(&mut cur).map_err(|e| format!("{e}"))?;
    let samples = match &raw.data {
        RawImageData::Integer(d) => d.clone(),
        RawImageData::Float(d) => d.iter().map(|v| *v as u16).collect(),
    };
    let mut cfa = Vec::new();
    for y in 0..raw.height { for x in 0..raw.width { cfa.push(raw.cfa.color_at(y, x) as u8); } }
    Ok((raw.width as u64, raw.height as u64, raw.cpp as u64, samples, cfa,
        raw.blacklevels, raw.whitelevels))
}

/// Relies on image::imageops::resize with the Catmull-Rom filter: the
/// output buffer has exactly the requested dimensions, and its pixels are a
/// function of the source pixels and the dimensions.
#[verifier::external_body]
pub(crate) fn resize_rgba_exact(img: &ImageBuf, nw: u32, nh: u32) -> (r: ImageBuf)
    requires
        img.wf(),
        1 <= nw <= crate::img::MAX_SIDE,
        1 <= nh <= crate::img::MAX_SIDE,
        nw * nh <= crate::img::MAX_PIXELS,
    ensures
        r.wf(),
        r.width == nw,
        r.height == nh,
        r.data@ == cubic_resize(img.data@, img.width as nat, img.height as nat, nw as nat, nh as nat),
{
    let src = image::RgbaImage::from_raw(img.width, img.height, img.data.clone()).unwrap();
    let out = image::imageops::resize(&src, nw, nh, image::imageops::FilterType::CatmullRom);
    ImageBuf { width: nw, height: nh, data: out.into_raw() }
}

/// Relies on image's PngEncoder at fast/no-filter settings writing into a
/// growable buffer: the encoding is a function of the pixels and
/// dimensions.
#[verifier::external_body]
pub(crate) fn encode_png_bytes(img: &ImageBuf) -> (r: Result<Vec<u8>, String>)
    requires
        img.wf(),
    ensures
        r is Ok <==> png_encoding(img.width as nat, img.height as nat, img.data@).0,
        r matches Ok(b) ==> b@ == png_encoding(img.width as nat, img.height as nat, img.data@).1,
{
    let mut buffer = Vec::new();
    let cursor = std::io::Cursor::new(&mut buffer);
    let encoder = image::codecs::png::PngEncoder::new_with_quality(
        cursor,
        image::codecs::png::CompressionType::Fast,
        image::codecs::png::FilterType::NoFilter,
    );
    match encoder.write_image(&img.data, img.width, img.height, image::ExtendedColorType::Rgba8) {
        Ok(()) => Ok(buffer),
        Err(e) => Err(format!("Failed to encode PNG: {e}")),
    }
}

} // verus!
