//! Images as plain pixel buffers and the operations that composite them.
pub mod convert;
pub mod operations;

use vstd::prelude::*;
use vstd::string::StringExecFns;

use crate::paths::{extension_of, lowercase, path_extension, to_lowercase};
use crate::table::str_eq;

verus! {

#[derive(Debug, Clone, Copy, PartialEq, Eq, Structural)]
pub enum ImageFormat {
    WebP,
    Jpeg,
    Png,
}

/// The name of each format, which is also its file extension.
pub open spec fn format_name_of(f: ImageFormat) -> Seq<char> {
    match f {
        ImageFormat::WebP => "webp"@,
        ImageFormat::Jpeg => "jpeg"@,
        ImageFormat::Png => "png"@,
    }
}

impl ImageFormat {
    pub const EXPORTABLE: [ImageFormat; 3] = [ImageFormat::WebP, ImageFormat::Jpeg, ImageFormat::Png];

    /// The name of the format, which is also its file extension.
    pub fn name(&self) -> (r: &'static str)
        ensures
            r@ == format_name_of(*self),
    {
        match self {
            Self::WebP => "webp",
            Self::Jpeg => "jpeg",
            Self::Png => "png",
        }
    }
}

} // verus!

verus! {

/// The extensions of the image files the program opens.
pub open spec fn image_extension(ext: Seq<char>) -> bool {
    ext == "png"@ || ext == "webp"@ || ext == "jpg"@ || ext == "jpeg"@
}

/// Whether the path names an image file the program opens: its extension, in
/// lower case, is `png`, `webp`, `jpg` or `jpeg`.
pub open spec fn is_image_path(path: Seq<char>) -> bool {
    match path_extension(path) {
        Some(e) => image_extension(lowercase(e)),
        None => false,
    }
}


/// The program opens exactly the files whose extension, lower-cased, is
/// `png`, `webp`, `jpg` or `jpeg`: any other extension, and a path without
/// one, is turned away.
pub proof fn lemma_image_files(path: Seq<char>)
    ensures
        is_image_path(path) <==> (path_extension(path) is Some && set!["png"@, "webp"@, "jpg"@, "jpeg"@].contains(
            lowercase(path_extension(path)->0),
        )),
{
}

/// Whether a lower-case extension is one of an image file the program opens.
pub fn is_image_extension(ext: &str) -> (r: bool)
    ensures
        r == image_extension(ext@),
{
    str_eq(ext, "png") || str_eq(ext, "webp") || str_eq(ext, "jpg") || str_eq(ext, "jpeg")
}

/// Whether the path names an image file the program opens.
pub fn image_filter(path: &str) -> (r: bool)
    ensures
        r == is_image_path(path@),
{
    match extension_of(path) {
        Some(e) => {
            let lower = to_lowercase(e.as_str());
            is_image_extension(lower.as_str())
        },
        None => false,
    }
}

/// The four channels of pixel `i` of RGBA data `d`.
pub open spec fn rgba_at(d: Seq<u8>, i: int) -> Seq<u8> {
    d.subrange(4 * i, 4 * i + 4)
}

/// An image with four 8-bit channels per pixel (red, green, blue, alpha),
/// stored row by row.
#[derive(Debug, Clone)]
pub struct RgbaImage {
    width: u32,
    height: u32,
    data: Vec<u8>,
}

/// An image with one 8-bit channel per pixel, stored row by row.
#[derive(Debug, Clone)]
pub struct GrayscaleImage {
    width: u32,
    height: u32,
    data: Vec<u8>,
}

impl RgbaImage {
    /// Well-formedness: the data holds four bytes for each pixel.
    pub closed spec fn wf(&self) -> bool {
        &&& self.data@.len() == (self.width as int) * (self.height as int) * 4
        &&& self.data@.len() <= usize::MAX
    }

    pub closed spec fn spec_width(&self) -> u32 {
        self.width
    }

    pub closed spec fn spec_height(&self) -> u32 {
        self.height
    }

    /// The bytes of the image, pixel by pixel.
    pub closed spec fn bytes(&self) -> Seq<u8> {
        self.data@
    }

    /// The number of pixels.
    pub open spec fn count(&self) -> int {
        (self.spec_width() as int) * (self.spec_height() as int)
    }

    /// The channels of pixel `i`, counting row by row.
    pub open spec fn px(&self, i: int) -> Seq<u8> {
        rgba_at(self.bytes(), i)
    }

    pub proof fn lemma_len(&self)
        requires
            self.wf(),
        ensures
            self.bytes().len() == self.count() * 4,
            self.count() * 4 <= usize::MAX,
            self.count() >= 0,
    {
        assert(self.count() >= 0) by (nonlinear_arith)
            requires self.count() == (self.width as int) * (self.height as int), self.width >= 0, self.height >= 0;
    }

    /// Builds an image from its bytes, if there are exactly four for each pixel.
    pub fn from_raw(width: u32, height: u32, data: Vec<u8>) -> (r: Option<Self>)
        ensures
            match r {
                Some(img) => img.wf() && img.spec_width() == width && img.spec_height() == height
                    && img.bytes() == data@,
                None => data@.len() != (width as int) * (height as int) * 4,
            },
    {
        assert((width as int) * (height as int) * 4 <= 0x4_0000_0000_0000_0000) by (nonlinear_arith)
            requires width <= u32::MAX, height <= u32::MAX;
        let needed: u128 = (width as u128) * (height as u128) * 4;
        if data.len() as u128 == needed {
            Some(RgbaImage { width, height, data })
        } else {
            None
        }
    }

    /// An image of the given size with every pixel set to `pixel`.
    pub fn from_pixel(width: u32, height: u32, pixel: [u8; 4]) -> (r: Self)
        requires
            (width as int) * (height as int) * 4 <= usize::MAX,
        ensures
            r.wf(),
            r.spec_width() == width,
            r.spec_height() == height,
            forall|i: int| 0 <= i < r.count() ==> #[trigger] r.px(i) == pixel@,
    {
        assert((width as int) * (height as int) <= usize::MAX) by (nonlinear_arith)
            requires (width as int) * (height as int) * 4 <= usize::MAX;
        let n: usize = (width as usize) * (height as usize);
        let mut data: Vec<u8> = Vec::new();
        let mut i: usize = 0;
        while i < n
            invariant
                n == (width as int) * (height as int),
                n * 4 <= usize::MAX,
                i <= n,
                data@.len() == 4 * i,
                forall|j: int| 0 <= j < i ==> #[trigger] rgba_at(data@, j) == pixel@,
            decreases n - i,
        {
            let ghost before = data@;
            data.push(pixel[0]);
            data.push(pixel[1]);
            data.push(pixel[2]);
            data.push(pixel[3]);
            assert forall|j: int| 0 <= j < i + 1 implies #[trigger] rgba_at(data@, j) == pixel@ by {
                if j < i {
                    assert(rgba_at(data@, j) =~= rgba_at(before, j));
                } else {
                    assert(rgba_at(data@, j) =~= pixel@);
                }
            }
            i = i + 1;
        }
        RgbaImage { width, height, data }
    }

    pub fn width(&self) -> (r: u32)
        ensures
            r == self.spec_width(),
    {
        self.width
    }

    pub fn height(&self) -> (r: u32)
        ensures
            r == self.spec_height(),
    {
        self.height
    }

    /// The bytes of the image, pixel by pixel.
    pub fn as_raw(&self) -> (r: &Vec<u8>)
        ensures
            r@ == self.bytes(),
    {
        &self.data
    }

    /// Consumes the image, giving back its bytes.
    pub fn into_raw(self) -> (r: Vec<u8>)
        ensures
            r@ == self.bytes(),
    {
        self.data
    }

    /// A copy of the image.
    pub fn duplicate(&self) -> (r: Self)
        ensures
            r.wf() == self.wf(),
            r.spec_width() == self.spec_width(),
            r.spec_height() == self.spec_height(),
            r.bytes() == self.bytes(),
    {
        RgbaImage { width: self.width, height: self.height, data: self.data.clone() }
    }

    /// The channels of pixel `i`.
    pub fn pixel(&self, i: usize) -> (r: [u8; 4])
        requires
            self.wf(),
            i < self.count(),
        ensures
            r@ == self.px(i as int),
    {
        let len = self.data.len();
        assert(i * 4 + 4 <= len);
        let b = 4 * i;
        let r = [self.data[b], self.data[b + 1], self.data[b + 2], self.data[b + 3]];
        assert(r@ =~= self.px(i as int));
        r
    }

    /// Replaces the channels of pixel `i`.
    pub fn set_pixel(&mut self, i: usize, p: [u8; 4])
        requires
            old(self).wf(),
            i < old(self).count(),
        ensures
            final(self).wf(),
            final(self).spec_width() == old(self).spec_width(),
            final(self).spec_height() == old(self).spec_height(),
            final(self).count() == old(self).count(),
            final(self).px(i as int) == p@,
            forall|j: int| 0 <= j < old(self).count() && j != i ==> #[trigger] final(self).px(j) == old(self).px(j),
    {
        let len = self.data.len();
        assert(i * 4 + 4 <= len);
        let b = 4 * i;
        self.data.set(b, p[0]);
        self.data.set(b + 1, p[1]);
        self.data.set(b + 2, p[2]);
        self.data.set(b + 3, p[3]);
        assert(self.px(i as int) =~= p@);
        assert forall|j: int| 0 <= j < old(self).count() && j != i implies #[trigger] self.px(j) == old(self).px(j) by {
            assert(self.px(j) =~= old(self).px(j));
        }
    }
}

impl GrayscaleImage {
    /// Well-formedness: the data holds one byte for each pixel.
    pub closed spec fn wf(&self) -> bool {
        &&& self.data@.len() == (self.width as int) * (self.height as int)
        &&& self.data@.len() <= usize::MAX
    }

    pub closed spec fn spec_width(&self) -> u32 {
        self.width
    }

    pub closed spec fn spec_height(&self) -> u32 {
        self.height
    }

    /// The value of each pixel, row by row.
    pub closed spec fn values(&self) -> Seq<u8> {
        self.data@
    }

    pub proof fn lemma_gray_len(&self)
        requires
            self.wf(),
        ensures
            self.values().len() == (self.spec_width() as int) * (self.spec_height() as int),
    {
    }

    /// Builds an image from its values, if there is exactly one for each pixel.
    pub fn from_raw(width: u32, height: u32, data: Vec<u8>) -> (r: Option<Self>)
        ensures
            match r {
                Some(img) => img.wf() && img.spec_width() == width && img.spec_height() == height
                    && img.values() == data@,
                None => data@.len() != (width as int) * (height as int),
            },
    {
        assert((width as int) * (height as int) <= 0x1_0000_0000_0000_0000) by (nonlinear_arith)
            requires width <= u32::MAX, height <= u32::MAX;
        let needed: u128 = (width as u128) * (height as u128);
        if data.len() as u128 == needed {
            Some(GrayscaleImage { width, height, data })
        } else {
            None
        }
    }

    pub fn width(&self) -> (r: u32)
        ensures
            r == self.spec_width(),
    {
        self.width
    }

    pub fn height(&self) -> (r: u32)
        ensures
            r == self.spec_height(),
    {
        self.height
    }

    /// A copy of the image.
    pub fn duplicate(&self) -> (r: Self)
        ensures
            r.wf() == self.wf(),
            r.spec_width() == self.spec_width(),
            r.spec_height() == self.spec_height(),
            r.values() == self.values(),
    {
        GrayscaleImage { width: self.width, height: self.height, data: self.data.clone() }
    }

    /// The values of the image, row by row.
    pub fn as_raw(&self) -> (r: &Vec<u8>)
        ensures
            r@ == self.values(),
    {
        &self.data
    }

    /// Consumes the image, giving back its values.
    pub fn into_raw(self) -> (r: Vec<u8>)
        ensures
            r@ == self.values(),
    {
        self.data
    }
}

/// Whether two images hold the same pixels at the same size.
pub open spec fn same_rgba(a: RgbaImage, b: RgbaImage) -> bool {
    &&& a.wf() == b.wf()
    &&& a.spec_width() == b.spec_width()
    &&& a.spec_height() == b.spec_height()
    &&& a.bytes() == b.bytes()
}

/// Whether two grayscale images hold the same values at the same size.
pub open spec fn same_gray(a: GrayscaleImage, b: GrayscaleImage) -> bool {
    &&& a.wf() == b.wf()
    &&& a.spec_width() == b.spec_width()
    &&& a.spec_height() == b.spec_height()
    &&& a.values() == b.values()
}

/// The image that `image::load_from_memory` decodes from `bytes`, turned
/// into RGBA by `DynamicImage::into_rgba8`: its width, height and bytes.
pub uninterp spec fn decoded_rgba(bytes: Seq<u8>) -> Option<(u32, u32, Seq<u8>)>;

/// Wrapper of `image::load_from_memory` followed by `into_rgba8`. Claims the
/// result is the named decoding of the bytes.
#[verifier::external_body]
fn decode_rgba(bytes: &[u8]) -> (r: Option<(u32, u32, Vec<u8>)>)
    ensures
        match r {
            Some((w, h, d)) => decoded_rgba(bytes@) == Some((w, h, d@)),
            None => decoded_rgba(bytes@) is None,
        },
{
    match image::load_from_memory(bytes) {
        Ok(img) => {
            let img = img.into_rgba8();
            Some((img.width(), img.height(), img.into_raw()))
        },
        Err(_) => None,
    }
}

/// How fetching an image from an address went.
pub enum Download {
    /// The address gave no response
    NoResponse,
    /// The response's body could not be read
    NoBody,
    /// The bytes of the response's body
    Body(Vec<u8>),
}

/// The message that tells why a download gave no image.
pub open spec fn download_error(d: Download) -> Seq<char> {
    match d {
        Download::NoResponse => "Error: Clipboard doesn't contain a valid URL"@,
        Download::NoBody => "Error: Couldn't download image"@,
        Download::Body(_) => "Error: URL doesn't point to a valid image"@,
    }
}

/// The image a decoding gives, if it gave one with four bytes per pixel.
pub fn image_from_decoded(decoded: Option<(u32, u32, Vec<u8>)>) -> (r: Option<RgbaImage>)
    ensures
        match decoded {
            Some((w, h, d)) => if d@.len() == (w as int) * (h as int) * 4 {
                r matches Some(img) && img.wf() && img.spec_width() == w && img.spec_height() == h
                    && img.bytes() == d@
            } else {
                r is None
            },
            None => r is None,
        },
{
    match decoded {
        Some((w, h, d)) => RgbaImage::from_raw(w, h, d),
        None => None,
    }
}

/// The image a download gives, or the message that tells why there is
/// none.
pub fn downloaded_image(download: Download) -> (r: Result<RgbaImage, String>)
    ensures
        match download {
            Download::Body(b) => match decoded_rgba(b@) {
                Some((w, h, d)) => if d.len() == (w as int) * (h as int) * 4 {
                    r matches Ok(img) && img.wf() && img.spec_width() == w && img.spec_height() == h
                        && img.bytes() == d
                } else {
                    r matches Err(e) && e@ == download_error(download)
                },
                None => r matches Err(e) && e@ == download_error(download),
            },
            _ => r matches Err(e) && e@ == download_error(download),
        },
{
    match download {
        Download::NoResponse => Err(String::from_str("Error: Clipboard doesn't contain a valid URL")),
        Download::NoBody => Err(String::from_str("Error: Couldn't download image")),
        Download::Body(bytes) => {
            let decoded = decode_rgba(bytes.as_slice());
            match image_from_decoded(decoded) {
                Some(img) => Ok(img),
                None => Err(String::from_str("Error: URL doesn't point to a valid image")),
            }
        },
    }
}

} // verus!
