//! Editor for creating new frames: the mask of a frame is flooded from a
//! chosen pixel through its transparent area.
use vstd::prelude::*;
use vstd::string::StringExecFns;

use crate::data::{
    frame_name_of, has_flagged_char, has_invalid_characters, sanitize_file_name,
    sanitize_file_name_allow_path, sanitized_file_name, sanitized_path_name, status_after_name,
    trimmed_name, FrameImage, ProgramData,
};
use crate::image::operations::{accepted, blend_pixel, flood_fill_mask, mask_at, neighbours_settled, pixel_index, rgba_blend, settled, connected_by_rank};
use crate::image::{same_gray, same_rgba, GrayscaleImage, RgbaImage};

verus! {

/// The mask value a pixel gets when the mask of a frame is created: the
/// flood spreads through pixels that are not fully opaque and marks them 255.
pub open spec fn alpha_rule(px: Seq<u8>) -> Option<u8> {
    if px[3] < 255 {
        Some(255)
    } else {
        None
    }
}

/// The checkerboard pattern under the masked area of the preview, in squares
/// of 50 pixels, with alpha `a`.
pub open spec fn checker_pixel(x: int, y: int, a: u8) -> Seq<u8> {
    let dark = (x % 100 >= 50) != (y % 100 >= 50);
    if dark {
        seq![128u8, 128u8, 128u8, a]
    } else {
        seq![158u8, 158u8, 158u8, a]
    }
}


/// The masked area of the preview is a checkerboard of 50-pixel squares:
/// the square at the origin is light (158), the other shade is dark (128),
/// and moving 50 pixels across or down always changes the shade.
pub proof fn lemma_checkerboard(x: int, y: int, a: u8)
    requires
        x >= 0,
        y >= 0,
    ensures
        checker_pixel(0, 0, a) == seq![158u8, 158u8, 158u8, a],
        checker_pixel(x, y, a) == seq![158u8, 158u8, 158u8, a] || checker_pixel(x, y, a) == seq![128u8, 128u8, 128u8, a],
        checker_pixel(x, y, a)[0] != checker_pixel(x + 50, y, a)[0],
        checker_pixel(x, y, a)[0] != checker_pixel(x, y + 50, a)[0],
        checker_pixel(x, y, a)[3] == a,
{
    lemma_half_flips(x);
    lemma_half_flips(y);
}

/// Moving 50 along an axis crosses into the other half of the 100-pixel
/// period.
proof fn lemma_half_flips(v: int)
    requires
        v >= 0,
    ensures
        (v % 100 >= 50) != ((v + 50) % 100 >= 50),
{
    let q = v / 100;
    let r = v % 100;
    assert(v == 100 * q + r && 0 <= r < 100) by {
        vstd::arithmetic::div_mod::lemma_fundamental_div_mod(v, 100);
    }
    if r < 50 {
        vstd::arithmetic::div_mod::lemma_fundamental_div_mod_converse(v + 50, 100, q, r + 50);
    } else {
        vstd::arithmetic::div_mod::lemma_fundamental_div_mod_converse(v + 50, 100, q + 1, r - 50);
    }
}

/// The preview pixel at `(x, y)`: the frame's pixel `p` drawn over the
/// checkerboard where the mask value `a` is not 0.
pub open spec fn preview_pixel(x: int, y: int, a: u8, p: Seq<u8>) -> Seq<u8> {
    if a == 0 {
        p
    } else {
        rgba_blend(checker_pixel(x, y, a), p)
    }
}

/// A pixel of the frame at `(x, y)` is in the masked area, or is fully opaque.
pub open spec fn alpha_settled(image: RgbaImage, m: Seq<u8>, x: int, y: int) -> bool {
    let w = image.spec_width() as int;
    mask_at(m, w, x, y) != 0 || image.px(pixel_index(w, x, y))[3] == 255
}

/// The warning shown when a frame name loses characters.
pub open spec fn frame_name_warning() -> Seq<char> {
    "Removed invalid characters from frame name"@
}

/// The warning shown when a frame category loses characters.
pub open spec fn frame_category_warning() -> Seq<char> {
    "Removed invalid characters from frame category"@
}

/// Whether an update left everything of the program data but its status.
pub open spec fn only_status_changed(before: ProgramData, after: ProgramData) -> bool {
    &&& after.file == before.file
    &&& after.output == before.output
    &&& after.available_frames == before.available_frames
    &&& after.theme == before.theme
    &&& after.layout == before.layout
    &&& after.naming == before.naming
    &&& after.cache == before.cache
}

/// What a message does to the editor (`before` becomes `after`) and to the
/// program data (`pd_before` becomes `pd_after`), and the action it asks
/// for.
pub open spec fn frame_maker_updated(
    before: FrameMaker,
    after: FrameMaker,
    pd_before: ProgramData,
    pd_after: ProgramData,
    message: FrameMakerMessage,
    action: FrameMakerAction,
) -> bool {
    &&& after.spec_frame() == before.spec_frame()
    &&& match message {
        FrameMakerMessage::SelectedPixel(x, y) => {
            &&& after.spec_rendering()
            &&& action matches FrameMakerAction::CreateMask(img, q) && q == (x, y) && same_rgba(
                img,
                before.spec_frame(),
            )
            &&& after.spec_name() == before.spec_name()
            &&& after.spec_category() == before.spec_category()
            &&& after.spec_preview() == before.spec_preview()
            &&& after.spec_mask() == before.spec_mask()
            &&& pd_after == pd_before
        },
        FrameMakerMessage::GeneratedMask(image, mask) => {
            &&& !after.spec_rendering()
            &&& after.spec_mask() == Some(mask)
            &&& after.spec_preview() == image
            &&& action is Nothing
            &&& after.spec_name() == before.spec_name()
            &&& after.spec_category() == before.spec_category()
            &&& pd_after == pd_before
        },
        FrameMakerMessage::SetName(n) => {
            &&& after.spec_name() == sanitized_file_name(n@)
            &&& exists|sep: char|
                (sep == '/' || sep == '\\') && status_after_name(
                    pd_before.status.current(),
                    pd_after.status.current(),
                    n@,
                    sep,
                    frame_name_warning(),
                )
            &&& only_status_changed(pd_before, pd_after)
            &&& action is Nothing
            &&& after.spec_category() == before.spec_category()
            &&& after.spec_preview() == before.spec_preview()
            &&& after.spec_mask() == before.spec_mask()
            &&& after.spec_rendering() == before.spec_rendering()
        },
        FrameMakerMessage::SetCategory(n) => {
            &&& exists|sep: char|
                (sep == '/' || sep == '\\') && after.spec_category() == sanitized_path_name(
                    n@,
                    sep,
                )
            &&& exists|sep: char|
                (sep == '/' || sep == '\\') && status_after_name(
                    pd_before.status.current(),
                    pd_after.status.current(),
                    n@,
                    sep,
                    frame_category_warning(),
                )
            &&& only_status_changed(pd_before, pd_after)
            &&& action is Nothing
            &&& after.spec_name() == before.spec_name()
            &&& after.spec_preview() == before.spec_preview()
            &&& after.spec_mask() == before.spec_mask()
            &&& after.spec_rendering() == before.spec_rendering()
        },
    }
}

/// The frame image `f` that the editor `fm` exports.
pub open spec fn frame_of(fm: FrameMaker, f: FrameImage) -> bool {
    &&& f.spec_name() == frame_name_of(fm.spec_name())
    &&& f.spec_category() == trimmed_name(fm.spec_category())
    &&& f.spec_id() == f.spec_category() + "/"@ + f.spec_name()
    &&& same_rgba(f.spec_image(), fm.spec_frame())
    &&& match (f.spec_mask(), fm.spec_mask()) {
        (Some(a), Some(b)) => same_gray(a, b),
        (None, None) => true,
        _ => false,
    }
}

/// Editor for creating new frames for use in the program
pub struct FrameMaker {
    /// Name for the new frame image
    name: String,
    /// Name for the category this frame should be added to
    category: String,
    /// Preview to display in the editor
    preview: RgbaImage,
    /// Actual image of the frame
    frame: RgbaImage,
    /// The grayscale mask image this editor is meant to help create
    mask: Option<GrayscaleImage>,
    /// Flag that marks whatever the editor is awaiting rendering result
    rendering: bool,
}

#[derive(Debug, Clone)]
pub enum FrameMakerMessage {
    /// Result of user clicking the pixel sampler; the pixel location the
    /// user clicked
    SelectedPixel(u32, u32),
    /// Result of generating the frame, gives preview image and the mask
    GeneratedMask(RgbaImage, GrayscaleImage),
    /// Sets the name for the frame
    SetName(String),
    /// Sets the category for the frame
    SetCategory(String),
}

/// What the caller is to do after a message.
pub enum FrameMakerAction {
    /// Nothing
    Nothing,
    /// Run `create_mask` on this frame from this pixel, and send its result
    /// back as `GeneratedMask`.
    CreateMask(RgbaImage, (u32, u32)),
}

impl FrameMaker {
    pub closed spec fn spec_name(&self) -> Seq<char> {
        self.name@
    }

    pub closed spec fn spec_category(&self) -> Seq<char> {
        self.category@
    }

    pub closed spec fn spec_preview(&self) -> RgbaImage {
        self.preview
    }

    pub closed spec fn spec_frame(&self) -> RgbaImage {
        self.frame
    }

    pub closed spec fn spec_mask(&self) -> Option<GrayscaleImage> {
        self.mask
    }

    pub closed spec fn spec_rendering(&self) -> bool {
        self.rendering
    }

    /// Creates empty `FrameMaker` editor. You need to call `load` function on it to initialize it
    pub fn new() -> (r: Self)
        ensures
            r.spec_name() == "frame"@,
            r.spec_category() == "frame"@,
            r.spec_mask() is None,
            !r.spec_rendering(),
            r.spec_frame().wf(),
            r.spec_frame().spec_width() == 1,
            r.spec_frame().spec_height() == 1,
            r.spec_frame().px(0) == seq![0u8, 0u8, 0u8, 0u8],
            same_rgba(r.spec_preview(), r.spec_frame()),
    {
        let image = RgbaImage::from_pixel(1, 1, [0, 0, 0, 0]);
        proof {
            assert(image.px(0) =~= seq![0u8, 0u8, 0u8, 0u8]);
        }
        FrameMaker {
            name: String::from_str("frame"),
            category: String::from_str("frame"),
            mask: None,
            preview: image.duplicate(),
            frame: image,
            rendering: false,
        }
    }

    /// Changes name displayed in the editor
    pub fn set_name(&mut self, name: String)
        ensures
            final(self).spec_name() == name@,
            final(self).spec_category() == old(self).spec_category(),
            final(self).spec_preview() == old(self).spec_preview(),
            final(self).spec_frame() == old(self).spec_frame(),
            final(self).spec_mask() == old(self).spec_mask(),
            final(self).spec_rendering() == old(self).spec_rendering(),
    {
        self.name = name;
    }

    /// Loads provided image into the editor, making it ready for display
    pub fn load(&mut self, frame: RgbaImage)
        ensures
            final(self).spec_name() == "new-frame"@,
            final(self).spec_category() == "frame"@,
            final(self).spec_mask() is None,
            final(self).spec_frame() == frame,
            same_rgba(final(self).spec_preview(), frame),
            final(self).spec_rendering() == old(self).spec_rendering(),
    {
        self.name = String::from_str("new-frame");
        self.category = String::from_str("frame");
        self.mask = None;
        self.preview = frame.duplicate();
        self.frame = frame;
    }

    /// The image shown in the editor: the frame, or once its mask is made,
    /// the frame over a checkerboard where the mask is.
    pub fn preview(&self) -> (r: &RgbaImage)
        ensures
            *r == self.spec_preview(),
    {
        &self.preview
    }

    /// Name of the new frame
    pub fn name(&self) -> (r: &str)
        ensures
            r@ == self.spec_name(),
    {
        self.name.as_str()
    }

    /// Category of the new frame
    pub fn category(&self) -> (r: &str)
        ensures
            r@ == self.spec_category(),
    {
        self.category.as_str()
    }

    /// Exports editor result to a `FrameImage`
    pub fn create_frame(&self) -> (r: FrameImage)
        ensures
            frame_of(*self, r),
    {
        let mask = match &self.mask {
            Some(m) => Some(m.duplicate()),
            None => None,
        };
        FrameImage::new(self.name.clone(), self.category.clone(), self.frame.duplicate(), mask)
    }

    /// Tests if the frame can be saved: it needs its mask, and no mask may
    /// be on its way.
    pub fn can_save(&self) -> (r: bool)
        ensures
            r == (self.spec_mask() is Some && !self.spec_rendering()),
    {
        // must have the mask to save
        if self.mask.is_none() {
            return false;
        }
        // have to wait to finish rendering
        if self.rendering {
            return false;
        }
        true
    }

    /// Handles messages produced by the editor
    pub fn update(&mut self, message: FrameMakerMessage, pdata: &mut ProgramData) -> (action: FrameMakerAction)
        ensures
            frame_maker_updated(*old(self), *final(self), *old(pdata), *final(pdata), message, action),
    {
        match message {
            FrameMakerMessage::SelectedPixel(x, y) => {
                self.rendering = true;
                FrameMakerAction::CreateMask(self.frame.duplicate(), (x, y))
            },
            FrameMakerMessage::GeneratedMask(image, mask) => {
                self.rendering = false;
                self.mask = Some(mask);
                self.preview = image;
                FrameMakerAction::Nothing
            },
            FrameMakerMessage::SetName(n) => {
                let ghost before = pdata.status.current();
                let invalid = has_invalid_characters(n.as_str());
                let ghost sep = choose|sep: char|
                    (sep == '/' || sep == '\\') && invalid == has_flagged_char(n@, sep);
                if invalid {
                    pdata.status.warning("Removed invalid characters from frame name");
                }
                assert(status_after_name(before, pdata.status.current(), n@, sep, frame_name_warning()));
                self.name = sanitize_file_name(n);
                FrameMakerAction::Nothing
            },
            FrameMakerMessage::SetCategory(n) => {
                let ghost before = pdata.status.current();
                let invalid = has_invalid_characters(n.as_str());
                let ghost sep = choose|sep: char|
                    (sep == '/' || sep == '\\') && invalid == has_flagged_char(n@, sep);
                if invalid {
                    pdata.status.warning("Removed invalid characters from frame category");
                }
                assert(status_after_name(before, pdata.status.current(), n@, sep, frame_category_warning()));
                self.category = sanitize_file_name_allow_path(n);
                FrameMakerAction::Nothing
            },
        }
    }
}

/// Creates a mask out of the image by flood spreading the mask pixel by pixel from the source position using alpha channel of the image.
///
/// Returns a preview, in which the masked area shows a checkerboard under
/// the frame, and the mask.
pub fn create_mask(image: RgbaImage, flood_source: (u32, u32)) -> (r: (RgbaImage, GrayscaleImage))
    requires
        image.wf(),
        flood_source.0 < image.spec_width(),
        flood_source.1 < image.spec_height(),
    ensures
        ({
            let (preview, mask) = r;
            let w = image.spec_width() as int;
            let h = image.spec_height() as int;
            &&& mask.wf()
            &&& mask.spec_width() == image.spec_width()
            &&& mask.spec_height() == image.spec_height()
            // the mask is 255 on some pixels that are not fully opaque and 0 elsewhere
            &&& forall|i: int|
                0 <= i < image.count() ==> #[trigger] mask.values()[i] == 0 || (mask.values()[i] == 255
                    && image.px(i)[3] < 255)
            // it starts at the source, unless that pixel is fully opaque
            &&& alpha_settled(image, mask.values(), flood_source.0 as int, flood_source.1 as int)
            // it spreads to every neighbour that is not fully opaque
            &&& forall|x: int, y: int|
                0 <= x < w && 0 <= y < h && #[trigger] mask_at(mask.values(), w, x, y) != 0 ==> {
                    &&& x > 0 ==> alpha_settled(image, mask.values(), x - 1, y)
                    &&& x + 1 < w ==> alpha_settled(image, mask.values(), x + 1, y)
                    &&& y > 0 ==> alpha_settled(image, mask.values(), x, y - 1)
                    &&& y + 1 < h ==> alpha_settled(image, mask.values(), x, y + 1)
                }
            // and reaches only pixels joined to the source through the masked area
            &&& exists|rank: Seq<int>|
                connected_by_rank(mask.values(), rank, w, h, 0, flood_source.0 as int, flood_source.1 as int)
            &&& preview.wf()
            &&& preview.spec_width() == image.spec_width()
            &&& preview.spec_height() == image.spec_height()
            &&& forall|i: int|
                0 <= i < image.count() ==> #[trigger] preview.px(i) == preview_pixel(
                    i % w,
                    i / w,
                    mask.values()[i],
                    image.px(i),
                )
        }),
{
    let rule = |s: &[u8]| -> (r: Option<u8>)
        requires
            s@.len() == 4,
        ensures
            r == alpha_rule(s@),
        {
            if s[3] < 255 {
                Some(255)
            } else {
                None
            }
        };
    let mask = flood_fill_mask(&image, flood_source, 0, rule);
    let ghost w = image.spec_width() as int;
    let ghost h = image.spec_height() as int;
    proof {
        let m = mask.values();
        assert forall|i: int| 0 <= i < image.count() implies #[trigger] m[i] == 0 || (m[i] == 255 && image.px(i)[3] < 255) by {
            if m[i] != 0 {
                assert(accepted(rule, image.px(i), m[i]));
                let s = choose|s: &[u8]| s@ == image.px(i) && #[trigger] call_ensures(rule, (s,), Some(m[i]));
            }
        }
        assert forall|x: int, y: int| 0 <= x < w && 0 <= y < h && settled(image, rule, m, 0, x, y) implies alpha_settled(image, m, x, y) by {
            if mask_at(m, w, x, y) == 0 {
                let s = choose|s: &[u8]| s@ == image.px(pixel_index(w, x, y)) && #[trigger] call_ensures(rule, (s,), None::<u8>);
            }
        }
        assert forall|x: int, y: int|
            0 <= x < w && 0 <= y < h && #[trigger] mask_at(m, w, x, y) != 0 implies {
                &&& x > 0 ==> alpha_settled(image, m, x - 1, y)
                &&& x + 1 < w ==> alpha_settled(image, m, x + 1, y)
                &&& y > 0 ==> alpha_settled(image, m, x, y - 1)
                &&& y + 1 < h ==> alpha_settled(image, m, x, y + 1)
            } by {
            assert(neighbours_settled(image, rule, m, 0, x, y));
        }
    }
    let preview = checker_preview(&image, &mask);
    (preview, mask)
}

/// The preview of a frame and its mask: the frame drawn over a checkerboard
/// where the mask is not 0.
fn checker_preview(image: &RgbaImage, mask: &GrayscaleImage) -> (r: RgbaImage)
    requires
        image.wf(),
        mask.wf(),
        mask.spec_width() == image.spec_width(),
        mask.spec_height() == image.spec_height(),
    ensures
        r.wf(),
        r.spec_width() == image.spec_width(),
        r.spec_height() == image.spec_height(),
        forall|i: int|
            0 <= i < image.count() ==> #[trigger] r.px(i) == preview_pixel(
                i % (image.spec_width() as int),
                i / (image.spec_width() as int),
                mask.values()[i],
                image.px(i),
            ),
{
    let ghost w = image.spec_width() as int;
    proof {
        image.lemma_len();
        mask.lemma_gray_len();
    }
    let width = image.width();
    let n = mask.as_raw().len();
    let values = mask.as_raw();
    let mut data: Vec<u8> = Vec::new();
    let mut i: usize = 0;
    let mut x: u32 = 0;
    let mut y: u64 = 0;
    while i < n
        invariant
            image.wf(),
            values@ == mask.values(),
            n == values@.len(),
            n == image.count(),
            n * 4 <= usize::MAX,
            width == w,
            i <= n,
            i < n ==> (w > 0 && x < w && i == w * y + x),
            data@.len() == 4 * i,
            forall|j: int|
                0 <= j < i ==> #[trigger] crate::image::rgba_at(data@, j) == preview_pixel(
                    j % w,
                    j / w,
                    values@[j],
                    image.px(j),
                ),
        decreases n - i,
    {
        proof {
            assert(i as int == (y as int) * w + x) by (nonlinear_arith)
                requires i as int == w * y + x;
            vstd::arithmetic::div_mod::lemma_fundamental_div_mod_converse(i as int, w, y as int, x as int);
        }
        let ghost before = data@;
        let a = values[i];
        let pixel = image.pixel(i);
        let out = if a == 0 {
            pixel
        } else {
            let dark = (x % 100 >= 50) != (y % 100 >= 50);
            let grid: [u8; 4] = if dark {
                [128, 128, 128, a]
            } else {
                [158, 158, 158, a]
            };
            assert(grid@ =~= checker_pixel(x as int, y as int, a));
            blend_pixel(grid, pixel)
        };
        data.push(out[0]);
        data.push(out[1]);
        data.push(out[2]);
        data.push(out[3]);
        assert forall|j: int| 0 <= j < i + 1 implies #[trigger] crate::image::rgba_at(data@, j) == preview_pixel(
            j % w,
            j / w,
            values@[j],
            image.px(j),
        ) by {
            if j < i {
                assert(crate::image::rgba_at(data@, j) =~= crate::image::rgba_at(before, j));
            } else {
                assert(crate::image::rgba_at(data@, j) =~= out@);
            }
        }
        let ghost old_x = x as int;
        let ghost old_y = y as int;
        i = i + 1;
        if x + 1 < width {
            x = x + 1;
        } else {
            x = 0;
            y = y + 1;
        }
        proof {
            if i < n {
                if old_x + 1 < w {
                    assert(w * y + x == i);
                } else {
                    assert(w * (old_y + 1) == w * old_y + w) by (nonlinear_arith);
                }
            }
        }
    }
    let r = RgbaImage::from_raw(image.width(), image.height(), data);
    r.unwrap()
}

} // verus!
