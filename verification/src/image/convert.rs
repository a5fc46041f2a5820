//! Conversions between the grayscale and color image forms.
use vstd::prelude::*;

use super::{GrayscaleImage, RgbaImage};

verus! {

/// Builds an RGBA image whose pixel `i` is `pixel(values[i])`, written as
/// four separate channel functions.
fn expand_gray(mask: &GrayscaleImage, copy_to_alpha: bool) -> (r: RgbaImage)
    requires
        mask.wf(),
        (mask.spec_width() as int) * (mask.spec_height() as int) * 4 <= usize::MAX,
    ensures
        r.wf(),
        r.spec_width() == mask.spec_width(),
        r.spec_height() == mask.spec_height(),
        forall|i: int|
            0 <= i < r.count() ==> #[trigger] r.px(i) == seq![
                mask.values()[i],
                mask.values()[i],
                mask.values()[i],
                if copy_to_alpha { mask.values()[i] } else { 255u8 },
            ],
{
    let values = mask.as_raw();
    let n = values.len();
    proof { mask.lemma_gray_len(); }
    let mut data: Vec<u8> = Vec::new();
    let mut i: usize = 0;
    while i < n
        invariant
            values@ == mask.values(),
            n == values@.len(),
            n == (mask.spec_width() as int) * (mask.spec_height() as int),
            n * 4 <= usize::MAX,
            i <= n,
            data@.len() == 4 * i,
            forall|j: int|
                0 <= j < i ==> #[trigger] super::rgba_at(data@, j) == seq![
                    values@[j],
                    values@[j],
                    values@[j],
                    if copy_to_alpha { values@[j] } else { 255u8 },
                ],
        decreases n - i,
    {
        let ghost before = data@;
        let v = values[i];
        data.push(v);
        data.push(v);
        data.push(v);
        data.push(if copy_to_alpha { v } else { 255 });
        assert forall|j: int| 0 <= j < i + 1 implies #[trigger] super::rgba_at(data@, j) == seq![
            values@[j],
            values@[j],
            values@[j],
            if copy_to_alpha { values@[j] } else { 255u8 },
        ] by {
            if j < i {
                assert(super::rgba_at(data@, j) =~= super::rgba_at(before, j));
            } else {
                assert(super::rgba_at(data@, j) =~= seq![v, v, v, if copy_to_alpha { v } else { 255u8 }]);
            }
        }
        i = i + 1;
    }
    let r = RgbaImage::from_raw(mask.width(), mask.height(), data);
    r.unwrap()
}

/// Converts a grayscale image to an opaque color image with the gray value
/// in each color channel.
pub fn grayscale_to_rgba(mask: &GrayscaleImage) -> (r: RgbaImage)
    requires
        mask.wf(),
        (mask.spec_width() as int) * (mask.spec_height() as int) * 4 <= usize::MAX,
    ensures
        r.wf(),
        r.spec_width() == mask.spec_width(),
        r.spec_height() == mask.spec_height(),
        forall|i: int|
            0 <= i < r.count() ==> #[trigger] r.px(i) == seq![
                mask.values()[i],
                mask.values()[i],
                mask.values()[i],
                255u8,
            ],
{
    expand_gray(mask, false)
}

/// Converts a mask to a color image with the mask value in all four
/// channels, the form in which masks are saved.
pub fn mask_to_rgba(mask: &GrayscaleImage) -> (r: RgbaImage)
    requires
        mask.wf(),
        (mask.spec_width() as int) * (mask.spec_height() as int) * 4 <= usize::MAX,
    ensures
        r.wf(),
        r.spec_width() == mask.spec_width(),
        r.spec_height() == mask.spec_height(),
        forall|i: int|
            0 <= i < r.count() ==> #[trigger] r.px(i) == seq![
                mask.values()[i],
                mask.values()[i],
                mask.values()[i],
                mask.values()[i],
            ],
{
    expand_gray(mask, true)
}

} // verus!
