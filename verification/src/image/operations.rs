//! Pixel operations that composite images.
use vstd::prelude::*;

use super::{GrayscaleImage, RgbaImage};

verus! {

/// The pixel that `image::Rgba::<u8>::blend` leaves in place of `bottom` when
/// `top` is drawn over it with alpha blending.
pub uninterp spec fn rgba_blend(bottom: Seq<u8>, top: Seq<u8>) -> Seq<u8>;

/// Wrapper of `<image::Rgba<u8> as image::Pixel>::blend`, drawing `top` over
/// `bottom`. Claims the result is the named blend of the two pixels, has four
/// channels, and, as the crate's source shows, is `bottom` itself when `top`
/// is fully transparent and `top` itself when `top` is fully opaque.
#[verifier::external_body]
pub(crate) fn blend_pixel(bottom: [u8; 4], top: [u8; 4]) -> (r: [u8; 4])
    ensures
        r@ == rgba_blend(bottom@, top@),
        top[3] == 0 ==> r@ == bottom@,
        top[3] == 255 ==> r@ == top@,
{
    let mut p = image::Rgba(bottom);
    image::Pixel::blend(&mut p, &image::Rgba(top));
    p.0
}

/// The pixel `p` becomes under mask value `m`: when the mask is below both
/// full opacity and the pixel's alpha, the color is scaled by `m / 255` and
/// the alpha becomes `m`; otherwise the pixel is unchanged.
pub open spec fn masked_pixel(p: Seq<u8>, m: u8) -> Seq<u8> {
    if m < 255 && m < p[3] {
        seq![
            ((p[0] as int * m as int) / 255) as u8,
            ((p[1] as int * m as int) / 255) as u8,
            ((p[2] as int * m as int) / 255) as u8,
            m,
        ]
    } else {
        p
    }
}

/// `p` with the background `under` placed beneath it, when `p` is not fully
/// opaque.
pub open spec fn underlaid_pixel(p: Seq<u8>, under: Seq<u8>) -> Seq<u8> {
    if p[3] < 255 {
        rgba_blend(under, p)
    } else {
        p
    }
}


/// What a mask does to a pixel: where the mask value `m` lies below the
/// pixel's alpha (and below full opacity) the pixel takes alpha `m` and its
/// colour is scaled by `m / 255`, so a mask value of 0 hides it entirely;
/// elsewhere the pixel stays as it was.
pub proof fn lemma_mask_hides(p: Seq<u8>, m: u8)
    requires
        p.len() == 4,
    ensures
        m < p[3] && m < 255 ==> masked_pixel(p, m) == seq![
            ((p[0] as int * m as int) / 255) as u8,
            ((p[1] as int * m as int) / 255) as u8,
            ((p[2] as int * m as int) / 255) as u8,
            m,
        ],
        m == 0 && p[3] > 0 ==> masked_pixel(p, m) == seq![0u8, 0u8, 0u8, 0u8],
        (m >= p[3] || m == 255) ==> masked_pixel(p, m) == p,
{
    if m == 0 && p[3] > 0 {
        assert((p[0] as int * 0) / 255 == 0);
        assert((p[1] as int * 0) / 255 == 0);
        assert((p[2] as int * 0) / 255 == 0);
    }
}

pub open spec fn min_int(a: int, b: int) -> int {
    if a < b { a } else { b }
}

fn scale_channel(c: u8, m: u8) -> (r: u8)
    ensures
        r == (c as int * m as int) / 255,
{
    assert(c as int * m as int <= 255 * 255) by (nonlinear_arith)
        requires c <= 255, m <= 255;
    assert((c as int * m as int) / 255 <= 255) by (nonlinear_arith)
        requires c as int * m as int <= 255 * 255;
    ((c as u32 * m as u32) / 255) as u8
}

/// Applies a mask to the image: dark parts of the mask hide the pixels.
///
/// Pixels are paired with mask values in order, as far as both go; the mask
/// is meant to be the same size as the image.
pub fn mask_image(image: RgbaImage, mask: &GrayscaleImage) -> (r: RgbaImage)
    requires
        image.wf(),
        mask.wf(),
    ensures
        r.wf(),
        r.spec_width() == image.spec_width(),
        r.spec_height() == image.spec_height(),
        forall|i: int|
            0 <= i < image.count() ==> #[trigger] r.px(i) == (if i < mask.values().len() {
                masked_pixel(image.px(i), mask.values()[i])
            } else {
                image.px(i)
            }),
{
    let mut image = image;
    let ghost source_image = image;
    proof { image.lemma_len(); }
    let n = image.as_raw().len() / 4;
    let m = mask.as_raw();
    let limit = if n < m.len() { n } else { m.len() };
    let mut i: usize = 0;
    while i < limit
        invariant
            image.wf(),
            source_image.wf(),
            image.spec_width() == source_image.spec_width(),
            image.spec_height() == source_image.spec_height(),
            n == source_image.count(),
            m@ == mask.values(),
            limit == min_int(n as int, m@.len() as int),
            i <= limit,
            forall|j: int| 0 <= j < i ==> #[trigger] image.px(j) == masked_pixel(source_image.px(j), m@[j]),
            forall|j: int| i <= j < source_image.count() ==> #[trigger] image.px(j) == source_image.px(j),
        decreases limit - i,
    {
        let p = image.pixel(i);
        let v = m[i];
        if v < 255 {
            if v < p[3] {
                let q = [scale_channel(p[0], v), scale_channel(p[1], v), scale_channel(p[2], v), v];
                image.set_pixel(i, q);
                assert(q@ =~= masked_pixel(source_image.px(i as int), v));
            }
        }
        i = i + 1;
    }
    image
}

/// Overlays foreground on top of background respecting alpha values of the image.
///
/// Pixels are paired in order, as far as both images go; the overlay is
/// meant to be the same size as the base image.
pub fn blend_images(image: RgbaImage, overlay: &RgbaImage) -> (r: RgbaImage)
    requires
        image.wf(),
        overlay.wf(),
    ensures
        r.wf(),
        r.spec_width() == image.spec_width(),
        r.spec_height() == image.spec_height(),
        forall|i: int|
            0 <= i < image.count() ==> #[trigger] r.px(i) == (if i < overlay.count() {
                rgba_blend(image.px(i), overlay.px(i))
            } else {
                image.px(i)
            }),
        // a fully opaque overlay pixel covers the image, a fully transparent one leaves it
        forall|i: int|
            0 <= i < image.count() && i < overlay.count() ==> (overlay.px(i)[3] == 255 ==> #[trigger] r.px(i)
                == overlay.px(i)) && (overlay.px(i)[3] == 0 ==> r.px(i) == image.px(i)),
{
    let mut image = image;
    let ghost source_image = image;
    proof {
        image.lemma_len();
        overlay.lemma_len();
    }
    let n = image.as_raw().len() / 4;
    let o = overlay.as_raw().len() / 4;
    let limit = if n < o { n } else { o };
    let mut i: usize = 0;
    while i < limit
        invariant
            image.wf(),
            overlay.wf(),
            image.spec_width() == source_image.spec_width(),
            image.spec_height() == source_image.spec_height(),
            n == source_image.count(),
            o == overlay.count(),
            limit == min_int(n as int, o as int),
            i <= limit,
            forall|j: int| 0 <= j < i ==> #[trigger] image.px(j) == rgba_blend(source_image.px(j), overlay.px(j)),
            forall|j: int|
                0 <= j < i ==> (overlay.px(j)[3] == 255 ==> #[trigger] image.px(j) == overlay.px(j)) && (
                overlay.px(j)[3] == 0 ==> image.px(j) == source_image.px(j)),
            forall|j: int| i <= j < source_image.count() ==> #[trigger] image.px(j) == source_image.px(j),
        decreases limit - i,
    {
        let p = image.pixel(i);
        let q = overlay.pixel(i);
        let b = blend_pixel(p, q);
        assert(q[3] == q@[3]);
        image.set_pixel(i, b);
        i = i + 1;
    }
    image
}

/// Adds a solid color, given by its red, green and blue channels, as a
/// background to the image.
pub fn underlay_color(image: RgbaImage, red: u8, green: u8, blue: u8) -> (r: RgbaImage)
    requires
        image.wf(),
    ensures
        r.wf(),
        r.spec_width() == image.spec_width(),
        r.spec_height() == image.spec_height(),
        forall|i: int|
            0 <= i < image.count() ==> #[trigger] r.px(i) == underlaid_pixel(
                image.px(i),
                seq![red, green, blue, 255u8],
            ),
        // a fully transparent pixel takes the color
        forall|i: int|
            0 <= i < image.count() && image.px(i)[3] == 0 ==> #[trigger] r.px(i) == seq![red, green, blue, 255u8],
{
    let mut image = image;
    let ghost source_image = image;
    let color: [u8; 4] = [red, green, blue, 255];
    proof { image.lemma_len(); }
    let n = image.as_raw().len() / 4;
    let mut i: usize = 0;
    while i < n
        invariant
            image.wf(),
            image.spec_width() == source_image.spec_width(),
            image.spec_height() == source_image.spec_height(),
            n == source_image.count(),
            color@ == seq![red, green, blue, 255u8],
            i <= n,
            forall|j: int| 0 <= j < i ==> #[trigger] image.px(j) == underlaid_pixel(source_image.px(j), color@),
            forall|j: int| 0 <= j < i && source_image.px(j)[3] == 0 ==> #[trigger] image.px(j) == color@,
            forall|j: int| i <= j < source_image.count() ==> #[trigger] image.px(j) == source_image.px(j),
        decreases n - i,
    {
        let p = image.pixel(i);
        assert(p[3] == p@[3]);
        if p[3] < 255 {
            let b = blend_pixel(color, p);
            image.set_pixel(i, b);
        }
        i = i + 1;
    }
    assert(color@ =~= seq![red, green, blue, 255u8]);
    image
}

/// Adds background to the image using `under` as the background image.
///
/// Pixels are paired in order, as far as both images go; the background is
/// meant to be the same size as the image.
pub fn underlay_image(image: RgbaImage, under: &RgbaImage) -> (r: RgbaImage)
    requires
        image.wf(),
        under.wf(),
    ensures
        r.wf(),
        r.spec_width() == image.spec_width(),
        r.spec_height() == image.spec_height(),
        forall|i: int|
            0 <= i < image.count() ==> #[trigger] r.px(i) == (if i < under.count() {
                underlaid_pixel(image.px(i), under.px(i))
            } else {
                image.px(i)
            }),
        // a fully transparent pixel takes the background's pixel
        forall|i: int|
            0 <= i < image.count() && i < under.count() && image.px(i)[3] == 0 ==> #[trigger] r.px(i)
                == under.px(i),
{
    let mut image = image;
    let ghost source_image = image;
    proof {
        image.lemma_len();
        under.lemma_len();
    }
    let n = image.as_raw().len() / 4;
    let u = under.as_raw().len() / 4;
    let limit = if n < u { n } else { u };
    let mut i: usize = 0;
    while i < limit
        invariant
            image.wf(),
            under.wf(),
            image.spec_width() == source_image.spec_width(),
            image.spec_height() == source_image.spec_height(),
            n == source_image.count(),
            u == under.count(),
            limit == min_int(n as int, u as int),
            i <= limit,
            forall|j: int| 0 <= j < i ==> #[trigger] image.px(j) == underlaid_pixel(source_image.px(j), under.px(j)),
            forall|j: int| 0 <= j < i && source_image.px(j)[3] == 0 ==> #[trigger] image.px(j) == under.px(j),
            forall|j: int| i <= j < source_image.count() ==> #[trigger] image.px(j) == source_image.px(j),
        decreases limit - i,
    {
        let p = image.pixel(i);
        assert(p[3] == p@[3]);
        if p[3] < 255 {
            let q = under.pixel(i);
            let b = blend_pixel(q, p);
            image.set_pixel(i, b);
        }
        i = i + 1;
    }
    image
}

/// The position, row by row, of pixel `(x, y)` in an image `w` pixels wide.
pub open spec fn pixel_index(w: int, x: int, y: int) -> int {
    w * y + x
}

/// Some call of `predicate` on the channels `px` gave `Some(v)`.
pub open spec fn accepted<F: Fn(&[u8]) -> Option<u8>>(predicate: F, px: Seq<u8>, v: u8) -> bool {
    exists|s: &[u8]| s@ == px && #[trigger] call_ensures(predicate, (s,), Some(v))
}

/// Some call of `predicate` on the channels `px` gave `None`.
pub open spec fn rejected<F: Fn(&[u8]) -> Option<u8>>(predicate: F, px: Seq<u8>) -> bool {
    exists|s: &[u8]| s@ == px && #[trigger] call_ensures(predicate, (s,), None::<u8>)
}

/// The mask value at `(x, y)`.
pub open spec fn mask_at(m: Seq<u8>, w: int, x: int, y: int) -> u8 {
    m[pixel_index(w, x, y)]
}

/// Pixel `(x, y)` is in the flood, or the predicate turned it away.
pub open spec fn settled<F: Fn(&[u8]) -> Option<u8>>(
    image: RgbaImage,
    predicate: F,
    m: Seq<u8>,
    start_value: u8,
    x: int,
    y: int,
) -> bool {
    let w = image.spec_width() as int;
    mask_at(m, w, x, y) != start_value || rejected(predicate, image.px(pixel_index(w, x, y)))
}

/// Every in-bounds neighbour of `(x, y)` is settled.
pub open spec fn neighbours_settled<F: Fn(&[u8]) -> Option<u8>>(
    image: RgbaImage,
    predicate: F,
    m: Seq<u8>,
    start_value: u8,
    x: int,
    y: int,
) -> bool {
    let w = image.spec_width() as int;
    let h = image.spec_height() as int;
    &&& x > 0 ==> settled(image, predicate, m, start_value, x - 1, y)
    &&& x + 1 < w ==> settled(image, predicate, m, start_value, x + 1, y)
    &&& y > 0 ==> settled(image, predicate, m, start_value, x, y - 1)
    &&& y + 1 < h ==> settled(image, predicate, m, start_value, x, y + 1)
}

/// `(x, y)` has a neighbour in the flood with a lower rank.
pub open spec fn reached_from_neighbour(
    m: Seq<u8>,
    rank: Seq<int>,
    w: int,
    h: int,
    start_value: u8,
    x: int,
    y: int,
) -> bool {
    let r = rank[pixel_index(w, x, y)];
    ||| x > 0 && mask_at(m, w, x - 1, y) != start_value && rank[pixel_index(w, x - 1, y)] < r
    ||| x + 1 < w && mask_at(m, w, x + 1, y) != start_value && rank[pixel_index(w, x + 1, y)] < r
    ||| y > 0 && mask_at(m, w, x, y - 1) != start_value && rank[pixel_index(w, x, y - 1)] < r
    ||| y + 1 < h && mask_at(m, w, x, y + 1) != start_value && rank[pixel_index(w, x, y + 1)] < r
}

/// Every pixel in the flood other than the start is reached from a
/// neighbour in the flood of lower rank, so each is joined to the start by a
/// path through the flood.
pub open spec fn connected_by_rank(
    m: Seq<u8>,
    rank: Seq<int>,
    w: int,
    h: int,
    start_value: u8,
    sx: int,
    sy: int,
) -> bool {
    &&& rank.len() == m.len()
    &&& forall|x: int, y: int|
        0 <= x < w && 0 <= y < h && #[trigger] mask_at(m, w, x, y) != start_value ==> (x == sx
            && y == sy) || reached_from_neighbour(m, rank, w, h, start_value, x, y)
}

proof fn lemma_index_bounds(w: int, h: int, x: int, y: int)
    requires
        0 <= x < w,
        0 <= y < h,
    ensures
        0 <= pixel_index(w, x, y) < w * h,
        forall|x2: int, y2: int| 0 <= x2 < w && 0 <= y2 && #[trigger] pixel_index(w, x2, y2) == pixel_index(w, x, y) ==> x2 == x && y2 == y,
        pixel_index(w, x, y + 1) == pixel_index(w, x, y) + w,
        y > 0 ==> pixel_index(w, x, y - 1) == pixel_index(w, x, y) - w,
{
    assert(0 <= w * y + x < w * h) by (nonlinear_arith)
        requires 0 <= x < w, 0 <= y < h;
    assert(w * (y + 1) + x == w * y + x + w) by (nonlinear_arith);
    assert(w * (y - 1) + x == w * y + x - w) by (nonlinear_arith);
    assert forall|x2: int, y2: int| 0 <= x2 < w && 0 <= y2 && #[trigger] pixel_index(w, x2, y2) == pixel_index(w, x, y) implies x2 == x && y2 == y by {
        assert(x2 == x && y2 == y) by (nonlinear_arith)
            requires w * y2 + x2 == w * y + x, 0 <= x2 < w, 0 <= x < w, 0 <= y2, 0 <= y;
    }
}

/// Tests pixel `(x, y)`: if it is not yet in the flood, the predicate is asked
/// for its mask value, and a pixel it accepts takes that value and is put on
/// the stack.
fn mark_point<F: Fn(&[u8]) -> Option<u8>>(
    image: &RgbaImage,
    predicate: &F,
    start_value: u8,
    mask: &mut Vec<u8>,
    stack: &mut Vec<(usize, usize)>,
    x: usize,
    y: usize,
) -> (marked: bool)
    requires
        image.wf(),
        x < image.spec_width(),
        y < image.spec_height(),
        old(mask)@.len() == image.count(),
        forall|s: &[u8]| s@.len() == 4 ==> call_requires(*predicate, (s,)),
        forall|s: &[u8], v: u8| call_ensures(*predicate, (s,), Some(v)) ==> v != start_value,
    ensures
        ({
            let i = pixel_index(image.spec_width() as int, x as int, y as int);
            if marked {
                &&& old(mask)@[i] == start_value
                &&& final(mask)@ == old(mask)@.update(i, final(mask)@[i])
                &&& final(mask)@[i] != start_value
                &&& accepted(*predicate, image.px(i), final(mask)@[i])
                &&& final(stack)@ == old(stack)@.push((x, y))
            } else {
                &&& final(mask)@ == old(mask)@
                &&& final(stack)@ == old(stack)@
                &&& (old(mask)@[i] != start_value || rejected(*predicate, image.px(i)))
            }
        }),
{
    let ghost w = image.spec_width() as int;
    let ghost h = image.spec_height() as int;
    proof {
        lemma_index_bounds(w, h, x as int, y as int);
        image.lemma_len();
    }
    let width = image.width() as usize;
    let i = width * y + x;
    if mask[i] == start_value {
        let p = image.pixel(i);
        let s = p.as_slice();
        match predicate(s) {
            Some(v) => {
                mask.set(i, v);
                stack.push((x, y));
                true
            },
            None => false,
        }
    } else {
        false
    }
}

/// Mask `b` keeps every value of `a` other than `start_value`.
#[verifier::opaque]
pub open spec fn grows(a: Seq<u8>, b: Seq<u8>, start_value: u8) -> bool {
    &&& a.len() == b.len()
    &&& forall|q: int| 0 <= q < a.len() && a[q] != start_value ==> #[trigger] b[q] == a[q]
}

/// The pixels of `flooded` are those whose value in `m` is not the starting value.
#[verifier::opaque]
pub open spec fn counts_flood(flooded: Set<int>, m: Seq<u8>, start_value: u8) -> bool {
    &&& flooded.finite()
    &&& forall|q: int| #[trigger] flooded.contains(q) <==> (0 <= q < m.len() && m[q] != start_value)
}

proof fn lemma_flood_bound(flooded: Set<int>, m: Seq<u8>, start_value: u8)
    requires
        counts_flood(flooded, m, start_value),
    ensures
        flooded.finite(),
        flooded.len() <= m.len(),
{
    reveal(counts_flood);
    assert(flooded.subset_of(vstd::set_lib::set_int_range(0, m.len() as int)));
    vstd::set_lib::lemma_int_range(0, m.len() as int);
    vstd::set_lib::lemma_len_subset(flooded, vstd::set_lib::set_int_range(0, m.len() as int));
}

proof fn lemma_grows_refl(a: Seq<u8>, start_value: u8)
    ensures
        grows(a, a, start_value),
{
    reveal(grows);
}

proof fn lemma_grows_trans(a: Seq<u8>, b: Seq<u8>, c: Seq<u8>, start_value: u8)
    requires
        grows(a, b, start_value),
        grows(b, c, start_value),
    ensures
        grows(a, c, start_value),
{
    reveal(grows);
    assert forall|q: int| 0 <= q < a.len() && a[q] != start_value implies #[trigger] c[q] == a[q] by {
        assert(b[q] == a[q]);
    }
}

proof fn lemma_settled_grows<F: Fn(&[u8]) -> Option<u8>>(
    image: RgbaImage,
    predicate: F,
    start_value: u8,
    a: Seq<u8>,
    b: Seq<u8>,
    x: int,
    y: int,
)
    requires
        settled(image, predicate, a, start_value, x, y),
        grows(a, b, start_value),
        a.len() == image.count(),
        0 <= x < image.spec_width(),
        0 <= y < image.spec_height(),
    ensures
        settled(image, predicate, b, start_value, x, y),
{
    reveal(grows);
    lemma_index_bounds(image.spec_width() as int, image.spec_height() as int, x, y);
}

/// The pixels on the stack are in bounds and in the flood.
pub open spec fn stack_in_flood(w: int, h: int, m: Seq<u8>, st: Seq<(usize, usize)>, start_value: u8) -> bool {
    forall|k: int|
        0 <= k < st.len() ==> (#[trigger] st[k]).0 < w && st[k].1 < h && mask_at(
            m,
            w,
            st[k].0 as int,
            st[k].1 as int,
        ) != start_value
}

/// `(x, y)` is on the stack.
pub open spec fn on_stack(st: Seq<(usize, usize)>, x: int, y: int) -> bool {
    exists|k: int| 0 <= k < st.len() && #[trigger] st[k] == (x as usize, y as usize)
}

/// Every pixel in the flood is on the stack or has its neighbours settled,
/// except possibly `pending`.
pub open spec fn flood_closed<F: Fn(&[u8]) -> Option<u8>>(
    image: RgbaImage,
    predicate: F,
    start_value: u8,
    m: Seq<u8>,
    st: Seq<(usize, usize)>,
    pending: (int, int),
) -> bool {
    let w = image.spec_width() as int;
    let h = image.spec_height() as int;
    forall|x: int, y: int|
        0 <= x < w && 0 <= y < h && #[trigger] mask_at(m, w, x, y) != start_value ==> (x, y)
            == pending || on_stack(st, x, y) || neighbours_settled(image, predicate, m, start_value, x, y)
}

/// Every value is the starting value or one the predicate gave for that pixel.
pub open spec fn values_accepted<F: Fn(&[u8]) -> Option<u8>>(
    image: RgbaImage,
    predicate: F,
    start_value: u8,
    m: Seq<u8>,
) -> bool {
    forall|i: int| 0 <= i < m.len() ==> #[trigger] m[i] == start_value || accepted(predicate, image.px(i), m[i])
}

/// What holds of the flood between the steps of `flood_fill_mask`: `m` is
/// the mask so far, `st` the stack, `flooded` the pixels in the flood and
/// `rank` the order in which they joined it.
#[verifier::opaque]
pub open spec fn flood_invariant<F: Fn(&[u8]) -> Option<u8>>(
    image: RgbaImage,
    predicate: F,
    start_value: u8,
    m: Seq<u8>,
    st: Seq<(usize, usize)>,
    rank: Seq<int>,
    flooded: Set<int>,
    sx: int,
    sy: int,
    pending: (int, int),
) -> bool {
    let w = image.spec_width() as int;
    let h = image.spec_height() as int;
    &&& m.len() == w * h
    &&& flooded.finite()
    &&& forall|i: int| #[trigger] flooded.contains(i) <==> (0 <= i < w * h && m[i] != start_value)
    &&& values_accepted(image, predicate, start_value, m)
    &&& settled(image, predicate, m, start_value, sx, sy)
    &&& stack_in_flood(w, h, m, st, start_value)
    &&& flood_closed(image, predicate, start_value, m, st, pending)
    &&& connected_by_rank(m, rank, w, h, start_value, sx, sy)
}

/// Marking pixel `(nx, ny)` keeps every pixel of the flood on the stack or
/// with its neighbours settled.
#[verifier::rlimit(50)]
proof fn lemma_mark_keeps_closed<F: Fn(&[u8]) -> Option<u8>>(
    image: RgbaImage,
    predicate: F,
    start_value: u8,
    m: Seq<u8>,
    st: Seq<(usize, usize)>,
    pending: (int, int),
    nx: int,
    ny: int,
    v: u8,
)
    requires
        flood_closed(image, predicate, start_value, m, st, pending),
        m.len() == image.count(),
        0 <= nx < image.spec_width(),
        0 <= ny < image.spec_height(),
        mask_at(m, image.spec_width() as int, nx, ny) == start_value,
        v != start_value,
    ensures
        flood_closed(
            image,
            predicate,
            start_value,
            m.update(pixel_index(image.spec_width() as int, nx, ny), v),
            st.push((nx as usize, ny as usize)),
            pending,
        ),
{
    let w = image.spec_width() as int;
    let h = image.spec_height() as int;
    let i = pixel_index(w, nx, ny);
    lemma_index_bounds(w, h, nx, ny);
    let m2 = m.update(i, v);
    let st2 = st.push((nx as usize, ny as usize));
    assert forall|x: int, y: int|
        0 <= x < w && 0 <= y < h && #[trigger] mask_at(m2, w, x, y) != start_value implies (x, y) == pending
            || on_stack(st2, x, y) || neighbours_settled(image, predicate, m2, start_value, x, y) by {
        lemma_index_bounds(w, h, x, y);
        if pixel_index(w, x, y) == i {
            assert(st2[st.len() as int] == (x as usize, y as usize));
        } else if (x, y) != pending {
            assert(mask_at(m, w, x, y) != start_value);
            if on_stack(st, x, y) {
                let k = choose|k: int| 0 <= k < st.len() && #[trigger] st[k] == (x as usize, y as usize);
                assert(st2[k] == (x as usize, y as usize));
            } else {
                assert(neighbours_settled(image, predicate, m, start_value, x, y));
                if x > 0 {
                    lemma_index_bounds(w, h, x - 1, y);
                }
                if x + 1 < w {
                    lemma_index_bounds(w, h, x + 1, y);
                }
                if y > 0 {
                    lemma_index_bounds(w, h, x, y - 1);
                }
                if y + 1 < h {
                    lemma_index_bounds(w, h, x, y + 1);
                }
            }
        }
    }
}

/// Marking pixel `(nx, ny)`, a neighbour of `(px, py)` which is in the flood,
/// with a rank one above that of `(px, py)` keeps the flood joined by rank.
#[verifier::rlimit(50)]
proof fn lemma_mark_keeps_connected(
    m: Seq<u8>,
    rank: Seq<int>,
    w: int,
    h: int,
    start_value: u8,
    sx: int,
    sy: int,
    px: int,
    py: int,
    nx: int,
    ny: int,
    v: u8,
)
    requires
        connected_by_rank(m, rank, w, h, start_value, sx, sy),
        m.len() == w * h,
        0 <= px < w,
        0 <= py < h,
        0 <= nx < w,
        0 <= ny < h,
        mask_at(m, w, px, py) != start_value,
        (nx == px - 1 && ny == py) || (nx == px + 1 && ny == py) || (nx == px && ny == py - 1) || (nx
            == px && ny == py + 1),
        mask_at(m, w, nx, ny) == start_value,
        v != start_value,
    ensures
        connected_by_rank(
            m.update(pixel_index(w, nx, ny), v),
            rank.update(pixel_index(w, nx, ny), rank[pixel_index(w, px, py)] + 1),
            w,
            h,
            start_value,
            sx,
            sy,
        ),
{
    let i = pixel_index(w, nx, ny);
    let pi = pixel_index(w, px, py);
    lemma_index_bounds(w, h, nx, ny);
    lemma_index_bounds(w, h, px, py);
    let m2 = m.update(i, v);
    let rank2 = rank.update(i, rank[pi] + 1);
    assert forall|x: int, y: int|
        0 <= x < w && 0 <= y < h && #[trigger] mask_at(m2, w, x, y) != start_value implies (x == sx && y == sy)
            || reached_from_neighbour(m2, rank2, w, h, start_value, x, y) by {
        lemma_index_bounds(w, h, x, y);
        if x > 0 {
            lemma_index_bounds(w, h, x - 1, y);
        }
        if x + 1 < w {
            lemma_index_bounds(w, h, x + 1, y);
        }
        if y > 0 {
            lemma_index_bounds(w, h, x, y - 1);
        }
        if y + 1 < h {
            lemma_index_bounds(w, h, x, y + 1);
        }
        if pixel_index(w, x, y) == i {
            assert(x == nx && y == ny);
            assert(mask_at(m2, w, px, py) != start_value);
        } else {
            assert(mask_at(m, w, x, y) != start_value);
        }
    }
}

/// A step of the flood that marks pixel `(nx, ny)`, a neighbour of the
/// pending pixel `(px, py)`, keeps the flood's invariant.
#[verifier::rlimit(50)]
proof fn lemma_mark_keeps_invariant<F: Fn(&[u8]) -> Option<u8>>(
    image: RgbaImage,
    predicate: F,
    start_value: u8,
    m: Seq<u8>,
    st: Seq<(usize, usize)>,
    rank: Seq<int>,
    flooded: Set<int>,
    sx: int,
    sy: int,
    px: int,
    py: int,
    nx: int,
    ny: int,
    v: u8,
)
    requires
        image.wf(),
        flood_invariant(image, predicate, start_value, m, st, rank, flooded, sx, sy, (px, py)),
        0 <= sx < image.spec_width(),
        0 <= sy < image.spec_height(),
        0 <= px < image.spec_width(),
        0 <= py < image.spec_height(),
        0 <= nx < image.spec_width(),
        0 <= ny < image.spec_height(),
        mask_at(m, image.spec_width() as int, px, py) != start_value,
        (nx == px - 1 && ny == py) || (nx == px + 1 && ny == py) || (nx == px && ny == py - 1) || (nx
            == px && ny == py + 1),
        mask_at(m, image.spec_width() as int, nx, ny) == start_value,
        v != start_value,
        accepted(predicate, image.px(pixel_index(image.spec_width() as int, nx, ny)), v),
    ensures
        ({
            let w = image.spec_width() as int;
            let i = pixel_index(w, nx, ny);
            flood_invariant(
                image,
                predicate,
                start_value,
                m.update(i, v),
                st.push((nx as usize, ny as usize)),
                rank.update(i, rank[pixel_index(w, px, py)] + 1),
                flooded.insert(i),
                sx,
                sy,
                (px, py),
            )
        }),
{
    let w = image.spec_width() as int;
    let h = image.spec_height() as int;
    let i = pixel_index(w, nx, ny);
    lemma_index_bounds(w, h, nx, ny);
    lemma_index_bounds(w, h, sx, sy);
    let m2 = m.update(i, v);
    let st2 = st.push((nx as usize, ny as usize));
    let rank2 = rank.update(i, rank[pixel_index(w, px, py)] + 1);
    let f2 = flooded.insert(i);
    assert(flood_closed(image, predicate, start_value, m, st, (px, py))
        && connected_by_rank(m, rank, w, h, start_value, sx, sy)
        && stack_in_flood(w, h, m, st, start_value)
        && values_accepted(image, predicate, start_value, m)
        && settled(image, predicate, m, start_value, sx, sy)
        && m.len() == w * h
        && flooded.finite()
        && (forall|q: int| #[trigger] flooded.contains(q) <==> (0 <= q < w * h && m[q] != start_value))) by {
        reveal(flood_invariant);
    }
    lemma_mark_keeps_closed(image, predicate, start_value, m, st, (px, py), nx, ny, v);
    lemma_mark_keeps_connected(m, rank, w, h, start_value, sx, sy, px, py, nx, ny, v);
    lemma_mark_keeps_stack(w, h, m, st, start_value, nx, ny, v);
    assert(values_accepted(image, predicate, start_value, m2)) by {
        assert forall|q: int| 0 <= q < m2.len() implies #[trigger] m2[q] == start_value || accepted(predicate, image.px(q), m2[q]) by {
            if q != i {
                assert(m2[q] == m[q]);
            }
        }
    }
    assert forall|q: int| #[trigger] f2.contains(q) <==> (0 <= q < w * h && m2[q] != start_value) by {
        if q != i && 0 <= q < w * h {
            assert(m2[q] == m[q]);
        }
    }
    assert(settled(image, predicate, m2, start_value, sx, sy));
    assert(flood_invariant(image, predicate, start_value, m2, st2, rank2, f2, sx, sy, (px, py))) by {
        reveal(flood_invariant);
    }
}

/// One step of the flood at neighbour `(nx, ny)` of the pending pixel
/// `(px, py)`: whatever the step did, the invariant holds after it, with the
/// rank and flood updated when the pixel was marked, and the neighbour is
/// settled.
proof fn lemma_step<F: Fn(&[u8]) -> Option<u8>>(
    image: RgbaImage,
    predicate: F,
    start_value: u8,
    m0: Seq<u8>,
    s0: Seq<(usize, usize)>,
    rank: Seq<int>,
    flooded: Set<int>,
    sx: int,
    sy: int,
    px: int,
    py: int,
    nx: int,
    ny: int,
    m1: Seq<u8>,
    s1: Seq<(usize, usize)>,
    marked: bool,
) -> (res: (Seq<int>, Set<int>))
    requires
        image.wf(),
        flood_invariant(image, predicate, start_value, m0, s0, rank, flooded, sx, sy, (px, py)),
        m0.len() == image.count(),
        0 <= sx < image.spec_width(),
        0 <= sy < image.spec_height(),
        counts_flood(flooded, m0, start_value),
        0 <= px < image.spec_width(),
        0 <= py < image.spec_height(),
        0 <= nx < image.spec_width(),
        0 <= ny < image.spec_height(),
        mask_at(m0, image.spec_width() as int, px, py) != start_value,
        (nx == px - 1 && ny == py) || (nx == px + 1 && ny == py) || (nx == px && ny == py - 1) || (nx
            == px && ny == py + 1),
        ({
            let i = pixel_index(image.spec_width() as int, nx, ny);
            if marked {
                &&& m0[i] == start_value
                &&& m1 == m0.update(i, m1[i])
                &&& m1[i] != start_value
                &&& accepted(predicate, image.px(i), m1[i])
                &&& s1 == s0.push((nx as usize, ny as usize))
            } else {
                &&& m1 == m0
                &&& s1 == s0
                &&& (m0[i] != start_value || rejected(predicate, image.px(i)))
            }
        }),
    ensures
        flood_invariant(image, predicate, start_value, m1, s1, res.0, res.1, sx, sy, (px, py)),
        counts_flood(res.1, m1, start_value),
        m1.len() == m0.len(),
        res.1.len() == flooded.len() + (if marked { 1int } else { 0int }),
        s1.len() == s0.len() + (if marked { 1int } else { 0int }),
        grows(m0, m1, start_value),
        settled(image, predicate, m1, start_value, nx, ny),
        mask_at(m1, image.spec_width() as int, px, py) != start_value,
{
    reveal(counts_flood);
    reveal(grows);
    let w = image.spec_width() as int;
    let h = image.spec_height() as int;
    let i = pixel_index(w, nx, ny);
    lemma_index_bounds(w, h, nx, ny);
    lemma_index_bounds(w, h, px, py);
    if marked {
        let v = m1[i];
        lemma_mark_keeps_invariant(image, predicate, start_value, m0, s0, rank, flooded, sx, sy, px, py, nx, ny, v);
        let rank2 = rank.update(i, rank[pixel_index(w, px, py)] + 1);
        let f2 = flooded.insert(i);
        assert(!flooded.contains(i));
        assert forall|q: int| #[trigger] f2.contains(q) <==> (0 <= q < m1.len() && m1[q] != start_value) by {
            if q != i && 0 <= q < m1.len() {
                assert(m1[q] == m0[q]);
            }
        }
        (rank2, f2)
    } else {
        (rank, flooded)
    }
}

/// Marking pixel `(nx, ny)` and putting it on the stack keeps the stack in the flood.
proof fn lemma_mark_keeps_stack(
    w: int,
    h: int,
    m: Seq<u8>,
    st: Seq<(usize, usize)>,
    start_value: u8,
    nx: int,
    ny: int,
    v: u8,
)
    requires
        stack_in_flood(w, h, m, st, start_value),
        m.len() == w * h,
        0 <= nx < w <= usize::MAX,
        0 <= ny < h <= usize::MAX,
        v != start_value,
    ensures
        stack_in_flood(w, h, m.update(pixel_index(w, nx, ny), v), st.push((nx as usize, ny as usize)), start_value),
{
    let i = pixel_index(w, nx, ny);
    lemma_index_bounds(w, h, nx, ny);
    let m2 = m.update(i, v);
    let st2 = st.push((nx as usize, ny as usize));
    assert forall|k: int| 0 <= k < st2.len() implies (#[trigger] st2[k]).0 < w && st2[k].1 < h && mask_at(
        m2,
        w,
        st2[k].0 as int,
        st2[k].1 as int,
    ) != start_value by {
        if k < st.len() {
            assert(st2[k] == st[k]);
            lemma_index_bounds(w, h, st[k].0 as int, st[k].1 as int);
        }
    }
}

/// Once the neighbours of the pending pixel are settled, the flood's
/// invariant holds with nothing pending.
proof fn lemma_pending_done<F: Fn(&[u8]) -> Option<u8>>(
    image: RgbaImage,
    predicate: F,
    start_value: u8,
    m: Seq<u8>,
    st: Seq<(usize, usize)>,
    rank: Seq<int>,
    flooded: Set<int>,
    sx: int,
    sy: int,
    px: int,
    py: int,
)
    requires
        flood_invariant(image, predicate, start_value, m, st, rank, flooded, sx, sy, (px, py)),
        neighbours_settled(image, predicate, m, start_value, px, py),
    ensures
        flood_invariant(image, predicate, start_value, m, st, rank, flooded, sx, sy, (-1, -1)),
{
    reveal(flood_invariant);
}

/// Taking the last pixel off the stack leaves it pending.
#[verifier::rlimit(50)]
proof fn lemma_pop_pending<F: Fn(&[u8]) -> Option<u8>>(
    image: RgbaImage,
    predicate: F,
    start_value: u8,
    m: Seq<u8>,
    st: Seq<(usize, usize)>,
    rank: Seq<int>,
    flooded: Set<int>,
    sx: int,
    sy: int,
)
    requires
        flood_invariant(image, predicate, start_value, m, st, rank, flooded, sx, sy, (-1, -1)),
        st.len() > 0,
    ensures
        flood_invariant(
            image,
            predicate,
            start_value,
            m,
            st.drop_last(),
            rank,
            flooded,
            sx,
            sy,
            (st.last().0 as int, st.last().1 as int),
        ),
        st.last().0 < image.spec_width(),
        st.last().1 < image.spec_height(),
        mask_at(m, image.spec_width() as int, st.last().0 as int, st.last().1 as int) != start_value,
{
    reveal(flood_invariant);
    let w = image.spec_width() as int;
    let h = image.spec_height() as int;
    let st2 = st.drop_last();
    let p = (st.last().0 as int, st.last().1 as int);
    assert forall|x: int, y: int|
        0 <= x < w && 0 <= y < h && #[trigger] mask_at(m, w, x, y) != start_value implies (x, y) == p
            || on_stack(st2, x, y) || neighbours_settled(image, predicate, m, start_value, x, y) by {
        if (x, y) != p && on_stack(st, x, y) {
            let k = choose|k: int| 0 <= k < st.len() && #[trigger] st[k] == (x as usize, y as usize);
            if k == st.len() - 1 {
                assert(st.last() == (x as usize, y as usize));
                assert(p == (x, y));
            } else {
                assert(st2[k] == st[k]);
            }
        }
    }
    assert forall|k: int| 0 <= k < st2.len() implies (#[trigger] st2[k]).0 < w && st2[k].1 < h && mask_at(
        m,
        w,
        st2[k].0 as int,
        st2[k].1 as int,
    ) != start_value by {
        assert(st2[k] == st[k]);
    }
}

/// Creates a grayscale mask by flood filling it pixel by pixel.
///
/// # Parameters
/// `image` - The image to use as basis for flooding
/// `starting_point` - the pixel `(x, y)` from which the flooding starts
/// `starting_value` - the value the mask will be prefilled with
/// `predicate` - function that will determine boundaries of flood and value for the mask
///     The predicate is given the channels of a pixel of `image`
///     The predicate returns value the mask will take, or None, which will stop spread from that point;
///     it never returns the starting value
#[verifier::rlimit(100)]
pub fn flood_fill_mask<F: Fn(&[u8]) -> Option<u8>>(
    image: &RgbaImage,
    starting_point: (u32, u32),
    starting_value: u8,
    predicate: F,
) -> (mask: GrayscaleImage)
    requires
        image.wf(),
        starting_point.0 < image.spec_width(),
        starting_point.1 < image.spec_height(),
        forall|s: &[u8]| s@.len() == 4 ==> call_requires(predicate, (s,)),
        forall|s: &[u8], v: u8| call_ensures(predicate, (s,), Some(v)) ==> v != starting_value,
    ensures
        mask.wf(),
        mask.spec_width() == image.spec_width(),
        mask.spec_height() == image.spec_height(),
        // every value is the starting value or one the predicate gave for that pixel
        forall|i: int|
            0 <= i < image.count() ==> #[trigger] mask.values()[i] == starting_value || accepted(
                predicate,
                image.px(i),
                mask.values()[i],
            ),
        // the flood starts at the starting point, unless the predicate turns it away
        settled(*image, predicate, mask.values(), starting_value, starting_point.0 as int, starting_point.1 as int),
        // the flood spreads to every neighbour that the predicate does not turn away
        forall|x: int, y: int|
            0 <= x < image.spec_width() && 0 <= y < image.spec_height() && #[trigger] mask_at(
                mask.values(),
                image.spec_width() as int,
                x,
                y,
            ) != starting_value ==> neighbours_settled(*image, predicate, mask.values(), starting_value, x, y),
        // and reaches only pixels joined to the starting point through the flood
        exists|rank: Seq<int>|
            connected_by_rank(
                mask.values(),
                rank,
                image.spec_width() as int,
                image.spec_height() as int,
                starting_value,
                starting_point.0 as int,
                starting_point.1 as int,
            ),
{
    let ghost w = image.spec_width() as int;
    let ghost h = image.spec_height() as int;
    let ghost sx = starting_point.0 as int;
    let ghost sy = starting_point.1 as int;
    let ghost none: (int, int) = (-1, -1);
    proof { image.lemma_len(); }
    let width = image.width() as usize;
    let height = image.height() as usize;
    assert(w * h <= usize::MAX) by (nonlinear_arith)
        requires w * h * 4 <= usize::MAX, w >= 0, h >= 0;
    let size = width * height;
    let mut mask: Vec<u8> = vec![starting_value; size];
    let mut stack: Vec<(usize, usize)> = Vec::new();
    let ghost mut rank: Seq<int> = Seq::new(size as nat, |i: int| 0);
    let ghost mut flooded: Set<int> = Set::empty();

    let sxu = starting_point.0 as usize;
    let syu = starting_point.1 as usize;
    let first = mark_point(image, &predicate, starting_value, &mut mask, &mut stack, sxu, syu);
    proof {
        lemma_index_bounds(w, h, sx, sy);
        let si = pixel_index(w, sx, sy);
        if first {
            flooded = flooded.insert(si);
        }
        let m = mask@;
        assert forall|x: int, y: int|
            0 <= x < w && 0 <= y < h && #[trigger] mask_at(m, w, x, y) != starting_value implies (x, y) == none
                || on_stack(stack@, x, y) || neighbours_settled(*image, predicate, m, starting_value, x, y) by {
            lemma_index_bounds(w, h, x, y);
            assert(stack@[0] == (x as usize, y as usize));
        }
        assert forall|x: int, y: int|
            0 <= x < w && 0 <= y < h && #[trigger] mask_at(m, w, x, y) != starting_value implies (x == sx
                && y == sy) || reached_from_neighbour(m, rank, w, h, starting_value, x, y) by {
            lemma_index_bounds(w, h, x, y);
        }
        assert forall|k: int| 0 <= k < stack@.len() implies (#[trigger] stack@[k]).0 < w && stack@[k].1 < h
            && mask_at(m, w, stack@[k].0 as int, stack@[k].1 as int) != starting_value by {}
        assert forall|q: int| #[trigger] flooded.contains(q) <==> (0 <= q < w * h && m[q] != starting_value) by {}
        reveal(counts_flood);
        reveal(flood_invariant);
        assert(flood_invariant(*image, predicate, starting_value, mask@, stack@, rank, flooded, sx, sy, none));
    }
    loop
        invariant
            image.wf(),
            w == image.spec_width(),
            h == image.spec_height(),
            width == w,
            height == h,
            size == w * h,
            0 <= sx < w,
            0 <= sy < h,
            none == (-1int, -1int),
            forall|s: &[u8]| s@.len() == 4 ==> call_requires(predicate, (s,)),
            forall|s: &[u8], v: u8| call_ensures(predicate, (s,), Some(v)) ==> v != starting_value,
            mask@.len() == size,
            counts_flood(flooded, mask@, starting_value),
            flood_invariant(*image, predicate, starting_value, mask@, stack@, rank, flooded, sx, sy, none),
        ensures
            stack@.len() == 0,
            mask@.len() == size,
            flood_invariant(*image, predicate, starting_value, mask@, stack@, rank, flooded, sx, sy, none),
        decreases (size - flooded.len()) * 5 + stack@.len(),
    {
        proof {
            lemma_flood_bound(flooded, mask@, starting_value);
        }
        let ghost f0 = flooded;
        let ghost st0 = stack@;
        match stack.pop() {
            None => {
                break;
            },
            Some(top) => {
                let (x, y) = top;
                let ghost px = x as int;
                let ghost py = y as int;
                proof {
                    lemma_pop_pending(*image, predicate, starting_value, mask@, st0, rank, flooded, sx, sy);
                    lemma_index_bounds(w, h, px, py);
                }
                let ghost start_mask = mask@;
                let ghost pi = pixel_index(w, px, py);
                if x > 0 {
                    let ghost m0 = mask@;
                    let ghost s0 = stack@;
                    let marked = mark_point(image, &predicate, starting_value, &mut mask, &mut stack, x - 1, y);
                    proof {
                        let res = lemma_step(*image, predicate, starting_value, m0, s0, rank, flooded, sx, sy, px, py, px - 1, py, mask@, stack@, marked);
                        rank = res.0;
                        flooded = res.1;
                    }
                }
                let ghost after_left = mask@;
                if x + 1 < width {
                    let ghost m0 = mask@;
                    let ghost s0 = stack@;
                    let marked = mark_point(image, &predicate, starting_value, &mut mask, &mut stack, x + 1, y);
                    proof {
                        let res = lemma_step(*image, predicate, starting_value, m0, s0, rank, flooded, sx, sy, px, py, px + 1, py, mask@, stack@, marked);
                        rank = res.0;
                        flooded = res.1;
                    }
                }
                let ghost after_right = mask@;
                if y > 0 {
                    let ghost m0 = mask@;
                    let ghost s0 = stack@;
                    let marked = mark_point(image, &predicate, starting_value, &mut mask, &mut stack, x, y - 1);
                    proof {
                        let res = lemma_step(*image, predicate, starting_value, m0, s0, rank, flooded, sx, sy, px, py, px, py - 1, mask@, stack@, marked);
                        rank = res.0;
                        flooded = res.1;
                    }
                }
                let ghost after_up = mask@;
                if y + 1 < height {
                    let ghost m0 = mask@;
                    let ghost s0 = stack@;
                    let marked = mark_point(image, &predicate, starting_value, &mut mask, &mut stack, x, y + 1);
                    proof {
                        let res = lemma_step(*image, predicate, starting_value, m0, s0, rank, flooded, sx, sy, px, py, px, py + 1, mask@, stack@, marked);
                        rank = res.0;
                        flooded = res.1;
                    }
                }
                proof {
                    let m = mask@;
                    lemma_grows_refl(after_left, starting_value);
                    lemma_grows_refl(after_right, starting_value);
                    lemma_grows_refl(after_up, starting_value);
                    lemma_grows_refl(m, starting_value);
                    assert(grows(after_left, after_right, starting_value));
                    assert(grows(after_right, after_up, starting_value));
                    assert(grows(after_up, m, starting_value));
                    lemma_grows_trans(after_left, after_right, after_up, starting_value);
                    lemma_grows_trans(after_left, after_up, m, starting_value);
                    lemma_grows_trans(after_right, after_up, m, starting_value);
                    if px > 0 {
                        lemma_settled_grows(*image, predicate, starting_value, after_left, m, px - 1, py);
                    }
                    if px + 1 < w {
                        lemma_settled_grows(*image, predicate, starting_value, after_right, m, px + 1, py);
                    }
                    if py > 0 {
                        lemma_settled_grows(*image, predicate, starting_value, after_up, m, px, py - 1);
                    }
                    assert(neighbours_settled(*image, predicate, m, starting_value, px, py));
                    lemma_pending_done(*image, predicate, starting_value, m, stack@, rank, flooded, sx, sy, px, py);
                    assert(flooded.len() - f0.len() == stack@.len() - (st0.len() - 1));
                    assert((size - flooded.len()) * 5 + stack@.len() < (size - f0.len()) * 5 + st0.len());
                    lemma_flood_bound(flooded, m, starting_value);
                }
            },
        }
    }
    let ghost final_rank = rank;
    let m = GrayscaleImage::from_raw(image.width(), image.height(), mask);
    let m = m.unwrap();
    proof {
        let v = m.values();
        reveal(flood_invariant);
        assert(connected_by_rank(v, final_rank, w, h, starting_value, sx, sy));
        assert forall|x: int, y: int|
            0 <= x < w && 0 <= y < h && #[trigger] mask_at(v, w, x, y) != starting_value implies neighbours_settled(
                *image,
                predicate,
                v,
                starting_value,
                x,
                y,
            ) by {
            assert(!on_stack(stack@, x, y));
        }
    }
    m
}

} // verus!