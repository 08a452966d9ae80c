//! What the filters make of an image that is mirrored or turned around.
use crate::binomial::{choose_count, lemma_choose_symmetric};
use crate::image::{
    blur_radius, clamped, lemma_byte_coordinates, lemma_coordinates, lemma_inside, signed_param,
    truncated_div, Filter, ImageView,
};
use vstd::arithmetic::div_mod::lemma_fundamental_div_mod_converse;
use vstd::arithmetic::mul::lemma_mul_is_commutative;
use vstd::prelude::*;

verus! {

/// The image with the pixels of every row in reverse order.
pub open spec fn mirrored(image: ImageView) -> ImageView {
    ImageView {
        rgba: Seq::new(
            image.rgba.len(),
            |i: int|
                image.rgba[4 * (i / 4 / image.width * image.width + (image.width - 1 - i / 4
                    % image.width)) + i % 4],
        ),
        ..image
    }
}

/// The image turned by 180 degrees: all its pixels in reverse order.
pub open spec fn turned(image: ImageView) -> ImageView {
    ImageView {
        rgba: Seq::new(
            image.rgba.len(),
            |i: int| image.rgba[4 * (image.width * image.height - 1 - i / 4) + i % 4],
        ),
        ..image
    }
}

/// A mirrored image holds at every place what was at the mirrored place.
proof fn lemma_mirrored_at(image: ImageView, x: int, y: int, k: int)
    requires
        image.wf(),
        image.width > 0,
        image.height > 0,
        0 <= k < 4,
    ensures
        mirrored(image).at(x, y, k) == image.at(image.width - 1 - x, y, k),
{
    let (w, h) = (image.width, image.height);
    let cx = clamped(x, 0, w - 1);
    let cy = clamped(y, 0, h - 1);
    lemma_inside(w, h, cx, cy);
    lemma_coordinates(w, cx, cy, k);
}

/// A turned image holds at every place what was at the opposite place.
proof fn lemma_turned_at(image: ImageView, x: int, y: int, k: int)
    requires
        image.wf(),
        image.width > 0,
        image.height > 0,
        0 <= k < 4,
    ensures
        turned(image).at(x, y, k) == image.at(image.width - 1 - x, image.height - 1 - y, k),
{
    let (w, h) = (image.width, image.height);
    let cx = clamped(x, 0, w - 1);
    let cy = clamped(y, 0, h - 1);
    lemma_inside(w, h, cx, cy);
    lemma_coordinates(w, cx, cy, k);
    lemma_opposite(w, h, cx, cy);
}

/// The index of the pixel opposite to a pixel.
proof fn lemma_opposite(w: int, h: int, x: int, y: int)
    ensures
        w * h - 1 - (y * w + x) == (h - 1 - y) * w + (w - 1 - x),
{
    assert(w * h - 1 - (y * w + x) == (h - 1 - y) * w + (w - 1 - x)) by (nonlinear_arith);
}

/// A mirrored image has the mirrored luminance.
proof fn lemma_mirrored_lum(image: ImageView, x: int, y: int)
    requires
        image.wf(),
        image.width > 0,
        image.height > 0,
    ensures
        mirrored(image).lum(x, y) == image.lum(image.width - 1 - x, y),
{
    lemma_mirrored_at(image, x, y, 0);
    lemma_mirrored_at(image, x, y, 1);
    lemma_mirrored_at(image, x, y, 2);
}

/// A turned image has the turned luminance.
proof fn lemma_turned_lum(image: ImageView, x: int, y: int)
    requires
        image.wf(),
        image.width > 0,
        image.height > 0,
    ensures
        turned(image).lum(x, y) == image.lum(image.width - 1 - x, image.height - 1 - y),
{
    lemma_turned_at(image, x, y, 0);
    lemma_turned_at(image, x, y, 1);
    lemma_turned_at(image, x, y, 2);
}

/// The first terms of a row of the mirrored window are the last terms of the
/// row itself.
proof fn lemma_mirrored_row(image: ImageView, r: int, x: int, y: int, k: int, j: int, n: nat)
    requires
        image.wf(),
        image.width > 0,
        image.height > 0,
        0 <= k < 4,
        0 <= r,
        n <= 2 * r + 1,
    ensures
        mirrored(image).blur_row(r, x, y, k, j, n) + image.blur_row(
            r,
            image.width - 1 - x,
            y,
            k,
            j,
            (2 * r + 1 - n) as nat,
        ) == image.blur_row(r, image.width - 1 - x, y, k, j, (2 * r + 1) as nat),
    decreases n,
{
    if n > 0 {
        let m = (2 * r) as nat;
        let i = (n - 1) as nat;
        lemma_mirrored_row(image, r, x, y, k, j, i);
        lemma_mirrored_at(image, x + i - r, y + j - r, k);
        lemma_choose_symmetric(m, i);
        let there = image.width - 1 - x;
        let o = (m - i) as nat;
        assert(image.width - 1 - (x + i - r) == there + o - r);
        assert(image.blur_row(r, there, y, k, j, (2 * r + 1 - i) as nat) == image.blur_row(
            r,
            there,
            y,
            k,
            j,
            o,
        ) + image.at(there + o - r, y + j - r, k) * (choose_count(m, o) * choose_count(
            m,
            j as nat,
        )));
    }
}

/// So a blur of the mirrored image sums up to the same.
proof fn lemma_mirrored_sum(image: ImageView, r: int, x: int, y: int, k: int, n: nat)
    requires
        image.wf(),
        image.width > 0,
        image.height > 0,
        0 <= k < 4,
        0 <= r,
    ensures
        mirrored(image).blur_sum(r, x, y, k, n) == image.blur_sum(
            r,
            image.width - 1 - x,
            y,
            k,
            n,
        ),
    decreases n,
{
    if n > 0 {
        lemma_mirrored_sum(image, r, x, y, k, (n - 1) as nat);
        lemma_mirrored_row(image, r, x, y, k, n - 1, (2 * r + 1) as nat);
    }
}

/// A filter that treats left and right alike.
pub open spec fn even_handed(filter: Filter) -> bool {
    filter is Blur || filter is Edges || filter is Identity
}

/// What such a filter makes of a pixel of the mirrored image.
proof fn lemma_mirrored_filtered(
    image: ImageView,
    filter: Filter,
    param: u32,
    x: int,
    y: int,
    k: int,
)
    requires
        image.wf(),
        image.width > 0,
        image.height > 0,
        0 <= k < 4,
        even_handed(filter),
    ensures
        mirrored(image).filtered(filter, param, x, y, k) == image.filtered(
            filter,
            param,
            image.width - 1 - x,
            y,
            k,
        ),
{
    match filter {
        Filter::Blur => {
            let r = blur_radius(param);
            lemma_mirrored_sum(image, r, x, y, k, (2 * r + 1) as nat);
        },
        Filter::Edges => {
            lemma_mirrored_lum(image, x - 1, y - 1);
            lemma_mirrored_lum(image, x - 1, y);
            lemma_mirrored_lum(image, x - 1, y + 1);
            lemma_mirrored_lum(image, x, y - 1);
            lemma_mirrored_lum(image, x, y + 1);
            lemma_mirrored_lum(image, x + 1, y - 1);
            lemma_mirrored_lum(image, x + 1, y);
            lemma_mirrored_lum(image, x + 1, y + 1);
            let there = image.width - 1 - x;
            assert(mirrored(image).sobel_x(x, y) == -image.sobel_x(there, y));
            assert(mirrored(image).sobel_y(x, y) == image.sobel_y(there, y));
        },
        _ => {
            lemma_mirrored_at(image, x, y, k);
        },
    }
}

/// Blur, edges and identity treat left and right alike: filtering a mirrored
/// image gives the mirrored result.
pub proof fn law_mirroring_commutes(image: ImageView, filter: Filter, param: u32)
    requires
        image.wf(),
        even_handed(filter),
    ensures
        mirrored(image).filter_image(filter, param) == mirrored(image.filter_image(filter, param)),
{
    let filtered = image.filter_image(filter, param);
    let one = mirrored(image).filter_image(filter, param);
    let other = mirrored(filtered);
    let w = image.width;
    assert forall|i: int| 0 <= i < image.rgba.len() implies one.rgba[i] == other.rgba[i] by {
        lemma_byte_coordinates(image, i);
        let (x, y, k) = (i / 4 % w, i / 4 / w, i % 4);
        let there = w - 1 - x;
        lemma_inside(w, image.height, there, y);
        lemma_coordinates(w, there, y, k);
        lemma_mul_is_commutative(w, image.height);
        let at = 4 * (y * w + there) + k;
        assert(0 <= at < image.rgba.len());
        assert(other.rgba[i] == filtered.rgba[at]);
        if k != 3 {
            lemma_mirrored_filtered(image, filter, param, x, y, k);
        }
    }
    assert(one.rgba =~= other.rgba);
}

/// A turned image has the opposite relief at the opposite place.
proof fn lemma_turned_relief(image: ImageView, x: int, y: int)
    requires
        image.wf(),
        image.width > 0,
        image.height > 0,
    ensures
        turned(image).relief(x, y) == -image.relief(image.width - 1 - x, image.height - 1 - y),
{
    lemma_turned_lum(image, x - 1, y - 1);
    lemma_turned_lum(image, x, y - 1);
    lemma_turned_lum(image, x - 1, y);
    lemma_turned_lum(image, x + 1, y);
    lemma_turned_lum(image, x, y + 1);
    lemma_turned_lum(image, x + 1, y + 1);
}

/// Opposite reliefs are embossed on opposite sides of the middle gray.
proof fn lemma_opposite_reliefs(
    image: ImageView,
    other: ImageView,
    param: u32,
    x: int,
    y: int,
    x2: int,
    y2: int,
    c: int,
)
    requires
        other.relief(x2, y2) == -image.relief(x, y),
    ensures
        ({
            let a = image.filtered(Filter::Emboss, param, x, y, c);
            let b = other.filtered(Filter::Emboss, param, x2, y2, c);
            &&& 0 <= a <= 255 && 0 <= b <= 255
            &&& 1 <= a <= 254 ==> b == 256 - a
            &&& a == 0 ==> b == 255
            &&& a == 255 ==> b <= 1
            &&& image.relief(x, y) == 0 ==> a == 128 && b == 128
        }),
{
    let e = image.relief(x, y);
    let g = signed_param(param);
    assert((-e) * g == -(e * g)) by (nonlinear_arith);
    assert(e == 0 ==> e * g == 0) by (nonlinear_arith);
    assert(truncated_div(-(e * g), 2) == -truncated_div(e * g, 2));
}

/// Byte `c` of pixel `i` of a filtered image.
proof fn lemma_filtered_byte(image: ImageView, filter: Filter, param: u32, i: int, c: int)
    requires
        image.wf(),
        0 <= i < image.width * image.height,
        0 <= c < 3,
    ensures
        image.width > 0,
        image.height > 0,
        0 <= i % image.width < image.width,
        0 <= i / image.width < image.height,
        i == i / image.width * image.width + i % image.width,
        image.filter_image(filter, param).rgba[4 * i + c] == image.filtered(
            filter,
            param,
            i % image.width,
            i / image.width,
            c,
        ) as u8,
{
    lemma_byte_coordinates(image, 4 * i + c);
    assert((4 * i + c) / 4 == i && (4 * i + c) % 4 == c);
}

/// Turning an image around turns its relief over: in the turned image, what was
/// raised above the middle gray is as deep below it. Only where a value was cut
/// off at 0 or 255 is less known. Where the luminance is the same everywhere,
/// there is no relief.
pub proof fn law_emboss_turns_over(image: ImageView, param: u32, i: int, c: int)
    requires
        image.wf(),
        0 <= i < image.width * image.height,
        0 <= c < 3,
    ensures
        ({
            let opposite = image.width * image.height - 1 - i;
            let a = image.filter_image(Filter::Emboss, param).rgba[4 * i + c];
            let b = turned(image).filter_image(Filter::Emboss, param).rgba[4 * opposite + c];
            &&& 1 <= a <= 254 ==> b == 256 - a
            &&& a == 0 ==> b == 255
            &&& a == 255 ==> b <= 1
            &&& (forall|x: int, y: int| #[trigger] image.lum(x, y) == image.lum(0, 0)) ==> a == 128
                && b == 128
        }),
{
    let (w, h) = (image.width, image.height);
    let other = turned(image);
    let opposite = w * h - 1 - i;
    lemma_filtered_byte(image, Filter::Emboss, param, i, c);
    lemma_filtered_byte(other, Filter::Emboss, param, opposite, c);
    let (x, y) = (i % w, i / w);
    let (x2, y2) = (w - 1 - x, h - 1 - y);
    lemma_opposite(w, h, x, y);
    lemma_fundamental_div_mod_converse(opposite, w, y2, x2);
    lemma_turned_relief(image, x2, y2);
    lemma_opposite_reliefs(image, other, param, x, y, x2, y2, c);
}

} // verus!
