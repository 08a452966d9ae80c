//! What the filters do to a picture, said in terms of its pixels.
use crate::binomial::{choose_count, choose_signed, lemma_choose_beyond, lemma_signed_step};
use crate::image::{
    blur_norm, blur_radius, common_pixels, differing, lemma_coordinates, lemma_inside,
    signed_param, Filter, ImageView,
};
use crate::image_cli::{Control, MAX_SIDE};
use crate::image_run::{
    asked_filter, image_limits, law_output_follows_input, region_of, HEADER_BYTES, IMAGE_BASE,
};
use crate::encoding::{law_words_round_trip, le_bytes, le_word, le_words};
use vstd::arithmetic::div_mod::lemma_fundamental_div_mod;
use vstd::arithmetic::mul::lemma_mul_is_commutative;
use vstd::prelude::*;

verus! {

/// A sample inside the image is the byte of that pixel; beyond a border it is
/// that of the pixel at the border.
pub proof fn law_borders_extend(image: ImageView, x: int, y: int, k: int)
    requires
        image.width > 0,
        image.height > 0,
    ensures
        0 <= x < image.width && 0 <= y < image.height ==> image.at(x, y, k) == image.rgba[4 * (y
            * image.width + x) + k],
        x <= 0 ==> image.at(x, y, k) == image.at(0, y, k),
        x >= image.width ==> image.at(x, y, k) == image.at(image.width - 1, y, k),
        y <= 0 ==> image.at(x, y, k) == image.at(x, 0, k),
        y >= image.height ==> image.at(x, y, k) == image.at(x, image.height - 1, k),
{
}

/// The luminance weighs red by 77, green by 151 and blue by 28 parts of 256,
/// rounded down; gray keeps its value.
pub proof fn law_luminance_weighs_colors(image: ImageView, x: int, y: int)
    ensures
        ({
            let (r, g, b) = (image.at(x, y, 0), image.at(x, y, 1), image.at(x, y, 2));
            let l = image.lum(x, y);
            &&& 256 * l <= 77 * r + 151 * g + 28 * b < 256 * l + 256
            &&& r == g && g == b ==> l == r
        }),
{
}

/// A filtered image holds at every pixel what the filter makes of that pixel,
/// and the alpha that was there.
pub proof fn law_pixels_stay_in_place(
    image: ImageView,
    filter: Filter,
    param: u32,
    x: int,
    y: int,
    k: int,
)
    requires
        image.wf(),
        0 <= x < image.width,
        0 <= y < image.height,
        0 <= k < 3,
    ensures
        ({
            let at = 4 * (y * image.width + x);
            let out = image.filter_image(filter, param);
            &&& out.width == image.width && out.height == image.height
            &&& out.rgba.len() == image.rgba.len()
            &&& out.rgba[at + k] as int == image.filtered(filter, param, x, y, k)
            &&& out.rgba[at + 3] == image.rgba[at + 3]
        }),
{
    lemma_inside(image.width, image.height, x, y);
    lemma_coordinates(image.width, x, y, k);
    lemma_coordinates(image.width, x, y, 3);
    lemma_mul_is_commutative(image.width, image.height);
}

/// The identity keeps every sample.
pub proof fn law_identity_keeps_samples(image: ImageView, param: u32, x: int, y: int, k: int)
    ensures
        image.filtered(Filter::Identity, param, x, y, k) == image.at(x, y, k),
{
}

/// The size of a number without its sign.
pub open spec fn size_of(v: int) -> int {
    if v >= 0 {
        v
    } else {
        -v
    }
}

/// How steeply the luminance rises across and down the eight neighbors of a
/// pixel: the right column against the left one, and the lower row against the
/// upper one, with the middle of each counted twice.
pub open spec fn steepness(image: ImageView, x: int, y: int) -> int {
    let l = |i: int, j: int| image.lum(x + i, y + j);
    let across = (l(1, -1) - l(-1, -1)) + 2 * (l(1, 0) - l(-1, 0)) + (l(1, 1) - l(-1, 1));
    let down = (l(-1, 1) - l(-1, -1)) + 2 * (l(0, 1) - l(0, -1)) + (l(1, 1) - l(1, -1));
    size_of(across) + size_of(down)
}

/// The number that a parameter stands for: its 32 bits as a signed number.
pub open spec fn as_signed(param: u32) -> int {
    if param < 0x8000_0000 {
        param as int
    } else {
        param - 0x1_0000_0000
    }
}

/// The edge filter scales with its gain: an edge pixel is an eighth of steepness
/// times gain, rounded down, and at most 255. At gain 8 it is the steepness
/// itself, and a larger gain never gives a darker pixel.
pub proof fn law_edges_scale_with_their_gain(
    image: ImageView,
    gain: u32,
    larger: u32,
    x: int,
    y: int,
    k: int,
)
    requires
        as_signed(gain) <= as_signed(larger),
    ensures
        ({
            let m = steepness(image, x, y);
            let v = image.filtered(Filter::Edges, gain, x, y, k);
            &&& m * as_signed(gain) >= 8 * 255 ==> v == 255
            &&& 0 <= m * as_signed(gain) <= 8 * 255 ==> 8 * v <= m * as_signed(gain) < 8 * v + 8
            &&& as_signed(gain) <= 0 ==> v == 0
            &&& gain == 8 && m <= 255 ==> v == m
            &&& v <= image.filtered(Filter::Edges, larger, x, y, k)
            &&& m == 0 ==> v == 0
            &&& 0 <= m
        }),
{
    let m = steepness(image, x, y);
    let (g, h) = (as_signed(gain), as_signed(larger));
    assert(m == crate::image::abs(image.sobel_x(x, y)) + crate::image::abs(image.sobel_y(x, y)));
    assert(m * g <= m * h) by (nonlinear_arith)
        requires
            0 <= m,
            g <= h,
    ;
    assert(g <= 0 ==> m * g <= 0) by (nonlinear_arith)
        requires
            0 <= m,
    ;
    assert(g >= 0 ==> m * g >= 0) by (nonlinear_arith)
        requires
            0 <= m,
    ;
    assert(m == 0 ==> m * g == 0) by (nonlinear_arith);
    assert(g == 8 ==> m * g == 8 * m) by (nonlinear_arith);
}

/// Twice the gain is twice the response before it is divided and cut off.
pub proof fn law_edges_double(image: ImageView, gain: u32, double: u32, x: int, y: int, k: int)
    requires
        double == 2 * gain,
        double <= i32::MAX,
    ensures
        ({
            let v = image.filtered(Filter::Edges, gain, x, y, k);
            let w = image.filtered(Filter::Edges, double, x, y, k);
            &&& w < 255 ==> w == 2 * v || w == 2 * v + 1
            &&& v >= 128 ==> w == 255
        }),
{
    law_edges_scale_with_their_gain(image, gain, double, x, y, k);
    law_edges_scale_with_their_gain(image, double, double, x, y, k);
    let m = steepness(image, x, y);
    assert(m * double == 2 * (m * gain)) by (nonlinear_arith)
        requires
            double == 2 * gain,
    ;
}

/// How much the luminance rises from the upper left to the lower right: each
/// neighbor against the opposite one, with the corner counted twice.
pub open spec fn slope(image: ImageView, x: int, y: int) -> int {
    let l = |i: int, j: int| image.lum(x + i, y + j);
    2 * (l(1, 1) - l(-1, -1)) + (l(0, 1) - l(0, -1)) + (l(1, 0) - l(-1, 0))
}

/// The emboss filter scales with its relief: half of slope times relief, rounded
/// towards zero, above or below the middle gray of 128, cut off at 0 and 255. At
/// relief 2 it is the slope itself.
pub proof fn law_emboss_scales_with_its_relief(
    image: ImageView,
    relief: u32,
    x: int,
    y: int,
    k: int,
)
    ensures
        ({
            let s = slope(image, x, y);
            let t = s * as_signed(relief);
            let v = image.filtered(Filter::Emboss, relief, x, y, k);
            &&& t >= 254 ==> v == 255
            &&& 0 <= t < 256 ==> 2 * (v - 128) <= t < 2 * (v - 128) + 2
            &&& -258 < t <= 0 ==> 2 * (128 - v) <= -t < 2 * (128 - v) + 2
            &&& t <= -256 ==> v == 0
            &&& relief == 2 && -128 <= s <= 127 ==> v == 128 + s
            &&& s == 0 || relief == 0 ==> v == 128
        }),
{
    let s = slope(image, x, y);
    assert(s == image.relief(x, y));
    let g = as_signed(relief);
    assert((s == 0 || g == 0) ==> s * g == 0) by (nonlinear_arith);
    assert(g == 2 ==> s * g == 2 * s) by (nonlinear_arith);
}

/// The blur radius is the parameter, from 1 to 5; other parameters are moved to
/// the nearer end.
pub proof fn law_blur_radius_is_the_parameter(param: u32)
    ensures
        1 <= param <= 5 ==> blur_radius(param) == param,
        5 <= param <= i32::MAX ==> blur_radius(param) == 5,
        param == 0 || param > i32::MAX ==> blur_radius(param) == 1,
        param <= i32::MAX ==> signed_param(param) == param,
        param > i32::MAX ==> signed_param(param) == param - 0x1_0000_0000,
{
}

/// A blurred value is the weighted sum over the window divided by the weights,
/// to the nearest integer.
pub proof fn law_blur_rounds_to_nearest(image: ImageView, param: u32, x: int, y: int, k: int)
    ensures
        ({
            let r = blur_radius(param);
            let sum = smoothed(image, k, r as nat, x, y);
            let v = image.filtered(Filter::Blur, param, x, y, k);
            let weights = total_weight(r as nat);
            weights * (2 * v - 1) <= 2 * sum < weights * (2 * v + 1)
        }),
{
    let r = blur_radius(param);
    law_blur_is_repeated_smoothing(image, r as nat, x, y, k);
    assert(image.channel_within(k, 0, 255));
    crate::image::law_blur_stays_in_range(image, param, x, y, k, 0, 255);
    reveal_with_fuel(total_weight, 6);
    let sum = smoothed(image, k, r as nat, x, y);
    let v = image.filtered(Filter::Blur, param, x, y, k);
    let w = blur_norm(r);
    assert(total_weight(r as nat) == w);
    assert(v == (sum + w / 2) / w);
    lemma_fundamental_div_mod(sum + w / 2, w);
    assert(w * (2 * v - 1) == 2 * (w * v) - w) by (nonlinear_arith);
    assert(w * (2 * v + 1) == 2 * (w * v) + w) by (nonlinear_arith);
}

/// The weight of a smoothing by `r` rounds.
pub open spec fn total_weight(r: nat) -> int
    decreases r,
{
    if r == 0 {
        1
    } else {
        16 * total_weight((r - 1) as nat)
    }
}

/// Channel `k` after `r` rounds of smoothing: each round adds up a pixel and its
/// eight neighbors, weighted 1-2-1 across and 1-2-1 down.
pub open spec fn smoothed(image: ImageView, k: int, r: nat, x: int, y: int) -> int
    decreases r,
{
    if r == 0 {
        image.at(x, y, k)
    } else {
        let q = (r - 1) as nat;
        (smoothed(image, k, q, x - 1, y - 1) + 2 * smoothed(image, k, q, x, y - 1) + smoothed(
            image,
            k,
            q,
            x + 1,
            y - 1,
        )) + 2 * (smoothed(image, k, q, x - 1, y) + 2 * smoothed(image, k, q, x, y) + smoothed(
            image,
            k,
            q,
            x + 1,
            y,
        )) + (smoothed(image, k, q, x - 1, y + 1) + 2 * smoothed(image, k, q, x, y + 1) + smoothed(
            image,
            k,
            q,
            x + 1,
            y + 1,
        ))
    }
}

/// The first `n` values from `at` on, weighted by row `m` of the binomials.
spec fn weighted(f: spec_fn(int) -> int, at: int, m: nat, n: nat) -> int
    decreases n,
{
    if n == 0 {
        0
    } else {
        weighted(f, at, m, (n - 1) as nat) + f(at + n - 1) * choose_count(m, (n - 1) as nat)
    }
}

/// Row `m` as a whole.
spec fn weighted_row(f: spec_fn(int) -> int, at: int, m: nat) -> int {
    weighted(f, at, m, m + 1)
}

/// Pascal's rule for weighted sums.
proof fn lemma_weighted_step(f: spec_fn(int) -> int, at: int, m: nat, n: nat)
    ensures
        weighted(f, at, m + 1, n + 1) == weighted(f, at, m, n + 1) + weighted(f, at + 1, m, n),
    decreases n,
{
    if n == 0 {
        reveal_with_fuel(weighted, 2);
        assert(choose_count(m + 1, 0) == 1 && choose_count(m, 0) == 1);
    } else {
        let i = (n - 1) as nat;
        lemma_weighted_step(f, at, m, i);
        let v = f(at + n);
        let (a, b) = (choose_count(m, n), choose_count(m, i));
        assert(choose_count(m + 1, n) == a + b);
        assert(v * (a + b) == v * a + v * b) by (nonlinear_arith);
        assert(at + 1 + n - 1 == at + n);
        assert(f(at + 1 + n - 1) == v);
        assert(f(at + (n + 1) - 1) == v);
        assert(weighted(f, at, m + 1, n + 1) == weighted(f, at, m + 1, n) + v * choose_count(
            m + 1,
            n,
        ));
        assert(weighted(f, at, m, n + 1) == weighted(f, at, m, n) + v * a);
        assert(weighted(f, at + 1, m, n) == weighted(f, at + 1, m, i) + v * b);
    }
}

/// Two rows further down, a weighted row is 1-2-1 of the rows here.
proof fn lemma_weighted_twice(f: spec_fn(int) -> int, at: int, m: nat)
    ensures
        weighted_row(f, at, m + 2) == weighted_row(f, at, m) + 2 * weighted_row(f, at + 1, m)
            + weighted_row(f, at + 2, m),
{
    lemma_weighted_once(f, at, m + 1);
    lemma_weighted_once(f, at, m);
    lemma_weighted_once(f, at + 1, m);
}

proof fn lemma_weighted_once(f: spec_fn(int) -> int, at: int, m: nat)
    ensures
        weighted_row(f, at, m + 1) == weighted_row(f, at, m) + weighted_row(f, at + 1, m),
{
    lemma_weighted_step(f, at, m, m + 1);
    lemma_choose_beyond(m, m + 1);
    let v = f(at + (m + 2) - 1);
    assert(v * 0 == 0) by (nonlinear_arith);
    assert(weighted(f, at, m, m + 2) == weighted(f, at, m, m + 1) + v * choose_count(m, m + 1));
}

/// Weighted sums are linear.
proof fn lemma_weighted_linear(
    f: spec_fn(int) -> int,
    a: spec_fn(int) -> int,
    b: spec_fn(int) -> int,
    c: spec_fn(int) -> int,
    at: int,
    m: nat,
    n: nat,
)
    requires
        forall|v: int| #[trigger] f(v) == a(v) + 2 * b(v) + c(v),
    ensures
        weighted(f, at, m, n) == weighted(a, at, m, n) + 2 * weighted(b, at, m, n) + weighted(
            c,
            at,
            m,
            n,
        ),
    decreases n,
{
    if n > 0 {
        lemma_weighted_linear(f, a, b, c, at, m, (n - 1) as nat);
        let v = at + n - 1;
        let w = choose_count(m, (n - 1) as nat) as int;
        let (p, q, s) = (a(v), b(v), c(v));
        assert(f(v) == p + 2 * q + s);
        assert((p + 2 * q + s) * w == p * w + 2 * (q * w) + s * w) by (nonlinear_arith);
    }
}

/// A row of the blur window is a weighted row of samples.
proof fn lemma_blur_row_weighted(image: ImageView, r: int, x: int, y: int, k: int, j: int, n: nat)
    requires
        0 <= r,
    ensures
        image.blur_row(r, x, y, k, j, n) == weighted(
            |i: int| image.at(i, y + j - r, k),
            x - r,
            (2 * r) as nat,
            n,
        ) * choose_count((2 * r) as nat, j as nat),
    decreases n,
{
    let f = |i: int| image.at(i, y + j - r, k);
    let m = (2 * r) as nat;
    let cj = choose_count(m, j as nat) as int;
    if n == 0 {
        assert(0 * cj == 0);
    } else {
        let i = n - 1;
        lemma_blur_row_weighted(image, r, x, y, k, j, i as nat);
        let ci = choose_count(m, i as nat) as int;
        let v = image.at(x + i - r, y + j - r, k);
        assert(f(x - r + n - 1) == v);
        let s = weighted(f, x - r, m, i as nat);
        assert((s + v * ci) * cj == s * cj + v * (ci * cj)) by (nonlinear_arith);
    }
}

/// A blur window is a weighted row of weighted rows.
proof fn lemma_blur_sum_weighted(image: ImageView, r: int, x: int, y: int, k: int, n: nat)
    requires
        0 <= r,
    ensures
        image.blur_sum(r, x, y, k, n) == weighted(
            |v: int| weighted_row(|i: int| image.at(i, v, k), x - r, (2 * r) as nat),
            y - r,
            (2 * r) as nat,
            n,
        ),
    decreases n,
{
    if n > 0 {
        let j = n - 1;
        lemma_blur_sum_weighted(image, r, x, y, k, j as nat);
        lemma_blur_row_weighted(image, r, x, y, k, j, (2 * r + 1) as nat);
        assert(y - r + n - 1 == y + j - r);
    }
}

/// A blur of radius `r` is `r` rounds of 1-2-1 smoothing, across and down.
pub proof fn law_blur_is_repeated_smoothing(image: ImageView, r: nat, x: int, y: int, k: int)
    ensures
        image.blur_sum(r as int, x, y, k, (2 * r + 1) as nat) == smoothed(image, k, r, x, y),
{
    lemma_blur_sum_weighted(image, r as int, x, y, k, (2 * r + 1) as nat);
    lemma_window_is_smoothing(image, r, x, y, k);
}

/// The window of radius `r`, as a weighted row of weighted rows.
spec fn window(image: ImageView, k: int, r: nat, x: int, y: int) -> int {
    weighted_row(
        |v: int| weighted_row(|i: int| image.at(i, v, k), x - r, 2 * r),
        y - r,
        2 * r,
    )
}

/// The rows of two rounds more are 1-2-1 of these rows, and so are the columns.
proof fn lemma_window_is_smoothing(image: ImageView, r: nat, x: int, y: int, k: int)
    ensures
        window(image, k, r, x, y) == smoothed(image, k, r, x, y),
    decreases r,
{
    if r == 0 {
        reveal_with_fuel(weighted, 2);
        assert(choose_count(0, 0) == 1);
    } else {
        let q = (r - 1) as nat;
        let m = 2 * q;
        let wide = |v: int| weighted_row(|i: int| image.at(i, v, k), x - r, 2 * r);
        let left = |v: int| weighted_row(|i: int| image.at(i, v, k), x - 1 - q, m);
        let mid = |v: int| weighted_row(|i: int| image.at(i, v, k), x - q, m);
        let right = |v: int| weighted_row(|i: int| image.at(i, v, k), x + 1 - q, m);
        assert forall|v: int| #[trigger] wide(v) == left(v) + 2 * mid(v) + right(v) by {
            let f = |i: int| image.at(i, v, k);
            lemma_weighted_twice(f, x - r, m);
            assert(x - r == x - 1 - q);
            assert(x - r + 1 == x - q);
            assert(x - r + 2 == x + 1 - q);
            assert(2 * r == m + 2);
        }
        assert(2 * r == m + 2);
        lemma_weighted_twice(wide, y - r, m);
        assert(y - r == y - 1 - q);
        assert(y - r + 1 == y - q);
        assert(y - r + 2 == y + 1 - q);
        lemma_weighted_linear(wide, left, mid, right, y - 1 - q, m, m + 1);
        lemma_weighted_linear(wide, left, mid, right, y - q, m, m + 1);
        lemma_weighted_linear(wide, left, mid, right, y + 1 - q, m, m + 1);
        lemma_window_is_smoothing(image, q, x - 1, y - 1, k);
        lemma_window_is_smoothing(image, q, x, y - 1, k);
        lemma_window_is_smoothing(image, q, x + 1, y - 1, k);
        lemma_window_is_smoothing(image, q, x - 1, y, k);
        lemma_window_is_smoothing(image, q, x, y, k);
        lemma_window_is_smoothing(image, q, x + 1, y, k);
        lemma_window_is_smoothing(image, q, x - 1, y + 1, k);
        lemma_window_is_smoothing(image, q, x, y + 1, k);
        lemma_window_is_smoothing(image, q, x + 1, y + 1, k);
    }
}

/// Neighboring binomials stand to each other as `n - k` to `k + 1`, from 1 on;
/// this holds for negative `n` as well.
pub proof fn law_binomials_by_ratio(n: int, k: nat)
    ensures
        choose_signed(n, 0) == 1,
        choose_signed(n, k) * (n - k) == choose_signed(n, k + 1) * (k + 1),
        n >= 0 ==> choose_signed(n, k) == choose_count(n as nat, k),
{
    lemma_signed_step(n, k);
}

/// Which of the first `n` pixels differ in some byte.
pub open spec fn pixels_apart(a: Seq<u8>, b: Seq<u8>, n: nat) -> Set<int> {
    Set::new(
        |i: int|
            0 <= i < n && (a[4 * i] != b[4 * i] || a[4 * i + 1] != b[4 * i + 1] || a[4 * i + 2]
                != b[4 * i + 2] || a[4 * i + 3] != b[4 * i + 3]),
    )
}

/// Every pixel that differs in some byte is counted once, and no other.
pub proof fn law_differing_pixels_are_counted_once(a: Seq<u8>, b: Seq<u8>, n: nat)
    requires
        4 * n <= a.len(),
        4 * n <= b.len(),
    ensures
        pixels_apart(a, b, n).finite(),
        differing(a, b, n) == pixels_apart(a, b, n).len(),
    decreases n,
{
    if n == 0 {
        assert(pixels_apart(a, b, 0) =~= Set::empty());
    } else {
        let m = (n - 1) as nat;
        law_differing_pixels_are_counted_once(a, b, m);
        let i = 4 * m as int;
        let (p, q) = (a.subrange(i, i + 4), b.subrange(i, i + 4));
        assert(p[0] == a[i] && p[1] == a[i + 1] && p[2] == a[i + 2] && p[3] == a[i + 3]);
        assert(q[0] == b[i] && q[1] == b[i + 1] && q[2] == b[i + 2] && q[3] == b[i + 3]);
        if p == q {
            assert(pixels_apart(a, b, n) =~= pixels_apart(a, b, m));
        } else {
            assert(!(p =~= q));
            assert(pixels_apart(a, b, n) =~= pixels_apart(a, b, m).insert(m as int));
        }
    }
}

/// Two byte sequences are compared over all whole pixels that both have.
pub proof fn law_common_pixels(a: Seq<u8>, b: Seq<u8>)
    ensures
        4 * common_pixels(a, b) <= a.len(),
        4 * common_pixels(a, b) <= b.len(),
        4 * common_pixels(a, b) + 4 > a.len() || 4 * common_pixels(a, b) + 4 > b.len(),
{
}

/// The guest reads width, height, filter and parameter from the four words of
/// the header, which stands 16 KiB into its memory.
pub proof fn law_header_words(input: ImageView, filter: u32, param: u32)
    requires
        input.wf(),
    ensures
        ({
            let region = region_of(input, filter, param);
            &&& le_word(region, 0) == input.width
            &&& le_word(region, 4) == input.height
            &&& le_word(region, 8) == filter
            &&& le_word(region, 12) == param
            &&& forall|i: int| 0 <= i < input.rgba.len() ==> #[trigger] region[16 + i]
                == input.rgba[i]
            &&& region.len() == 16 + 2 * input.rgba.len()
        }),
        IMAGE_BASE == 16_384,
        HEADER_BYTES == 16,
        MAX_SIDE == 512,
{
    let words = seq![input.width as u32, input.height as u32, filter, param];
    law_words_round_trip(words);
    let header = le_bytes(words);
    let region = region_of(input, filter, param);
    assert(le_words(header)[0] == le_word(header, 0));
    assert(le_words(header)[1] == le_word(header, 4));
    assert(le_words(header)[2] == le_word(header, 8));
    assert(le_words(header)[3] == le_word(header, 12));
    law_output_follows_input(input, filter, param);
}

/// Without a control the guest is asked for the filter's own slot; the wrong
/// shader is the identity whatever the filter; and nothing is dispatched under a
/// slot that belongs to no filter.
pub proof fn law_controls_pick_the_slot(filter: Filter, other: Filter)
    ensures
        asked_filter(Control::Plain, filter) == filter.spec_id(),
        asked_filter(Control::WrongShader, filter) == asked_filter(
            Control::Plain,
            Filter::Identity,
        ),
        asked_filter(Control::NoDispatch, filter) != asked_filter(Control::Plain, other),
        asked_filter(Control::NoDispatch, filter) == 255,
        Filter::Blur.spec_id() == 0,
        Filter::Edges.spec_id() == 1,
        Filter::Emboss.spec_id() == 2,
        Filter::Identity.spec_id() == 3,
{
}

/// Every filter goes by its own name, from which it is found again, and has its
/// own default and its own largest parameter; no other name is one.
pub proof fn law_filters_have_names(filter: Filter, name: Seq<char>)
    ensures
        Filter::named(filter.spec_name()) == Some(filter),
        Filter::named(name) is Some ==> Filter::named(name)->0.spec_name() == name,
        filter is Blur ==> filter.spec_name() == "blur"@ && filter.spec_default_param() == 4
            && filter.spec_max_param() == 5,
        filter is Edges ==> filter.spec_name() == "edges"@ && filter.spec_default_param() == 2
            && filter.spec_max_param() == 16,
        filter is Emboss ==> filter.spec_name() == "emboss"@ && filter.spec_default_param() == 1
            && filter.spec_max_param() == 16,
        filter is Identity ==> filter.spec_name() == "identity"@ && filter.spec_default_param()
            == 1 && filter.spec_max_param() == 1,
{
    reveal_strlit("blur");
    reveal_strlit("edges");
    reveal_strlit("emboss");
    reveal_strlit("identity");
    assert("blur"@.len() == 4 && "edges"@.len() == 5);
    assert("emboss"@.len() == 6 && "identity"@.len() == 8);
}

/// The image guest may hold two buffers, four mebibytes and two pipelines.
pub proof fn law_image_budget()
    ensures
        image_limits().max_buffers == 2,
        image_limits().max_bytes == 4 * 1024 * 1024,
        image_limits().max_pipelines == 2,
{
}

} // verus!
