//! RGBA8 images and the integer filters over them.
//!
//! Filters act on RGB and carry the source pixel's alpha through unchanged.
//! Pixels beyond the border take the value of the nearest one inside.
use crate::binomial::{binomial, choose_count, lemma_choose_bound, lemma_row_sum, row_sum};
use vstd::arithmetic::div_mod::{
    lemma_div_basics_2, lemma_div_is_ordered, lemma_div_is_ordered_by_denominator,
    lemma_div_multiples_vanish_fancy, lemma_div_pos_is_pos, lemma_fundamental_div_mod,
    lemma_fundamental_div_mod_converse,
};
use vstd::arithmetic::mul::{lemma_mul_is_commutative, lemma_mul_is_distributive_add_other_way};
use vstd::arithmetic::power2::{lemma2_to64, pow2};
use vstd::prelude::*;

verus! {

#[derive(Clone, Copy, Debug, PartialEq, Eq, Structural)]
pub enum Filter {
    Blur,
    Edges,
    Emboss,
    Identity,
}

/// A name that stands for none of the expected things.
#[derive(Debug)]
pub struct UnknownName {
    pub name: String,
}

impl Filter {
    /// The name of the filter on the command line.
    pub open spec fn spec_name(self) -> Seq<char> {
        match self {
            Filter::Blur => "blur"@,
            Filter::Edges => "edges"@,
            Filter::Emboss => "emboss"@,
            Filter::Identity => "identity"@,
        }
    }

    /// The filter of that name.
    pub open spec fn named(name: Seq<char>) -> Option<Filter> {
        if name == "blur"@ {
            Some(Filter::Blur)
        } else if name == "edges"@ {
            Some(Filter::Edges)
        } else if name == "emboss"@ {
            Some(Filter::Emboss)
        } else if name == "identity"@ {
            Some(Filter::Identity)
        } else {
            None
        }
    }

    pub fn parse(name: &str) -> (filter: Result<Filter, UnknownName>)
        ensures
            match filter {
                Ok(filter) => Filter::named(name@) == Some(filter),
                Err(unknown) => Filter::named(name@) is None && unknown.name@ == name@,
            },
    {
        if *name == *"blur" {
            Ok(Filter::Blur)
        } else if *name == *"edges" {
            Ok(Filter::Edges)
        } else if *name == *"emboss" {
            Ok(Filter::Emboss)
        } else if *name == *"identity" {
            Ok(Filter::Identity)
        } else {
            Err(UnknownName { name: name.to_owned() })
        }
    }

    pub open spec fn spec_id(self) -> u32 {
        match self {
            Filter::Blur => 0,
            Filter::Edges => 1,
            Filter::Emboss => 2,
            Filter::Identity => 3,
        }
    }

    /// Shader slot index inside the guest.
    pub fn id(self) -> (id: u32)
        ensures
            id == self.spec_id(),
    {
        match self {
            Filter::Blur => 0,
            Filter::Edges => 1,
            Filter::Emboss => 2,
            Filter::Identity => 3,
        }
    }

    pub open spec fn spec_default_param(self) -> u32 {
        match self {
            Filter::Blur => 4,
            Filter::Edges => 2,
            Filter::Emboss => 1,
            Filter::Identity => 1,
        }
    }

    pub fn default_param(self) -> (param: u32)
        ensures
            param == self.spec_default_param(),
    {
        match self {
            Filter::Blur => 4,
            Filter::Edges => 2,
            Filter::Emboss => 1,
            Filter::Identity => 1,
        }
    }

    pub open spec fn spec_max_param(self) -> u32 {
        match self {
            Filter::Blur => 5,
            Filter::Edges => 16,
            Filter::Emboss => 16,
            Filter::Identity => 1,
        }
    }

    /// Inclusive parameter range: blur radius (kernel `2r+1`, the i32
    /// accumulator overflows past 5), edge gain, emboss relief.
    pub fn max_param(self) -> (param: u32)
        ensures
            param == self.spec_max_param(),
    {
        match self {
            Filter::Blur => 5,
            Filter::Edges | Filter::Emboss => 16,
            Filter::Identity => 1,
        }
    }
}

/// Every filter is found under its name and no other filter is, shader slots
/// tell the filters apart, and every default parameter is in range.
pub proof fn law_filters_are_distinct(a: Filter, b: Filter, name: Seq<char>)
    ensures
        Filter::named(a.spec_name()) == Some(a),
        Filter::named(name) == Some(a) ==> name == a.spec_name(),
        a.spec_name() == b.spec_name() ==> a == b,
        a.spec_id() == b.spec_id() ==> a == b,
        1 <= a.spec_default_param() <= a.spec_max_param(),
{
    reveal_strlit("blur");
    reveal_strlit("edges");
    reveal_strlit("emboss");
    reveal_strlit("identity");
    assert("blur"@.len() == 4);
    assert("edges"@.len() == 5);
    assert("emboss"@.len() == 6);
    assert("identity"@.len() == 8);
}

/// RGBA8 image, row-major.
#[derive(Clone, Debug)]
pub struct Image {
    pub width: u32,
    pub height: u32,
    pub rgba: Vec<u8>,
}

#[verifier::ext_equal]
pub struct ImageView {
    pub width: int,
    pub height: int,
    pub rgba: Seq<u8>,
}

impl View for Image {
    type V = ImageView;

    open spec fn view(&self) -> ImageView {
        ImageView { width: self.width as int, height: self.height as int, rgba: self.rgba@ }
    }
}

/// `v` moved into `lo..=hi`.
pub open spec fn clamped(v: int, lo: int, hi: int) -> int {
    if v < lo {
        lo
    } else if v > hi {
        hi
    } else {
        v
    }
}

/// `a / d` rounded towards zero, for a positive `d`.
pub open spec fn truncated_div(a: int, d: int) -> int {
    if a >= 0 {
        a / d
    } else {
        -((-a) / d)
    }
}

pub open spec fn abs(v: int) -> int {
    if v < 0 {
        -v
    } else {
        v
    }
}

/// A filter parameter as the kernels read it.
pub open spec fn signed_param(param: u32) -> int {
    if param <= i32::MAX {
        param as int
    } else {
        param - 0x1_0000_0000
    }
}

/// The blur radius that a parameter asks for.
pub open spec fn blur_radius(param: u32) -> int {
    clamped(signed_param(param), 1, 5)
}

/// The sum of all weights of a blur of radius `r`: `2^(4r)`.
pub open spec fn blur_norm(r: int) -> int {
    if r <= 1 {
        0x10
    } else if r == 2 {
        0x100
    } else if r == 3 {
        0x1000
    } else if r == 4 {
        0x1_0000
    } else {
        0x10_0000
    }
}

impl ImageView {
    /// Four bytes for every pixel.
    pub open spec fn wf(self) -> bool {
        &&& 0 <= self.width <= u32::MAX
        &&& 0 <= self.height <= u32::MAX
        &&& self.rgba.len() == 4 * (self.width * self.height)
    }

    /// Byte `k` of the pixel at `(x, y)`, or of the nearest one inside.
    pub open spec fn at(self, x: int, y: int, k: int) -> int {
        self.rgba[4 * (clamped(y, 0, self.height - 1) * self.width + clamped(
            x,
            0,
            self.width - 1,
        )) + k] as int
    }

    /// Luminance at `(x, y)`.
    pub open spec fn lum(self, x: int, y: int) -> int {
        (self.at(x, y, 0) * 77 + self.at(x, y, 1) * 151 + self.at(x, y, 2) * 28) / 256
    }

    /// The first `n` terms of row `j` of the blur window around `(x, y)`.
    pub open spec fn blur_row(self, r: int, x: int, y: int, k: int, j: int, n: nat) -> int
        decreases n,
    {
        if n == 0 {
            0
        } else {
            let i = n - 1;
            self.blur_row(r, x, y, k, j, i as nat) + self.at(x + i - r, y + j - r, k) * (
            choose_count((2 * r) as nat, i as nat) * choose_count((2 * r) as nat, j as nat))
        }
    }

    /// The first `n` rows of the blur window around `(x, y)`.
    pub open spec fn blur_sum(self, r: int, x: int, y: int, k: int, n: nat) -> int
        decreases n,
    {
        if n == 0 {
            0
        } else {
            self.blur_sum(r, x, y, k, (n - 1) as nat) + self.blur_row(
                r,
                x,
                y,
                k,
                n - 1,
                (2 * r + 1) as nat,
            )
        }
    }

    /// Binomial blur: the weighted mean of the window, rounded to nearest.
    pub open spec fn blurred(self, r: int, x: int, y: int, k: int) -> int {
        (self.blur_sum(r, x, y, k, (2 * r + 1) as nat) + blur_norm(r) / 2) / blur_norm(r)
    }

    /// Horizontal Sobel response of the luminance.
    pub open spec fn sobel_x(self, x: int, y: int) -> int {
        self.lum(x + 1, y - 1) + 2 * self.lum(x + 1, y) + self.lum(x + 1, y + 1) - self.lum(
            x - 1,
            y - 1,
        ) - 2 * self.lum(x - 1, y) - self.lum(x - 1, y + 1)
    }

    /// Vertical Sobel response of the luminance.
    pub open spec fn sobel_y(self, x: int, y: int) -> int {
        self.lum(x - 1, y + 1) + 2 * self.lum(x, y + 1) + self.lum(x + 1, y + 1) - self.lum(
            x - 1,
            y - 1,
        ) - 2 * self.lum(x, y - 1) - self.lum(x + 1, y - 1)
    }

    /// Diagonal relief of the luminance.
    pub open spec fn relief(self, x: int, y: int) -> int {
        self.lum(x + 1, y) + self.lum(x, y + 1) + 2 * self.lum(x + 1, y + 1) - 2 * self.lum(
            x - 1,
            y - 1,
        ) - self.lum(x, y - 1) - self.lum(x - 1, y)
    }

    /// Color channel `k` of the filtered pixel at `(x, y)`.
    pub open spec fn filtered(self, filter: Filter, param: u32, x: int, y: int, k: int) -> int {
        clamped(
            match filter {
                Filter::Blur => self.blurred(blur_radius(param), x, y, k),
                Filter::Edges => {
                    let m = truncated_div(
                        (abs(self.sobel_x(x, y)) + abs(self.sobel_y(x, y))) * signed_param(param),
                        8,
                    );
                    if m < 255 {
                        m
                    } else {
                        255
                    }
                },
                Filter::Emboss => 128 + truncated_div(self.relief(x, y) * signed_param(param), 2),
                Filter::Identity => self.at(x, y, k),
            },
            0,
            255,
        )
    }

    /// Byte `i` of the filtered image: alpha from the source, the rest from
    /// the filter.
    pub open spec fn filtered_byte(self, filter: Filter, param: u32, i: int) -> u8 {
        if i % 4 == 3 {
            self.rgba[i]
        } else {
            self.filtered(filter, param, i / 4 % self.width, i / 4 / self.width, i % 4) as u8
        }
    }

    /// The whole filtered image.
    pub open spec fn filter_image(self, filter: Filter, param: u32) -> ImageView {
        ImageView {
            rgba: Seq::new(
                self.rgba.len(),
                |i: int| self.filtered_byte(filter, param, i),
            ),
            ..self
        }
    }
}

impl ImageView {
    /// The products of the filter's gain and its responses stay within `i32`.
    pub open spec fn arithmetic_fits(self, filter: Filter, param: u32) -> bool {
        forall|x: int, y: int|
            0 <= x < self.width && 0 <= y < self.height ==> {
                &&& filter is Edges ==> i32::MIN <= (abs(#[trigger] self.sobel_x(x, y)) + abs(
                    self.sobel_y(x, y),
                )) * signed_param(param) <= i32::MAX
                &&& filter is Emboss ==> i32::MIN <= self.relief(x, y) * signed_param(param)
                    <= i32::MAX && 128 + truncated_div(self.relief(x, y) * signed_param(param), 2)
                    <= i32::MAX
            }
    }

    /// Every sample of channel `k` lies within `lo..=hi`.
    pub open spec fn channel_within(self, k: int, lo: int, hi: int) -> bool {
        forall|x: int, y: int| lo <= #[trigger] self.at(x, y, k) <= hi
    }

    /// Partial rows of the blur window weigh as much as the binomials do.
    proof fn lemma_blur_row(
        self,
        r: int,
        x: int,
        y: int,
        k: int,
        j: int,
        n: nat,
        lo: int,
        hi: int,
    )
        requires
            self.channel_within(k, lo, hi),
        ensures
            lo * (choose_count((2 * r) as nat, j as nat) * row_sum((2 * r) as nat, n))
                <= self.blur_row(r, x, y, k, j, n) <= hi * (choose_count((2 * r) as nat, j as nat)
                * row_sum((2 * r) as nat, n)),
        decreases n,
    {
        let m = (2 * r) as nat;
        let cj = choose_count(m, j as nat);
        if n == 0 {
            assert(lo * (cj * 0) == 0 && hi * (cj * 0) == 0) by (nonlinear_arith);
        } else {
            let i = (n - 1) as nat;
            self.lemma_blur_row(r, x, y, k, j, i, lo, hi);
            let ci = choose_count(m, i);
            let s = row_sum(m, i);
            let v = self.at(x + i - r, y + j - r, k);
            assert(row_sum(m, n) == s + ci);
            assert(lo * (cj * (s + ci)) == lo * (cj * s) + lo * (ci * cj) && hi * (cj * (s + ci))
                == hi * (cj * s) + hi * (ci * cj) && lo * (ci * cj) <= v * (ci * cj) <= hi * (ci
                * cj)) by (nonlinear_arith)
                requires
                    0 <= ci,
                    0 <= cj,
                    lo <= v <= hi,
            ;
        }
    }

    /// So do partial windows.
    proof fn lemma_blur_sum(self, r: int, x: int, y: int, k: int, n: nat, lo: int, hi: int)
        requires
            0 <= r,
            self.channel_within(k, lo, hi),
        ensures
            lo * (pow2((2 * r) as nat) * row_sum((2 * r) as nat, n)) <= self.blur_sum(
                r,
                x,
                y,
                k,
                n,
            ) <= hi * (pow2((2 * r) as nat) * row_sum((2 * r) as nat, n)),
        decreases n,
    {
        let m = (2 * r) as nat;
        let p = pow2(m);
        if n == 0 {
            assert(lo * (p * 0) == 0 && hi * (p * 0) == 0) by (nonlinear_arith);
        } else {
            let j = (n - 1) as nat;
            self.lemma_blur_sum(r, x, y, k, j, lo, hi);
            self.lemma_blur_row(r, x, y, k, j as int, (2 * r + 1) as nat, lo, hi);
            lemma_row_sum(m, m + 1);
            let cj = choose_count(m, j);
            let s = row_sum(m, j);
            assert(lo * (p * (s + cj)) == lo * (p * s) + lo * (cj * p) && hi * (p * (s + cj)) == hi
                * (p * s) + hi * (cj * p)) by (nonlinear_arith);
        }
    }

    /// The whole window of a blur weighs `blur_norm`.
    proof fn lemma_blur_window(self, r: int, x: int, y: int, k: int, lo: int, hi: int)
        requires
            1 <= r <= 5,
            self.channel_within(k, lo, hi),
        ensures
            lo * blur_norm(r) <= self.blur_sum(r, x, y, k, (2 * r + 1) as nat) <= hi * blur_norm(r),
            lo <= self.blurred(r, x, y, k) <= hi,
    {
        let m = (2 * r) as nat;
        self.lemma_blur_sum(r, x, y, k, (2 * r + 1) as nat, lo, hi);
        lemma_row_sum(m, m + 1);
        lemma2_to64();
        let p = pow2(m);
        assert(p * p == blur_norm(r)) by {
            if r == 1 {
                assert(p * p == 0x10) by (nonlinear_arith) requires p == 0x4;
            } else if r == 2 {
                assert(p * p == 0x100) by (nonlinear_arith) requires p == 0x10;
            } else if r == 3 {
                assert(p * p == 0x1000) by (nonlinear_arith) requires p == 0x40;
            } else if r == 4 {
                assert(p * p == 0x1_0000) by (nonlinear_arith) requires p == 0x100;
            } else {
                assert(p * p == 0x10_0000) by (nonlinear_arith) requires p == 0x400;
            }
        }
        let total = self.blur_sum(r, x, y, k, (2 * r + 1) as nat);
        let norm = blur_norm(r);
        lemma_mul_is_commutative(lo, norm);
        lemma_mul_is_commutative(hi, norm);
        lemma_div_multiples_vanish_fancy(lo, 0, norm);
        lemma_div_multiples_vanish_fancy(hi, norm / 2, norm);
        lemma_div_is_ordered(norm * lo, total + norm / 2, norm);
        lemma_div_is_ordered(total + norm / 2, norm * hi + norm / 2, norm);
    }

    /// Moderate gains never overflow.
    pub proof fn lemma_small_params_fit(self, filter: Filter, param: u32)
        requires
            param <= 0x8_0000,
        ensures
            self.arithmetic_fits(filter, param),
    {
        assert forall|x: int, y: int| 0 <= x < self.width && 0 <= y < self.height implies {
            &&& filter is Edges ==> i32::MIN <= (abs(#[trigger] self.sobel_x(x, y)) + abs(
                self.sobel_y(x, y),
            )) * signed_param(param) <= i32::MAX
            &&& filter is Emboss ==> i32::MIN <= self.relief(x, y) * signed_param(param)
                <= i32::MAX && 128 + truncated_div(self.relief(x, y) * signed_param(param), 2)
                <= i32::MAX
        } by {
            let p = signed_param(param);
            let g = abs(self.sobel_x(x, y)) + abs(self.sobel_y(x, y));
            let e = self.relief(x, y);
            assert(0 <= g * p <= 2040 * 0x8_0000) by (nonlinear_arith)
                requires
                    0 <= g <= 2040,
                    0 <= p <= 0x8_0000,
            ;
            assert(-1020 * 0x8_0000 <= e * p <= 1020 * 0x8_0000) by (nonlinear_arith)
                requires
                    -1020 <= e <= 1020,
                    0 <= p <= 0x8_0000,
            ;
        }
    }
}

/// `v` moved into `lo..=hi`.
fn clamp(v: i32, lo: i32, hi: i32) -> (c: i32)
    requires
        lo <= hi,
    ensures
        c == clamped(v as int, lo as int, hi as int),
{
    if v < lo {
        lo
    } else if v > hi {
        hi
    } else {
        v
    }
}

impl Image {
    /// The sizes that the kernels' index arithmetic covers.
    pub open spec fn indexable(self) -> bool {
        self@.wf() && self@.width * self@.height <= 0x2000_0000
    }

    /// Byte `k` of the pixel at `(x, y)`, or of the nearest one inside.
    fn sample(&self, x: i32, y: i32, k: usize) -> (v: i32)
        requires
            self.indexable(),
            self.width > 0,
            self.height > 0,
            k < 4,
        ensures
            v == self@.at(x as int, y as int, k as int),
            0 <= v <= 255,
    {
        proof {
            lemma_sides(self.width as int, self.height as int);
        }
        let w: i32 = self.width as i32;
        let h: i32 = self.height as i32;
        let cx: i32 = clamp(x, 0, w - 1);
        let cy: i32 = clamp(y, 0, h - 1);
        proof {
            lemma_inside(self@.width, self@.height, cx as int, cy as int);
        }
        let i: usize = ((cy * w + cx) * 4) as usize;
        self.rgba[i + k] as i32
    }

    fn luminance(&self, x: i32, y: i32) -> (v: i32)
        requires
            self.indexable(),
            self.width > 0,
            self.height > 0,
        ensures
            v == self@.lum(x as int, y as int),
            0 <= v <= 255,
    {
        let r: i32 = self.sample(x, y, 0);
        let g: i32 = self.sample(x, y, 1);
        let b: i32 = self.sample(x, y, 2);
        let weighted: u32 = (r * 77 + g * 151 + b * 28) as u32;
        assert(weighted >> 8 == weighted / 256) by (bit_vector);
        (weighted >> 8) as i32
    }

    /// One color channel of the binomial blur at `(x, y)`.
    fn blur(&self, weights: &Vec<i32>, r: i32, x: i32, y: i32, k: usize) -> (v: i32)
        requires
            self.indexable(),
            0 <= x < self.width,
            0 <= y < self.height,
            k < 3,
            1 <= r <= 5,
            weights.len() == 2 * r + 1,
            forall|i: int| 0 <= i < weights.len() ==> weights[i] == choose_count(
                (2 * r) as nat,
                i as nat,
            ),
        ensures
            v == self@.blurred(r as int, x as int, y as int, k as int),
            0 <= v <= 255,
    {
        proof {
            lemma_sides(self.width as int, self.height as int);
        }
        let norm: i32 = if r == 1 {
            0x10
        } else if r == 2 {
            0x100
        } else if r == 3 {
            0x1000
        } else if r == 4 {
            0x1_0000
        } else {
            0x10_0000
        };
        let mut acc: i32 = 0;
        let mut j: usize = 0;
        while j < weights.len()
            invariant
                self.indexable(),
                0 <= x < self.width <= 0x2000_0000,
                0 <= y < self.height <= 0x2000_0000,
                k < 3,
                1 <= r <= 5,
                j <= weights.len() == 2 * r + 1,
                forall|i: int| 0 <= i < weights.len() ==> weights[i] == choose_count(
                    (2 * r) as nat,
                    i as nat,
                ),
                acc == self@.blur_sum(r as int, x as int, y as int, k as int, j as nat),
            decreases weights.len() - j,
        {
            let ghost before = acc as int;
            let mut i: usize = 0;
            proof {
                lemma_blur_partial(self@, r as int, x as int, y as int, k as int, j as nat, 0);
            }
            while i < weights.len()
                invariant
                    self.indexable(),
                    0 <= x < self.width <= 0x2000_0000,
                    0 <= y < self.height <= 0x2000_0000,
                    k < 3,
                    1 <= r <= 5,
                    i <= weights.len() == 2 * r + 1,
                    j < weights.len(),
                    forall|i: int| 0 <= i < weights.len() ==> weights[i] == choose_count(
                        (2 * r) as nat,
                        i as nat,
                    ),
                    before == self@.blur_sum(r as int, x as int, y as int, k as int, j as nat),
                    acc == before + self@.blur_row(
                        r as int,
                        x as int,
                        y as int,
                        k as int,
                        j as int,
                        i as nat,
                    ),
                decreases weights.len() - i,
            {
                let wi: i32 = weights[i];
                let wj: i32 = weights[j];
                proof {
                    lemma_blur_partial(
                        self@,
                        r as int,
                        x as int,
                        y as int,
                        k as int,
                        j as nat,
                        i as nat,
                    );
                    lemma_blur_partial(
                        self@,
                        r as int,
                        x as int,
                        y as int,
                        k as int,
                        j as nat,
                        (i + 1) as nat,
                    );
                    lemma_blur_partial(self@, r as int, x as int, y as int, k as int, 0, j as nat);
                    assert(0 <= wi * wj <= 0x10_0000) by (nonlinear_arith)
                        requires
                            0 <= wi <= 1024,
                            0 <= wj <= 1024,
                    ;
                }
                let weight: i32 = wi * wj;
                let p: i32 = self.sample(x + i as i32 - r, y + j as i32 - r, k);
                assert(0 <= p * weight <= 255 * 0x10_0000) by (nonlinear_arith)
                    requires
                        0 <= p <= 255,
                        0 <= weight <= 0x10_0000,
                ;
                acc = acc + p * weight;
                i = i + 1;
            }
            j = j + 1;
        }
        proof {
            assert(self@.channel_within(k as int, 0, 255));
            self@.lemma_blur_window(r as int, x as int, y as int, k as int, 0, 255);
        }
        (acc + norm / 2) / norm
    }
}

/// `v / d` rounded towards zero.
fn divide(v: i32, d: i32) -> (q: i32)
    requires
        0 < d,
    ensures
        q == truncated_div(v as int, d as int),
{
    let wide: i64 = v as i64;
    let by: i64 = d as i64;
    proof {
        let magnitude = abs(v as int);
        lemma_div_is_ordered_by_denominator(magnitude, 1, d as int);
        lemma_div_pos_is_pos(magnitude, d as int);
        lemma_div_basics_2(magnitude);
    }
    if wide >= 0 {
        (wide / by) as i32
    } else {
        (-((-wide) / by)) as i32
    }
}

impl Image {
    /// The three color channels of the filtered pixel at `(x, y)`.
    fn filtered_rgb(
        &self,
        filter: Filter,
        param: u32,
        gain: i32,
        weights: &Vec<i32>,
        r: i32,
        x: i32,
        y: i32,
    ) -> (rgb: (u8, u8, u8))
        requires
            self.indexable(),
            0 <= x < self.width,
            0 <= y < self.height,
            1 <= r <= 5,
            weights.len() == 2 * r + 1,
            forall|i: int| 0 <= i < weights.len() ==> weights[i] == choose_count(
                (2 * r) as nat,
                i as nat,
            ),
            r == blur_radius(param),
            gain == signed_param(param),
            self@.arithmetic_fits(filter, param),
        ensures
            rgb.0 == self@.filtered(filter, param, x as int, y as int, 0),
            rgb.1 == self@.filtered(filter, param, x as int, y as int, 1),
            rgb.2 == self@.filtered(filter, param, x as int, y as int, 2),
    {
        proof {
            lemma_sides(self.width as int, self.height as int);
        }
        let (red, green, blue): (i32, i32, i32) = match filter {
            Filter::Blur => (
                self.blur(weights, r, x, y, 0),
                self.blur(weights, r, x, y, 1),
                self.blur(weights, r, x, y, 2),
            ),
            Filter::Edges => {
                let gx: i32 = -self.luminance(x - 1, y - 1) - 2 * self.luminance(x - 1, y)
                    - self.luminance(x - 1, y + 1) + self.luminance(x + 1, y - 1) + 2
                    * self.luminance(x + 1, y) + self.luminance(x + 1, y + 1);
                let gy: i32 = -self.luminance(x - 1, y - 1) - 2 * self.luminance(x, y - 1)
                    - self.luminance(x + 1, y - 1) + self.luminance(x - 1, y + 1) + 2
                    * self.luminance(x, y + 1) + self.luminance(x + 1, y + 1);
                let gx_abs: i32 = if gx < 0 {
                    -gx
                } else {
                    gx
                };
                let gy_abs: i32 = if gy < 0 {
                    -gy
                } else {
                    gy
                };
                assert(gx == self@.sobel_x(x as int, y as int));
                assert(gy == self@.sobel_y(x as int, y as int));
                let scaled: i32 = divide((gx_abs + gy_abs) * gain, 8);
                let m: i32 = if scaled < 255 {
                    scaled
                } else {
                    255
                };
                (m, m, m)
            },
            Filter::Emboss => {
                let e: i32 = -2 * self.luminance(x - 1, y - 1) - self.luminance(x, y - 1)
                    - self.luminance(x - 1, y) + self.luminance(x + 1, y) + self.luminance(x, y + 1)
                    + 2 * self.luminance(x + 1, y + 1);
                assert(e == self@.relief(x as int, y as int));
                assert(i32::MIN <= self@.sobel_x(x as int, y as int));
                let v: i32 = 128 + divide(e * gain, 2);
                (v, v, v)
            },
            Filter::Identity => (
                self.sample(x, y, 0),
                self.sample(x, y, 1),
                self.sample(x, y, 2),
            ),
        };
        (clamp(red, 0, 255) as u8, clamp(green, 0, 255) as u8, clamp(blue, 0, 255) as u8)
    }
}

/// A prefix of a row of binomials sums to no more than the row does.
proof fn lemma_row_prefix(m: nat, n: nat)
    requires
        n <= m + 1,
    ensures
        row_sum(m, n) <= pow2(m),
    decreases m + 1 - n,
{
    if n == m + 1 {
        lemma_row_sum(m, n);
    } else {
        lemma_row_prefix(m, n + 1);
    }
}

/// The partial sums of a blur stay far below the `i32` limit.
proof fn lemma_blur_partial(image: ImageView, r: int, x: int, y: int, k: int, j: nat, i: nat)
    requires
        1 <= r <= 5,
        j <= 2 * r,
        i <= 2 * r + 1,
    ensures
        0 <= image.blur_sum(r, x, y, k, j) <= 0x1000_0000,
        0 <= image.blur_row(r, x, y, k, j as int, i) <= 0x1000_0000,
        0 <= choose_count((2 * r) as nat, i) <= 1024,
{
    let m = (2 * r) as nat;
    let p = pow2(m);
    assert(image.channel_within(k, 0, 255));
    image.lemma_blur_sum(r, x, y, k, j, 0, 255);
    image.lemma_blur_row(r, x, y, k, j as int, i, 0, 255);
    lemma_row_prefix(m, j);
    lemma_row_prefix(m, i);
    lemma_choose_bound(m, j);
    lemma_choose_bound(m, i);
    lemma2_to64();
    let sj = row_sum(m, j);
    let si = row_sum(m, i);
    let cj = choose_count(m, j);
    assert(255 * (p * sj) <= 0x1000_0000 && 255 * (cj * si) <= 0x1000_0000) by (nonlinear_arith)
        requires
            0 <= p <= 1024,
            0 <= sj <= 1024,
            0 <= si <= 1024,
            0 <= cj <= 1024,
    ;
}

/// The sides of a small enough image are small.
proof fn lemma_sides(w: int, h: int)
    requires
        1 <= w,
        1 <= h,
        w * h <= 0x2000_0000,
    ensures
        w <= 0x2000_0000,
        h <= 0x2000_0000,
{
    assert(w <= w * h && h <= w * h) by (nonlinear_arith)
        requires
            1 <= w,
            1 <= h,
    ;
}

/// A pixel inside the image has its index inside the pixel array.
pub(crate) proof fn lemma_inside(w: int, h: int, x: int, y: int)
    requires
        0 <= x < w,
        0 <= y < h,
    ensures
        0 <= y * w <= y * w + x < w * h,
{
    assert(0 <= y * w && y * w + w <= w * h) by (nonlinear_arith)
        requires
            0 <= x < w,
            0 <= y < h,
    ;
}

/// The coordinates of a pixel recover from its index.
pub(crate) proof fn lemma_coordinates(w: int, x: int, y: int, k: int)
    requires
        0 <= x < w,
        0 <= y,
        0 <= k < 4,
    ensures
        (4 * (y * w + x) + k) % 4 == k,
        (4 * (y * w + x) + k) / 4 % w == x,
        (4 * (y * w + x) + k) / 4 / w == y,
{
    let p = y * w + x;
    lemma_fundamental_div_mod_converse(4 * p + k, 4, p, k);
    lemma_fundamental_div_mod_converse(p, w, y, x);
}

/// Applies the filter on the CPU, in the integer arithmetic of the kernels.
pub fn cpu_reference(input: &Image, filter: Filter, param: u32) -> (output: Image)
    requires
        input.indexable(),
        param <= 0x8_0000 || input@.arithmetic_fits(filter, param),
    ensures
        output@ == input@.filter_image(filter, param),
{
    proof {
        if param <= 0x8_0000 {
            input@.lemma_small_params_fit(filter, param);
        }
        lemma_mul_is_commutative(input@.width, input@.height);
    }
    let gain: i32 = if param <= 0x7fff_ffff {
        param as i32
    } else {
        (param as i64 - 0x1_0000_0000) as i32
    };
    let r: i32 = clamp(gain, 1, 5);
    let mut weights: Vec<i32> = Vec::new();
    let mut k: i32 = 0;
    while k <= 2 * r
        invariant
            1 <= r <= 5,
            0 <= k <= 2 * r + 1,
            weights.len() == k,
            forall|i: int| 0 <= i < weights.len() ==> weights[i] == choose_count(
                (2 * r) as nat,
                i as nat,
            ),
        decreases 2 * r + 1 - k,
    {
        weights.push(binomial(2 * r, k));
        k = k + 1;
    }
    let mut rgba: Vec<u8> = Vec::new();
    let ghost w = input@.width;
    let mut y: u32 = 0;
    while y < input.height
        invariant
            w == input@.width,
            input.indexable(),
            y <= input.height,
            1 <= r <= 5,
            weights.len() == 2 * r + 1,
            forall|i: int| 0 <= i < weights.len() ==> weights[i] == choose_count(
                (2 * r) as nat,
                i as nat,
            ),
            r == blur_radius(param),
            gain == signed_param(param),
            input@.arithmetic_fits(filter, param),
            rgba@.len() == 4 * (y * w),
            forall|i: int|
                0 <= i < rgba@.len() ==> #[trigger] rgba@[i] == input@.filtered_byte(
                    filter,
                    param,
                    i,
                ),
        decreases input.height - y,
    {
        let mut x: u32 = 0;
        while x < input.width
            invariant
                w == input@.width,
                input.indexable(),
                y < input.height,
                x <= input.width,
                1 <= r <= 5,
                weights.len() == 2 * r + 1,
                forall|i: int| 0 <= i < weights.len() ==> weights[i] == choose_count(
                    (2 * r) as nat,
                    i as nat,
                ),
                r == blur_radius(param),
                gain == signed_param(param),
                input@.arithmetic_fits(filter, param),
                rgba@.len() == 4 * (y * w + x),
                forall|i: int|
                    0 <= i < rgba@.len() ==> #[trigger] rgba@[i] == input@.filtered_byte(
                        filter,
                        param,
                        i,
                    ),
            decreases input.width - x,
        {
            proof {
                lemma_sides(input@.width, input@.height);
                lemma_inside(input@.width, input@.height, x as int, y as int);
                lemma_coordinates(w, x as int, y as int, 0);
                lemma_coordinates(w, x as int, y as int, 1);
                lemma_coordinates(w, x as int, y as int, 2);
                lemma_coordinates(w, x as int, y as int, 3);
            }
            let (red, green, blue) = input.filtered_rgb(
                filter,
                param,
                gain,
                &weights,
                r,
                x as i32,
                y as i32,
            );
            let at: usize = rgba.len();
            rgba.push(red);
            rgba.push(green);
            rgba.push(blue);
            rgba.push(input.rgba[at + 3]);
            x = x + 1;
        }
        proof {
            lemma_mul_is_distributive_add_other_way(w, y as int, 1);
        }
        y = y + 1;
    }
    proof {
        lemma_mul_is_commutative(input@.width, input@.height);
    }
    Image { width: input.width, height: input.height, rgba }
}

/// How many of the first `n` pixels differ.
pub open spec fn differing(a: Seq<u8>, b: Seq<u8>, n: nat) -> nat
    decreases n,
{
    if n == 0 {
        0
    } else {
        let i = 4 * (n - 1);
        differing(a, b, (n - 1) as nat) + if a.subrange(i, i + 4) == b.subrange(i, i + 4) {
            0nat
        } else {
            1nat
        }
    }
}

/// The number of whole pixels that two byte sequences both have.
pub open spec fn common_pixels(a: Seq<u8>, b: Seq<u8>) -> nat {
    if a.len() <= b.len() {
        a.len() / 4
    } else {
        b.len() / 4
    }
}

/// Counts the whole pixels, among those that both sides have, that differ.
pub fn count_differing_pixels(a: &[u8], b: &[u8]) -> (count: usize)
    ensures
        count == differing(a@, b@, common_pixels(a@, b@)),
        count <= common_pixels(a@, b@),
{
    let pixels: usize = if a.len() <= b.len() {
        a.len() / 4
    } else {
        b.len() / 4
    };
    let mut count: usize = 0;
    let mut n: usize = 0;
    while n < pixels
        invariant
            n <= pixels,
            4 * pixels <= a@.len(),
            4 * pixels <= b@.len(),
            a@.len() <= usize::MAX,
            count == differing(a@, b@, n as nat),
            count <= n,
        decreases pixels - n,
    {
        let i: usize = 4 * n;
        let same: bool = a[i] == b[i] && a[i + 1] == b[i + 1] && a[i + 2] == b[i + 2] && a[i + 3]
            == b[i + 3];
        proof {
            let p = a@.subrange(i as int, i + 4);
            let q = b@.subrange(i as int, i + 4);
            if same {
                assert(p =~= q);
            } else {
                assert(a@[i as int] == p[0] && a@[i + 1] == p[1] && a@[i + 2] == p[2] && a@[i + 3]
                    == p[3]);
                assert(b@[i as int] == q[0] && b@[i + 1] == q[1] && b@[i + 2] == q[2] && b@[i + 3]
                    == q[3]);
            }
        }
        if !same {
            count = count + 1;
        }
        n = n + 1;
    }
    count
}

/// The byte index splits into coordinates inside the image, and back.
pub(crate) proof fn lemma_byte_coordinates(image: ImageView, i: int)
    requires
        image.wf(),
        0 <= i < image.rgba.len(),
    ensures
        0 <= i / 4 % image.width < image.width,
        0 <= i / 4 / image.width < image.height,
        4 * (i / 4 / image.width * image.width + i / 4 % image.width) + i % 4 == i,
{
    let w = image.width;
    let h = image.height;
    let p = i / 4;
    assert(0 <= p < w * h);
    assert(w > 0) by (nonlinear_arith)
        requires
            0 <= w,
            0 <= p < w * h,
    ;
    lemma_fundamental_div_mod(p, w);
    let x = p % w;
    let y = p / w;
    lemma_mul_is_commutative(w, y);
    assert(0 <= y) by (nonlinear_arith)
        requires
            p == y * w + x,
            0 <= x < w,
            0 <= p,
    ;
    assert(y < h) by (nonlinear_arith)
        requires
            p == y * w + x,
            0 <= x < w,
            p < w * h,
            0 < w,
    ;
}

/// Every filter keeps the size of the image and the alpha of every pixel, and
/// what it makes of a well-formed image is well formed.
pub proof fn law_filters_keep_shape_and_alpha(image: ImageView, filter: Filter, param: u32)
    requires
        image.wf(),
    ensures
        image.filter_image(filter, param).wf(),
        image.filter_image(filter, param).width == image.width,
        image.filter_image(filter, param).height == image.height,
        forall|i: int|
            0 <= i < image.rgba.len() && i % 4 == 3 ==> #[trigger] image.filter_image(
                filter,
                param,
            ).rgba[i] == image.rgba[i],
{
}

/// The identity filter changes nothing.
pub proof fn law_identity_changes_nothing(image: ImageView, param: u32)
    requires
        image.wf(),
    ensures
        image.filter_image(Filter::Identity, param) == image,
{
    let filtered = image.filter_image(Filter::Identity, param);
    assert forall|i: int| 0 <= i < image.rgba.len() implies filtered.rgba[i] == image.rgba[i] by {
        lemma_byte_coordinates(image, i);
    }
    assert(filtered.rgba =~= image.rgba);
}

/// Blurring never leaves the range of a channel: no value is clamped, and
/// none is brighter or darker than what the channel already held.
pub proof fn law_blur_stays_in_range(
    image: ImageView,
    param: u32,
    x: int,
    y: int,
    k: int,
    lo: int,
    hi: int,
)
    requires
        0 <= lo,
        hi <= 255,
        image.channel_within(k, lo, hi),
    ensures
        lo <= image.filtered(Filter::Blur, param, x, y, k) <= hi,
        image.filtered(Filter::Blur, param, x, y, k) == image.blurred(blur_radius(param), x, y, k),
{
    image.lemma_blur_window(blur_radius(param), x, y, k, lo, hi);
}

/// On a channel of one value a blur changes nothing. Where all three are flat,
/// no edge shows and every relief is the middle gray.
pub proof fn law_flat_images(
    image: ImageView,
    param: u32,
    x: int,
    y: int,
    red: int,
    green: int,
    blue: int,
)
    requires
        image.channel_within(0, red, red),
        image.channel_within(1, green, green),
        image.channel_within(2, blue, blue),
    ensures
        image.filtered(Filter::Blur, param, x, y, 0) == red,
        image.filtered(Filter::Blur, param, x, y, 1) == green,
        image.filtered(Filter::Blur, param, x, y, 2) == blue,
        forall|k: int| #[trigger] image.filtered(Filter::Edges, param, x, y, k) == 0,
        forall|k: int| #[trigger] image.filtered(Filter::Emboss, param, x, y, k) == 128,
{
    assert(image.at(0, 0, 0) == red && image.at(0, 0, 1) == green && image.at(0, 0, 2) == blue);
    law_blur_stays_in_range(image, param, x, y, 0, red, red);
    law_blur_stays_in_range(image, param, x, y, 1, green, green);
    law_blur_stays_in_range(image, param, x, y, 2, blue, blue);
    let g = signed_param(param);
    assert(image.sobel_x(x, y) == 0);
    assert(image.sobel_y(x, y) == 0);
    assert(image.relief(x, y) == 0);
    assert(0 * g == 0);
}

/// Equal pixels are never counted, and a difference always is.
pub proof fn law_no_difference_means_equal(a: Seq<u8>, b: Seq<u8>, n: nat)
    requires
        4 * n <= a.len(),
        4 * n <= b.len(),
    ensures
        differing(a, b, n) == 0 <==> a.subrange(0, 4 * n as int) == b.subrange(0, 4 * n as int),
        differing(a, b, n) <= n,
        differing(a, b, n) == differing(b, a, n),
    decreases n,
{
    if n == 0 {
        assert(a.subrange(0, 0) =~= b.subrange(0, 0));
    } else {
        let m = (n - 1) as nat;
        law_no_difference_means_equal(a, b, m);
        let i = 4 * m as int;
        let (a1, b1) = (a.subrange(0, i), b.subrange(0, i));
        let (a2, b2) = (a.subrange(i, i + 4), b.subrange(i, i + 4));
        let (whole_a, whole_b) = (a.subrange(0, i + 4), b.subrange(0, i + 4));
        assert(whole_a =~= a1 + a2);
        assert(whole_b =~= b1 + b2);
        if whole_a == whole_b {
            assert(a1 =~= whole_a.subrange(0, i));
            assert(b1 =~= whole_b.subrange(0, i));
            assert(a2 =~= whole_a.subrange(i, i + 4));
            assert(b2 =~= whole_b.subrange(i, i + 4));
        }
    }
}

} // verus!
