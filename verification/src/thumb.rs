//! Thumbnails read back from the provider, and what they show.

use vstd::prelude::*;
use crate::numbers::{dec, decimal};
use crate::text::{five, three};

verus! {

/// How the provider declares a bitmap with a real alpha channel.
pub const ALPHA_ARGB: i32 = 2;

/// A thumbnail read back out of the bitmap that the provider returned.
pub struct Thumb {
    pub width: u32,
    pub height: u32,
    /// BGRA, top-down, `width * height * 4` bytes.
    pub pixels: Vec<u8>,
    /// The alpha type that the provider declared.
    pub alpha: i32,
}

#[derive(Debug, Clone, Copy, PartialEq, Eq, Structural)]
pub enum Rendering {
    /// Genuine artwork.
    Real,
    /// The provider's red-X "broken file" SVG.
    RedXFallback,
    /// The provider's last-resort solid black bitmap.
    BlackSquareFallback,
    /// Rendered, but nothing is visible.
    Transparent,
    Empty,
}

impl Rendering {
    pub open spec fn fallback(self) -> bool {
        self == Rendering::RedXFallback || self == Rendering::BlackSquareFallback
    }

    pub fn is_fallback(self) -> (r: bool)
        ensures
            r == self.fallback(),
    {
        match self {
            Rendering::RedXFallback | Rendering::BlackSquareFallback => true,
            _ => false,
        }
    }

    pub open spec fn word(self) -> Seq<char> {
        match self {
            Rendering::Real => "Real"@,
            Rendering::RedXFallback => "RedXFallback"@,
            Rendering::BlackSquareFallback => "BlackSquareFallback"@,
            Rendering::Transparent => "Transparent"@,
            Rendering::Empty => "Empty"@,
        }
    }

    /// The name of the rendering.
    pub fn text(self) -> (s: &'static str)
        ensures
            s@ == self.word(),
    {
        match self {
            Rendering::Real => "Real",
            Rendering::RedXFallback => "RedXFallback",
            Rendering::BlackSquareFallback => "BlackSquareFallback",
            Rendering::Transparent => "Transparent",
            Rendering::Empty => "Empty",
        }
    }
}

/// One pixel.
#[derive(Debug, Clone, Copy, PartialEq, Eq, Structural)]
pub struct Bgra {
    pub b: u8,
    pub g: u8,
    pub r: u8,
    pub a: u8,
}

/// The `i`-th whole pixel of a buffer.
pub open spec fn pixel_at(pixels: Seq<u8>, i: int) -> Bgra {
    Bgra {
        b: pixels[4 * i],
        g: pixels[4 * i + 1],
        r: pixels[4 * i + 2],
        a: pixels[4 * i + 3],
    }
}

/// How many whole pixels a buffer holds.
pub open spec fn pixel_count(pixels: Seq<u8>) -> nat {
    pixels.len() / 4
}

/// Every whole pixel satisfies `f`.
pub open spec fn all_pixels(pixels: Seq<u8>, f: spec_fn(Bgra) -> bool) -> bool {
    forall|i: int| 0 <= i < pixel_count(pixels) ==> f(#[trigger] pixel_at(pixels, i))
}

/// How many of the first `n` pixels satisfy `f`.
pub open spec fn tally(pixels: Seq<u8>, n: nat, f: spec_fn(Bgra) -> bool) -> nat
    decreases n,
{
    if n == 0 {
        0
    } else {
        tally(pixels, (n - 1) as nat, f) + if f(pixel_at(pixels, n - 1)) {
            1nat
        } else {
            0nat
        }
    }
}

pub open spec fn clear(p: Bgra) -> bool {
    p.a == 0
}

pub open spec fn covered(p: Bgra) -> bool {
    p.a > 0
}

pub open spec fn solid_black(p: Bgra) -> bool {
    p.b == 0 && p.g == 0 && p.r == 0 && p.a == 0xFF
}

pub open spec fn visible(p: Bgra) -> bool {
    p.a > 16
}

/// Visible, with much red and little green and blue.
pub open spec fn strongly_red(p: Bgra) -> bool {
    visible(p) && p.r > 150 && p.g < 90 && p.b < 90
}

impl Thumb {
    /// How many pixels have any opacity at all.
    pub open spec fn covered_pixels(&self) -> nat {
        tally(self.pixels@, pixel_count(self.pixels@), |p: Bgra| covered(p))
    }

    pub open spec fn visible_pixels(&self) -> nat {
        tally(self.pixels@, pixel_count(self.pixels@), |p: Bgra| visible(p))
    }

    pub open spec fn red_pixels(&self) -> nat {
        tally(self.pixels@, pixel_count(self.pixels@), |p: Bgra| strongly_red(p))
    }

    /// The area that coverage is measured against.
    pub open spec fn area(&self) -> nat {
        self.width as nat * self.height as nat
    }

    /// The fraction of the area that is covered lies below `num / den`. An image
    /// without area counts as not covered at all.
    pub open spec fn covered_below(&self, num: nat, den: nat) -> bool {
        self.area() == 0 && num > 0 || self.covered_pixels() * den < num * self.area()
    }

    /// The fraction of the area that is covered lies above `num / den`.
    pub open spec fn covered_above(&self, num: nat, den: nat) -> bool {
        self.area() != 0 && self.covered_pixels() * den > num * self.area()
    }

    pub open spec fn transparent(&self) -> bool {
        all_pixels(self.pixels@, |p: Bgra| clear(p))
    }

    pub open spec fn uniform(&self) -> bool {
        all_pixels(self.pixels@, |p: Bgra| p == pixel_at(self.pixels@, 0))
    }

    /// What the provider produced. The two fallback shapes are a solid black
    /// square, and a thin pair of red diagonals on a transparent ground.
    pub open spec fn classified(&self) -> Rendering {
        if self.pixels@.len() == 0 {
            Rendering::Empty
        } else if all_pixels(self.pixels@, |p: Bgra| solid_black(p)) {
            Rendering::BlackSquareFallback
        } else if self.transparent() {
            Rendering::Transparent
        } else if self.visible_pixels() > 0 && self.red_pixels() * 100 >= self.visible_pixels() * 95
            && self.covered_below(1, 4) {
            Rendering::RedXFallback
        } else {
            Rendering::Real
        }
    }

    /// Whether a pixel position can be read.
    pub open spec fn holds(&self, x: u32, y: u32) -> bool {
        &&& (y * self.width + x) * 4 + 3 < self.pixels@.len()
        &&& (y * self.width + x) * 4 <= u32::MAX
    }

    /// The pixel in column `x` of row `y`.
    pub open spec fn at(&self, x: u32, y: u32) -> Bgra {
        pixel_at(self.pixels@, y * self.width + x)
    }

    /// The bytes of the pixel in column `x` of row `y`, in the order BGRA.
    pub fn pixel(&self, x: u32, y: u32) -> (p: [u8; 4])
        requires
            self.holds(x, y),
        ensures
            p[0] == self.at(x, y).b,
            p[1] == self.at(x, y).g,
            p[2] == self.at(x, y).r,
            p[3] == self.at(x, y).a,
    {
        proof {
            assert(0 <= y * self.width) by (nonlinear_arith);
        }
        let row: u32 = y * self.width;
        let i: usize = ((row + x) * 4) as usize;
        [self.pixels[i], self.pixels[i + 1], self.pixels[i + 2], self.pixels[i + 3]]
    }

    /// Whether a pixel position can be read.
    pub fn has_pixel(&self, x: u32, y: u32) -> (r: bool)
        ensures
            r == self.holds(x, y),
    {
        proof {
            assert(0 <= y * self.width <= 0xFFFF_FFFF * 0xFFFF_FFFF) by (nonlinear_arith)
                requires
                    y <= 0xFFFF_FFFF,
                    self.width <= 0xFFFF_FFFF,
            ;
        }
        let start: u128 = (y as u128 * self.width as u128 + x as u128) * 4;
        start + 3 < self.pixels.len() as u128 && start <= u32::MAX as u128
    }

    fn nth(&self, i: usize) -> (p: Bgra)
        requires
            i < pixel_count(self.pixels@),
        ensures
            p == pixel_at(self.pixels@, i as int),
    {
        let held: usize = self.pixels.len();
        assert(4 * i + 3 < held);
        Bgra {
            b: self.pixels[4 * i],
            g: self.pixels[4 * i + 1],
            r: self.pixels[4 * i + 2],
            a: self.pixels[4 * i + 3],
        }
    }

    pub fn is_fully_transparent(&self) -> (r: bool)
        ensures
            r == self.transparent(),
    {
        let n: usize = self.pixels.len() / 4;
        let mut i: usize = 0;
        while i < n
            invariant
                i <= n,
                n == pixel_count(self.pixels@),
                forall|j: int| 0 <= j < i ==> clear(#[trigger] pixel_at(self.pixels@, j)),
            decreases n - i,
        {
            if self.nth(i).a != 0 {
                return false;
            }
            i += 1;
        }
        true
    }

    pub fn is_uniform(&self) -> (r: bool)
        ensures
            r == self.uniform(),
    {
        let n: usize = self.pixels.len() / 4;
        if n == 0 {
            return true;
        }
        let first: Bgra = self.nth(0);
        let mut i: usize = 0;
        while i < n
            invariant
                i <= n,
                n == pixel_count(self.pixels@),
                first == pixel_at(self.pixels@, 0),
                forall|j: int| 0 <= j < i ==> #[trigger] pixel_at(self.pixels@, j) == first,
            decreases n - i,
        {
            if self.nth(i) != first {
                return false;
            }
            i += 1;
        }
        true
    }

    fn is_black_square(&self) -> (r: bool)
        ensures
            r == all_pixels(self.pixels@, |p: Bgra| solid_black(p)),
    {
        let n: usize = self.pixels.len() / 4;
        let mut i: usize = 0;
        while i < n
            invariant
                i <= n,
                n == pixel_count(self.pixels@),
                forall|j: int| 0 <= j < i ==> solid_black(#[trigger] pixel_at(self.pixels@, j)),
            decreases n - i,
        {
            let p: Bgra = self.nth(i);
            if p.b != 0 || p.g != 0 || p.r != 0 || p.a != 0xFF {
                return false;
            }
            i += 1;
        }
        true
    }

    /// How many pixels have any opacity at all. Coverage is this number over the
    /// area.
    pub fn covered_count(&self) -> (c: usize)
        ensures
            c == self.covered_pixels(),
    {
        let n: usize = self.pixels.len() / 4;
        let mut c: usize = 0;
        let mut i: usize = 0;
        while i < n
            invariant
                i <= n,
                n == pixel_count(self.pixels@),
                c <= i,
                c == tally(self.pixels@, i as nat, |p: Bgra| covered(p)),
            decreases n - i,
        {
            if self.nth(i).a > 0 {
                c += 1;
            }
            i += 1;
        }
        c
    }

    /// The fraction of the area that is covered lies below `num / den`.
    pub fn coverage_below(&self, num: u32, den: u32) -> (r: bool)
        ensures
            r == self.covered_below(num as nat, den as nat),
    {
        let area: u128 = self.wide_area();
        let c: u128 = self.covered_count() as u128;
        proof {
            lemma_products(c as nat, den as nat, num as nat, area as nat);
        }
        (area == 0 && num > 0) || c * (den as u128) < num as u128 * area
    }

    /// The fraction of the area that is covered lies above `num / den`.
    pub fn coverage_above(&self, num: u32, den: u32) -> (r: bool)
        ensures
            r == self.covered_above(num as nat, den as nat),
    {
        let area: u128 = self.wide_area();
        let c: u128 = self.covered_count() as u128;
        proof {
            lemma_products(c as nat, den as nat, num as nat, area as nat);
        }
        area != 0 && c * (den as u128) > num as u128 * area
    }

    fn wide_area(&self) -> (a: u128)
        ensures
            a == self.area(),
            a <= 0xFFFF_FFFE_0000_0001,
    {
        proof {
            assert(0 <= self.width * self.height <= 0xFFFF_FFFF * 0xFFFF_FFFF) by (nonlinear_arith)
                requires
                    self.width <= 0xFFFF_FFFF,
                    self.height <= 0xFFFF_FFFF,
            ;
        }
        self.width as u128 * self.height as u128
    }

    /// Classifies what the provider actually produced.
    ///
    /// The provider silently substitutes a fallback thumbnail when rendering
    /// fails, so a suite that only checked for success would pass even if every
    /// single render had failed. Detecting the two fallback shapes is what makes
    /// "valid fixtures must never fall back" enforceable.
    pub fn classify(&self) -> (r: Rendering)
        ensures
            r == self.classified(),
    {
        if self.pixels.len() == 0 {
            return Rendering::Empty;
        }
        if self.is_black_square() {
            return Rendering::BlackSquareFallback;
        }
        if self.is_fully_transparent() {
            return Rendering::Transparent;
        }
        let n: usize = self.pixels.len() / 4;
        let mut seen: usize = 0;
        let mut red: usize = 0;
        let mut i: usize = 0;
        while i < n
            invariant
                i <= n,
                n == pixel_count(self.pixels@),
                seen <= i,
                red <= i,
                seen == tally(self.pixels@, i as nat, |p: Bgra| visible(p)),
                red == tally(self.pixels@, i as nat, |p: Bgra| strongly_red(p)),
            decreases n - i,
        {
            let p: Bgra = self.nth(i);
            if p.a > 16 {
                seen += 1;
                if p.r > 150 && p.g < 90 && p.b < 90 {
                    red += 1;
                }
            }
            i += 1;
        }
        if seen > 0 && red as u128 * 100 >= seen as u128 * 95 && self.coverage_below(1, 4) {
            return Rendering::RedXFallback;
        }
        Rendering::Real
    }
}

proof fn lemma_products(c: nat, den: nat, num: nat, area: nat)
    requires
        c <= usize::MAX,
        den <= u32::MAX,
        num <= u32::MAX,
        area <= 0xFFFF_FFFE_0000_0001,
    ensures
        c * den <= u128::MAX,
        num * area <= u128::MAX,
{
    assert(c * den <= 0xFFFF_FFFF_FFFF_FFFF * 0xFFFF_FFFF) by (nonlinear_arith)
        requires
            c <= 0xFFFF_FFFF_FFFF_FFFF,
            den <= 0xFFFF_FFFF,
    ;
    assert(num * area <= 0xFFFF_FFFF * 0xFFFF_FFFE_0000_0001) by (nonlinear_arith)
        requires
            num <= 0xFFFF_FFFF,
            area <= 0xFFFF_FFFE_0000_0001,
    ;
}

/// Whether two thumbnails hold the same bytes.
pub fn same_pixels(a: &Thumb, b: &Thumb) -> (r: bool)
    ensures
        r == (a.pixels@ == b.pixels@),
{
    if a.pixels.len() != b.pixels.len() {
        return false;
    }
    let mut i: usize = 0;
    while i < a.pixels.len()
        invariant
            i <= a.pixels@.len(),
            a.pixels@.len() == b.pixels@.len(),
            forall|k: int| 0 <= k < i ==> a.pixels@[k] == b.pixels@[k],
        decreases a.pixels@.len() - i,
    {
        if a.pixels[i] != b.pixels[i] {
            return false;
        }
        i += 1;
    }
    assert(a.pixels@ =~= b.pixels@);
    true
}

/// True when the provider declared the bitmap as having a real alpha channel,
/// which is the only correct answer for a thumbnail with one.
pub fn declares_argb(t: &Thumb) -> (r: bool)
    ensures
        r == (t.alpha == ALPHA_ARGB),
{
    t.alpha == ALPHA_ARGB
}

// ---------------------------------------------------------------
//                      Reading a bitmap back
// ---------------------------------------------------------------

/// What the system says about a bitmap.
pub struct BitmapInfo {
    /// The description could be obtained at all.
    pub described: bool,
    /// The bits are accessible.
    pub has_bits: bool,
    pub bits_per_pixel: u16,
    pub width: i32,
    /// Negative for a bitmap that is stored top-down.
    pub height: i32,
    /// Bytes from one row to the next.
    pub stride: usize,
}

/// Why a bitmap cannot be read back.
#[derive(Debug, Clone, Copy, PartialEq, Eq, Structural)]
pub enum BitmapError {
    NotDescribed,
    NoBits,
    WrongDepth { bits_per_pixel: u16 },
    Implausible { width: u32, height: u32, stride: usize },
}

/// How to copy a bitmap.
#[derive(Debug, Clone, Copy, PartialEq, Eq, Structural)]
pub struct CopyPlan {
    pub width: u32,
    pub height: u32,
    pub stride: usize,
    pub top_down: bool,
}

/// `i` without its sign.
pub open spec fn unsigned(i: i32) -> u32 {
    if i < 0 {
        (-i) as u32
    } else {
        i as u32
    }
}

fn unsigned_abs(i: i32) -> (r: u32)
    ensures
        r == unsigned(i),
{
    if i < 0 {
        (-(i as i64)) as u32
    } else {
        i as u32
    }
}

impl BitmapInfo {
    /// How to copy this bitmap, or the first thing that is wrong with it.
    pub open spec fn planned(&self) -> Result<CopyPlan, BitmapError> {
        let width = unsigned(self.width);
        let height = unsigned(self.height);
        if !self.described {
            Err(BitmapError::NotDescribed)
        } else if !self.has_bits {
            Err(BitmapError::NoBits)
        } else if self.bits_per_pixel != 32 {
            Err(BitmapError::WrongDepth { bits_per_pixel: self.bits_per_pixel })
        } else if width == 0 || height == 0 || self.stride < width * 4 {
            Err(BitmapError::Implausible { width, height, stride: self.stride })
        } else {
            Ok(CopyPlan { width, height, stride: self.stride, top_down: self.height < 0 })
        }
    }

    pub fn plan(&self) -> (r: Result<CopyPlan, BitmapError>)
        ensures
            r == self.planned(),
    {
        if !self.described {
            return Err(BitmapError::NotDescribed);
        }
        if !self.has_bits {
            return Err(BitmapError::NoBits);
        }
        if self.bits_per_pixel != 32 {
            return Err(BitmapError::WrongDepth { bits_per_pixel: self.bits_per_pixel });
        }
        let width: u32 = unsigned_abs(self.width);
        let height: u32 = unsigned_abs(self.height);
        if width == 0 || height == 0 || (self.stride as u64) < width as u64 * 4 {
            return Err(BitmapError::Implausible { width, height, stride: self.stride });
        }
        Ok(CopyPlan { width, height, stride: self.stride, top_down: self.height < 0 })
    }
}

impl BitmapError {
    pub open spec fn message_text(self) -> Seq<char> {
        match self {
            BitmapError::NotDescribed => "GetObjectW failed on the returned HBITMAP"@,
            BitmapError::NoBits => "returned HBITMAP is not a DIB section (no accessible bits)"@,
            BitmapError::WrongDepth { bits_per_pixel } => "expected a 32bpp bitmap, got "@ + dec(
                bits_per_pixel as nat,
            ) + "bpp"@,
            BitmapError::Implausible { width, height, stride } => "implausible bitmap geometry "@
                + dec(width as nat) + "x"@ + dec(height as nat) + " stride "@ + dec(stride as nat),
        }
    }

    pub fn message(self) -> (s: String)
        ensures
            s@ == self.message_text(),
    {
        match self {
            BitmapError::NotDescribed => "GetObjectW failed on the returned HBITMAP".to_owned(),
            BitmapError::NoBits => {
                "returned HBITMAP is not a DIB section (no accessible bits)".to_owned()
            },
            BitmapError::WrongDepth { bits_per_pixel } => three(
                "expected a 32bpp bitmap, got ",
                decimal(bits_per_pixel as u64).as_str(),
                "bpp",
            ),
            BitmapError::Implausible { width, height, stride } => {
                let mut s: String = five(
                    "implausible bitmap geometry ",
                    decimal(width as u64).as_str(),
                    "x",
                    decimal(height as u64).as_str(),
                    " stride ",
                );
                s.append(decimal(stride as u64).as_str());
                s
            },
        }
    }
}

impl CopyPlan {
    /// The rows do not overlap, and sizes and offsets fit into a `usize`.
    pub open spec fn wf(self) -> bool {
        &&& self.width > 0
        &&& self.height > 0
        &&& self.width * 4 <= self.stride
        &&& self.stride * self.height <= usize::MAX
    }

    /// How many bytes of the bitmap are read.
    pub open spec fn extent(self) -> int {
        self.stride * (self.height - 1) + self.width * 4
    }

    /// Where row `y` of the thumbnail is stored.
    pub open spec fn source_row(self, y: int) -> int {
        if self.top_down {
            y
        } else {
            self.height - 1 - y
        }
    }

    /// The bytes of the row that is stored in place `k`.
    pub open spec fn stored(self, raw: Seq<u8>, k: int) -> Seq<u8> {
        raw.subrange(k * self.stride, k * self.stride + self.width * 4)
    }

    /// The bytes of row `y` of the thumbnail.
    pub open spec fn row(self, raw: Seq<u8>, y: int) -> Seq<u8> {
        self.stored(raw, self.source_row(y))
    }

    /// The first `n` rows of the thumbnail.
    pub open spec fn rows(self, raw: Seq<u8>, n: nat) -> Seq<u8>
        decreases n,
    {
        if n == 0 {
            Seq::empty()
        } else {
            self.rows(raw, (n - 1) as nat) + self.row(raw, n - 1)
        }
    }

    /// Whether the bitmap can be copied on this machine.
    pub fn fits(&self) -> (r: bool)
        ensures
            r == self.wf(),
    {
        proof {
            assert(0 <= self.stride * self.height <= 0xFFFF_FFFF_FFFF_FFFF * 0xFFFF_FFFF)
                by (nonlinear_arith)
                requires
                    self.stride <= 0xFFFF_FFFF_FFFF_FFFF,
                    self.height <= 0xFFFF_FFFF,
            ;
        }
        self.width > 0 && self.height > 0 && self.width as u64 * 4 <= self.stride as u64
            && self.stride as u128 * self.height as u128 <= usize::MAX as u128
    }

    /// Builds the thumbnail from the bytes of the bitmap, starting at its first
    /// stored row. The rows come out top-down either way.
    pub fn assemble(&self, raw: &[u8], alpha: i32) -> (t: Thumb)
        requires
            self.wf(),
            raw@.len() >= self.extent(),
        ensures
            t.width == self.width,
            t.height == self.height,
            t.alpha == alpha,
            t.pixels@ == self.rows(raw@, self.height as nat),
            t.pixels@.len() == self.width * self.height * 4,
    {
        let row_bytes: usize = self.width as usize * 4;
        let height: usize = self.height as usize;
        let mut pixels: Vec<u8> = Vec::new();
        let mut y: usize = 0;
        proof {
            assert(row_bytes * 0 == 0) by (nonlinear_arith);
        }
        while y < height
            invariant
                self.wf(),
                raw@.len() >= self.extent(),
                row_bytes == self.width * 4,
                height == self.height,
                y <= height,
                pixels@ == self.rows(raw@, y as nat),
                pixels@.len() == row_bytes * y,
            decreases height - y,
        {
            let source: usize = if self.top_down {
                y
            } else {
                height - 1 - y
            };
            proof {
                let s = self.stride as int;
                let h = self.height as int;
                let k = source as int;
                assert(0 <= s * k && s * k + s <= s * h && s * k <= s * (h - 1)) by (nonlinear_arith)
                    requires
                        0 <= k < h,
                        s >= 0,
                ;
                assert(row_bytes * (y + 1) == row_bytes * y + row_bytes) by (nonlinear_arith);
            }
            let start: usize = self.stride * source;
            assert(source * self.stride == self.stride * source) by (nonlinear_arith);
            pixels.extend_from_slice(
                vstd::slice::slice_subrange(raw, start, start + row_bytes),
            );
            assert(pixels@ =~= self.rows(raw@, y as nat) + self.row(raw@, y as int));
            y += 1;
        }
        proof {
            let w = self.width as int;
            let h = self.height as int;
            assert((w * 4) * h == w * h * 4) by (nonlinear_arith);
        }
        Thumb { width: self.width, height: self.height, pixels, alpha }
    }
}

/// A bitmap comes out the same whichever way round its rows are stored.
pub proof fn orientation_does_not_matter(
    plan: CopyPlan,
    top_down: Seq<u8>,
    bottom_up: Seq<u8>,
    n: nat,
)
    requires
        n <= plan.height,
        forall|y: int|
            0 <= y < plan.height ==> #[trigger] plan.stored(top_down, y) == plan.stored(
                bottom_up,
                plan.height - 1 - y,
            ),
    ensures
        (CopyPlan { top_down: true, ..plan }).rows(top_down, n) == (CopyPlan {
            top_down: false,
            ..plan
        }).rows(bottom_up, n),
    decreases n,
{
    if n > 0 {
        orientation_does_not_matter(plan, top_down, bottom_up, (n - 1) as nat);
        let y = n - 1;
        assert(plan.stored(top_down, y) == plan.stored(bottom_up, plan.height - 1 - y));
        assert((CopyPlan { top_down: true, ..plan }).row(top_down, y) == plan.stored(top_down, y));
        assert((CopyPlan { top_down: false, ..plan }).row(bottom_up, y) == plan.stored(
            bottom_up,
            plan.height - 1 - y,
        ));
    }
}

/// A thumbnail that counts as artwork shows something and is neither of the two
/// fallbacks.
pub proof fn artwork_shows_something(t: Thumb)
    requires
        t.classified() == Rendering::Real,
    ensures
        t.pixels@.len() > 0,
        exists|i: int|
            0 <= i < pixel_count(t.pixels@) && covered(#[trigger] pixel_at(t.pixels@, i)),
        exists|i: int|
            0 <= i < pixel_count(t.pixels@) && !solid_black(#[trigger] pixel_at(t.pixels@, i)),
{
}

// ---------------------------------------------------------------
//                     What the pixels must be
// ---------------------------------------------------------------

proof fn lemma_tally_bounds(pixels: Seq<u8>, n: nat, f: spec_fn(Bgra) -> bool)
    ensures
        tally(pixels, n, f) <= n,
        tally(pixels, n, f) == 0 <==> forall|i: int| 0 <= i < n ==> !f(#[trigger] pixel_at(pixels, i)),
        tally(pixels, n, f) == n <==> forall|i: int| 0 <= i < n ==> f(#[trigger] pixel_at(pixels, i)),
    decreases n,
{
    if n > 0 {
        lemma_tally_bounds(pixels, (n - 1) as nat, f);
    }
}

/// The places of the whole pixels whose bytes satisfy a condition.
pub open spec fn places(pixels: Seq<u8>, n: nat, f: spec_fn(u8, u8, u8, u8) -> bool) -> Set<int> {
    Set::new(
        |i: int|
            0 <= i < n && f(pixels[4 * i], pixels[4 * i + 1], pixels[4 * i + 2], pixels[4 * i + 3]),
    )
}

proof fn lemma_tally_counts(
    pixels: Seq<u8>,
    n: nat,
    f: spec_fn(Bgra) -> bool,
    g: spec_fn(u8, u8, u8, u8) -> bool,
)
    requires
        forall|p: Bgra| #[trigger] f(p) == g(p.b, p.g, p.r, p.a),
    ensures
        places(pixels, n, g).finite(),
        tally(pixels, n, f) == places(pixels, n, g).len(),
    decreases n,
{
    if n == 0 {
        assert(places(pixels, n, g) =~= Set::empty());
    } else {
        let m = (n - 1) as nat;
        lemma_tally_counts(pixels, m, f, g);
        let p = pixel_at(pixels, m as int);
        assert(f(p) == g(p.b, p.g, p.r, p.a));
        if f(p) {
            assert(places(pixels, n, g) =~= places(pixels, m, g).insert(m as int));
        } else {
            assert(places(pixels, n, g) =~= places(pixels, m, g));
        }
    }
}

/// An image counts as showing nothing exactly when it has bytes and none of its whole
/// pixels has any alpha, and then it is no solid black square either: one pixel with
/// any alpha, wherever it is, is enough for it to show something.
pub proof fn transparent_exactly_when_no_pixel_has_alpha(t: Thumb)
    ensures
        t.classified() == Rendering::Transparent ==> forall|i: int|
            0 <= i && 4 * i + 3 < t.pixels@.len() ==> #[trigger] t.pixels@[4 * i + 3] == 0,
        (t.pixels@.len() >= 4 && forall|i: int|
            0 <= i && 4 * i + 3 < t.pixels@.len() ==> #[trigger] t.pixels@[4 * i + 3] == 0)
            ==> t.classified() == Rendering::Transparent,
        t.transparent() <==> forall|i: int|
            0 <= i && 4 * i + 3 < t.pixels@.len() ==> #[trigger] t.pixels@[4 * i + 3] == 0,
{
    let px = t.pixels@;
    assert forall|i: int| t.transparent() && 0 <= i && 4 * i + 3 < px.len() implies #[trigger] px[4
        * i + 3] == 0 by {
        assert(clear(pixel_at(px, i)));
    }
    if forall|i: int| 0 <= i && 4 * i + 3 < px.len() ==> #[trigger] px[4 * i + 3] == 0 {
        assert forall|i: int| 0 <= i < pixel_count(px) implies clear(#[trigger] pixel_at(px, i)) by {
            assert(px[4 * i + 3] == 0);
        }
        assert(t.transparent());
        if px.len() >= 4 {
            assert(px[4 * 0int + 3] == 0);
            assert(!solid_black(pixel_at(px, 0)));
        }
    }
}

/// The bytes of every whole pixel satisfy a condition.
pub open spec fn every_pixel(pixels: Seq<u8>, f: spec_fn(u8, u8, u8, u8) -> bool) -> bool {
    forall|i: int|
        0 <= i && 4 * i + 3 < pixels.len() ==> f(
            pixels[4 * i],
            pixels[4 * i + 1],
            pixels[4 * i + 2],
            #[trigger] pixels[4 * i + 3],
        )
}

/// An image counts as the last-resort square exactly when it has bytes and every whole
/// pixel is black and fully opaque.
pub proof fn black_square_exactly_when_all_is_opaque_black(t: Thumb)
    ensures
        t.classified() == Rendering::BlackSquareFallback <==> t.pixels@.len() > 0 && every_pixel(
            t.pixels@,
            |b: u8, g: u8, r: u8, a: u8| b == 0 && g == 0 && r == 0 && a == 255,
        ),
{
    let px = t.pixels@;
    let f = |b: u8, g: u8, r: u8, a: u8| b == 0 && g == 0 && r == 0 && a == 255;
    if t.classified() == Rendering::BlackSquareFallback {
        assert forall|i: int| 0 <= i && 4 * i + 3 < px.len() implies f(
            px[4 * i],
            px[4 * i + 1],
            px[4 * i + 2],
            #[trigger] px[4 * i + 3],
        ) by {
            assert(solid_black(pixel_at(px, i)));
        }
    }
    if px.len() > 0 && every_pixel(px, f) {
        assert forall|i: int| 0 <= i < pixel_count(px) implies solid_black(
            #[trigger] pixel_at(px, i),
        ) by {
            assert(f(px[4 * i], px[4 * i + 1], px[4 * i + 2], px[4 * i + 3]));
        }
        assert(all_pixels(px, |p: Bgra| solid_black(p)));
    }
}

/// An image counts as empty exactly when it has no bytes.
pub proof fn empty_exactly_without_bytes(t: Thumb)
    ensures
        t.classified() == Rendering::Empty <==> t.pixels@.len() == 0,
{
}

/// An image counts as the red placeholder exactly when it is neither of the shapes
/// above, some pixel is visible, at least 95 in 100 of the visible ones are strongly
/// red, and fewer than a quarter of its area has any alpha. Pixels are counted as places
/// in the buffer.
pub proof fn red_x_exactly_when_sparse_and_red(t: Thumb)
    ensures
        ({
            let n = t.pixels@.len() / 4;
            let seen = places(t.pixels@, n, |b: u8, g: u8, r: u8, a: u8| a > 16);
            let red = places(
                t.pixels@,
                n,
                |b: u8, g: u8, r: u8, a: u8| a > 16 && r > 150 && g < 90 && b < 90,
            );
            let any = places(t.pixels@, n, |b: u8, g: u8, r: u8, a: u8| a > 0);
            t.classified() == Rendering::RedXFallback <==> {
                &&& t.pixels@.len() > 0
                &&& t.classified() != Rendering::BlackSquareFallback
                &&& any.len() > 0
                &&& seen.len() > 0
                &&& red.len() * 100 >= seen.len() * 95
                &&& any.len() * 4 < t.width * t.height || t.width * t.height == 0
            }
        }),
{
    let px = t.pixels@;
    let n = px.len() / 4;
    lemma_tally_counts(px, n, |p: Bgra| visible(p), |b: u8, g: u8, r: u8, a: u8| a > 16);
    lemma_tally_counts(
        px,
        n,
        |p: Bgra| strongly_red(p),
        |b: u8, g: u8, r: u8, a: u8| a > 16 && r > 150 && g < 90 && b < 90,
    );
    lemma_tally_counts(px, n, |p: Bgra| covered(p), |b: u8, g: u8, r: u8, a: u8| a > 0);
    lemma_tally_bounds(px, n, |p: Bgra| covered(p));
    if t.transparent() {
        assert forall|i: int| 0 <= i < n implies !covered(#[trigger] pixel_at(px, i)) by {
            assert(clear(pixel_at(px, i)));
        }
        assert(t.covered_pixels() == 0);
    } else {
        assert(t.covered_pixels() > 0);
    }
}

/// Only the two shapes that the provider draws on its own count as fallbacks.
pub proof fn fallbacks_are_the_two_shapes(r: Rendering)
    ensures
        r.fallback() <==> r == Rendering::RedXFallback || r == Rendering::BlackSquareFallback,
        !Rendering::Real.fallback(),
{
}

/// What anything else is: artwork. An image with one clearly visible pixel that is
/// neither black nor red is never taken for a fallback where such pixels are more than
/// one in twenty, and never for an empty one.
pub proof fn colourful_images_are_real(t: Thumb, i: int)
    requires
        0 <= i,
        4 * i + 3 < t.pixels@.len(),
        t.pixels@[4 * i + 3] > 16,
        t.pixels@[4 * i] >= 90 || t.pixels@[4 * i + 1] >= 90,
        t.visible_pixels() < 20,
    ensures
        t.classified() == Rendering::Real,
{
    let px = t.pixels@;
    let n = pixel_count(px);
    assert(!clear(pixel_at(px, i)));
    assert(!solid_black(pixel_at(px, i)));
    lemma_tally_gap(px, n, i);
}

proof fn lemma_tally_gap(px: Seq<u8>, n: nat, i: int)
    requires
        0 <= i < n,
        visible(pixel_at(px, i)),
        !strongly_red(pixel_at(px, i)),
    ensures
        tally(px, n, |p: Bgra| strongly_red(p)) + 1 <= tally(px, n, |p: Bgra| visible(p)),
    decreases n,
{
    let m = (n - 1) as nat;
    if i < m {
        lemma_tally_gap(px, m, i);
    } else {
        lemma_tally_monotone(px, m);
    }
}

proof fn lemma_tally_monotone(px: Seq<u8>, n: nat)
    ensures
        tally(px, n, |p: Bgra| strongly_red(p)) <= tally(px, n, |p: Bgra| visible(p)),
    decreases n,
{
    if n > 0 {
        lemma_tally_monotone(px, (n - 1) as nat);
    }
}

/// Coverage is the number of pixels with any alpha, as places in the buffer, over width
/// times height: the two comparisons are the two sides of one fraction, and both are
/// strict.
pub proof fn coverage_is_a_fraction_of_the_area(t: Thumb, num: nat, den: nat)
    ensures
        ({
            let any = places(
                t.pixels@,
                t.pixels@.len() / 4,
                |b: u8, g: u8, r: u8, a: u8| a > 0,
            );
            let area = t.width as nat * t.height as nat;
            &&& t.covered_pixels() == any.len()
            &&& area > 0 ==> (t.covered_below(num, den) <==> any.len() * den < num * area)
            &&& area > 0 ==> (t.covered_above(num, den) <==> any.len() * den > num * area)
            &&& area == 0 ==> !t.covered_above(num, den) && (t.covered_below(num, den) <==> num
                > 0)
            &&& !(t.covered_below(num, den) && t.covered_above(num, den))
        }),
{
    lemma_tally_counts(
        t.pixels@,
        t.pixels@.len() / 4,
        |p: Bgra| covered(p),
        |b: u8, g: u8, r: u8, a: u8| a > 0,
    );
    let area = t.width as nat * t.height as nat;
    if area == 0 {
        assert(num * area == 0) by (nonlinear_arith)
            requires
                area == 0,
        ;
        assert(t.covered_pixels() * den >= 0) by (nonlinear_arith);
    }
}

/// An image is uniform exactly when all its whole pixels have the four bytes that the
/// buffer begins with.
pub proof fn uniform_exactly_when_all_pixels_agree(t: Thumb)
    ensures
        t.uniform() <==> every_pixel(
            t.pixels@,
            |b: u8, g: u8, r: u8, a: u8|
                b == t.pixels@[0] && g == t.pixels@[1] && r == t.pixels@[2] && a == t.pixels@[3],
        ),
{
    let px = t.pixels@;
    let f = |b: u8, g: u8, r: u8, a: u8|
        b == px[0] && g == px[1] && r == px[2] && a == px[3];
    if t.uniform() {
        assert forall|i: int| 0 <= i && 4 * i + 3 < px.len() implies f(
            px[4 * i],
            px[4 * i + 1],
            px[4 * i + 2],
            #[trigger] px[4 * i + 3],
        ) by {
            assert(pixel_at(px, i) == pixel_at(px, 0));
        }
    }
    if every_pixel(px, f) {
        assert forall|i: int| 0 <= i < pixel_count(px) implies #[trigger] pixel_at(px, i)
            == pixel_at(px, 0) by {
            assert(f(px[4 * i], px[4 * i + 1], px[4 * i + 2], px[4 * i + 3]));
        }
        assert(t.uniform());
    }
}

/// The pixel in column `x` of row `y` lies `y` rows of `width` pixels and `x` pixels
/// from the start, four bytes each, in the order blue, green, red, alpha.
pub proof fn pixels_lie_row_by_row(t: Thumb, x: u32, y: u32)
    ensures
        ({
            let start = 4 * (y * t.width + x);
            &&& t.at(x, y).b == t.pixels@[start]
            &&& t.at(x, y).g == t.pixels@[start + 1]
            &&& t.at(x, y).r == t.pixels@[start + 2]
            &&& t.at(x, y).a == t.pixels@[start + 3]
        }),
{
}

/// A bitmap is read back exactly when the system described it with accessible bits of
/// 32 per pixel, it has an area, and its rows are long enough; the plan then has its
/// size without signs, and it is top-down exactly when the height is negative.
pub proof fn a_bitmap_is_planned_exactly_when_sound(b: BitmapInfo)
    ensures
        b.planned() is Ok <==> {
            &&& b.described
            &&& b.has_bits
            &&& b.bits_per_pixel == 32
            &&& b.width != 0
            &&& b.height != 0
            &&& b.width > 0 ==> b.stride >= 4 * b.width
            &&& b.width < 0 ==> b.stride >= -4 * b.width
        },
        b.planned() matches Ok(p) ==> {
            &&& p.width == b.width || p.width == -b.width
            &&& p.height == b.height || p.height == -b.height
            &&& p.stride == b.stride
            &&& p.top_down <==> b.height < 0
        },
        !b.described ==> b.planned() == Err::<CopyPlan, BitmapError>(BitmapError::NotDescribed),
        b.described && !b.has_bits ==> b.planned() == Err::<CopyPlan, BitmapError>(
            BitmapError::NoBits,
        ),
{
}

/// Every byte of the thumbnail is the byte of the bitmap in the same column: of the same
/// row counted from the top where the bitmap is stored top-down, and counted from the
/// bottom otherwise. Padding between rows is left out.
pub proof fn rows_are_copied_in_order(plan: CopyPlan, raw: Seq<u8>, n: nat, y: int, c: int)
    requires
        plan.wf(),
        raw.len() >= plan.extent(),
        n <= plan.height,
        0 <= y < n,
        0 <= c < 4 * plan.width,
    ensures
        plan.rows(raw, n).len() == n * (4 * plan.width),
        plan.rows(raw, n)[y * (4 * plan.width) + c] == (if plan.top_down {
            raw[y * plan.stride + c]
        } else {
            raw[(plan.height - 1 - y) * plan.stride + c]
        }),
    decreases n,
{
    let w = 4 * plan.width as int;
    let s = plan.stride as int;
    let h = plan.height as int;
    let m = (n - 1) as nat;
    let k = plan.source_row(m as int);
    assert(0 <= k * s && k * s + w <= s * (h - 1) + w) by (nonlinear_arith)
        requires
            0 <= k <= h - 1,
            s >= 0,
    ;
    assert(plan.row(raw, m as int).len() == w);
    lemma_rows_len(plan, raw, m);
    lemma_rows_len(plan, raw, n);
    if y < m {
        assert(0 <= y * w + c < m * w) by (nonlinear_arith)
            requires
                0 <= y < m,
                0 <= c < w,
        ;
        rows_are_copied_in_order(plan, raw, m, y, c);
    } else {
        assert(y * w + c - m * w == c) by (nonlinear_arith)
            requires
                y == m,
        ;
    }
}

proof fn lemma_rows_len(plan: CopyPlan, raw: Seq<u8>, n: nat)
    requires
        plan.wf(),
        raw.len() >= plan.extent(),
        n <= plan.height,
    ensures
        plan.rows(raw, n).len() == n * (4 * plan.width),
    decreases n,
{
    let w = 4 * plan.width as int;
    let s = plan.stride as int;
    let h = plan.height as int;
    if n > 0 {
        let m = (n - 1) as nat;
        let k = plan.source_row(m as int);
        lemma_rows_len(plan, raw, m);
        assert(0 <= k * s && k * s + w <= s * (h - 1) + w) by (nonlinear_arith)
            requires
                0 <= k <= h - 1,
                s >= 0,
        ;
        assert(m * w + w == n * w) by (nonlinear_arith)
            requires
                m == n - 1,
        ;
    } else {
        assert(n * w == 0) by (nonlinear_arith)
            requires
                n == 0,
        ;
    }
}

/// Each rendering is written by a word of its own.
pub proof fn renderings_are_told_apart(a: Rendering, b: Rendering)
    ensures
        a.word() == b.word() <==> a == b,
{
    reveal_strlit("Real");
    reveal_strlit("RedXFallback");
    reveal_strlit("BlackSquareFallback");
    reveal_strlit("Transparent");
    reveal_strlit("Empty");
    assert("Real"@.len() == 4 && "RedXFallback"@.len() == 12 && "BlackSquareFallback"@.len() == 19
        && "Transparent"@.len() == 11 && "Empty"@.len() == 5);
}

/// Every pixel of a thumbnail that holds all the pixels of its size can be read, as long
/// as the size of its buffer fits into 32 bits.
pub proof fn whole_images_can_be_read(t: Thumb, x: u32, y: u32)
    requires
        t.pixels@.len() == 4 * (t.width * t.height),
        4 * (t.width * t.height) <= u32::MAX,
        x < t.width,
        y < t.height,
    ensures
        t.holds(x, y),
        !t.holds(0, t.height),
{
    let w: int = t.width as int;
    let h: int = t.height as int;
    assert(y * w + x < w * h) by (nonlinear_arith)
        requires
            0 <= x < w,
            0 <= y < h,
    ;
    assert(w * h == h * w) by (nonlinear_arith);
}

/// A bitmap must have its rows, each as long as the stride but for the last, which ends
/// with its last pixel: every byte that is copied lies within, and the last one is the
/// last that has to be there.
pub proof fn the_extent_ends_with_the_last_pixel(plan: CopyPlan, k: int, c: int)
    requires
        plan.wf(),
        0 <= k < plan.height,
        0 <= c < 4 * plan.width,
    ensures
        k * plan.stride + c < plan.extent(),
        (plan.height - 1) * plan.stride + 4 * plan.width == plan.extent(),
{
    let s: int = plan.stride as int;
    let h: int = plan.height as int;
    assert(k * s <= (h - 1) * s) by (nonlinear_arith)
        requires
            0 <= k <= h - 1,
            s >= 0,
    ;
    assert((h - 1) * s == s * (h - 1)) by (nonlinear_arith);
}

} // verus!
