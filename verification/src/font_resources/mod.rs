//! The fonts of the panel.

use vstd::prelude::*;

pub mod formats;
pub mod loader;
pub mod local_file;

verus! {

/// What a font is used for.
#[derive(Debug, Clone, Copy, PartialEq, Eq, Structural)]
pub enum FontRole {
    Name,
    Badge,
}

impl FontRole {
    /// The number of a role.
    pub open spec fn number(self) -> u32 {
        match self {
            FontRole::Name => 0,
            FontRole::Badge => 1,
        }
    }

    pub fn index(self) -> (r: usize)
        ensures
            r == self.number(),
    {
        match self {
            FontRole::Name => 0,
            FontRole::Badge => 1,
        }
    }

    pub fn label(self) -> (r: &'static str)
        ensures
            r@ == (match self {
                FontRole::Name => "name"@,
                FontRole::Badge => "badge"@,
            }),
    {
        match self {
            FontRole::Name => "name",
            FontRole::Badge => "badge",
        }
    }
}

/// The measures of a font in its own units.
#[derive(Debug, Clone, Copy, PartialEq, Eq, Structural)]
pub struct FontMetrics {
    pub units_per_em: u16,
    pub ascent: u16,
    pub descent: u16,
    pub line_gap: i16,
}

impl FontMetrics {
    /// The height of a line in the units of the font.
    pub open spec fn line(self) -> int {
        self.ascent + self.descent + self.line_gap
    }

    /// Whether the measures are those of a usable font: a line is not empty and not higher than
    /// four times the size.
    pub open spec fn usable(self) -> bool {
        self.units_per_em > 0 && 0 < self.line() <= 4 * self.units_per_em
    }

    pub fn is_usable(&self) -> (r: bool)
        ensures
            r == self.usable(),
    {
        let line: i32 = self.ascent as i32 + self.descent as i32 + self.line_gap as i32;
        self.units_per_em > 0 && line > 0 && line <= 4 * self.units_per_em as i32
    }
}

/// The larger of two numbers.
pub open spec fn at_least(n: int, least: int) -> int {
    if n < least {
        least
    } else {
        n
    }
}

/// The height of a line in pixels before it is limited: rounded up.
pub open spec fn exact_height(metrics: FontMetrics, size: u32) -> int {
    let units = at_least(metrics.units_per_em as int, 1);
    (at_least(metrics.line(), 1) * size + units - 1) / units
}

/// A height of at most 256 pixels.
pub open spec fn at_most_256(height: int) -> int {
    if height > 256 {
        256
    } else {
        height
    }
}

/// The height of a line in pixels: the exact height, at most 256.
pub open spec fn limited_height(metrics: FontMetrics, size: u32) -> int {
    at_most_256(exact_height(metrics, size))
}

/// The height of a line of a font in pixels, at most 256. Of an exact height of more than 32 bits,
/// which no usable font of up to a billion pixels has, the lowest 32 bits count.
pub fn line_height(metrics: &FontMetrics, size: u32) -> (r: u32)
    ensures
        exact_height(*metrics, size) <= u32::MAX ==> r == limited_height(*metrics, size),
        exact_height(*metrics, size) > u32::MAX ==> r == at_most_256(
            exact_height(*metrics, size) % (u32::MAX + 1),
        ),
{
    let units: u64 = if metrics.units_per_em < 1 {
        1
    } else {
        metrics.units_per_em as u64
    };
    let sum: i32 = metrics.ascent as i32 + metrics.descent as i32 + metrics.line_gap as i32;
    let line: u64 = if sum < 1 {
        1
    } else {
        sum as u64
    };
    assert(line * size <= 200000 * 0xffff_ffff) by (nonlinear_arith)
        requires
            line <= 200000,
            size <= 0xffff_ffff,
    ;
    let height: u64 = (line * size as u64 + units - 1) / units;
    let low: u32 = (height % 0x1_0000_0000) as u32;
    if low > 256 {
        256
    } else {
        low
    }
}

/// A line is at most 256 pixels high, and it has its exact height where that is at most 256 pixels.
/// Text of at least one pixel has lines of at least one pixel. A line of a usable font of up to
/// 1024 pixels has an exact height of at most 4096 pixels.
pub proof fn line_height_is_bounded(metrics: FontMetrics, size: u32)
    ensures
        0 <= limited_height(metrics, size) <= 256,
        exact_height(metrics, size) <= 256 ==> limited_height(metrics, size) == exact_height(
            metrics,
            size,
        ),
        size >= 1 ==> limited_height(metrics, size) >= 1,
        metrics.usable() && size <= 1024 ==> exact_height(metrics, size) <= 4096,
{
    let line = at_least(metrics.line(), 1);
    let units = at_least(metrics.units_per_em as int, 1);
    assert((line * size + units - 1) / units >= 0) by (nonlinear_arith)
        requires
            line >= 1,
            size >= 0,
            units >= 1,
    ;
    if size >= 1 {
        assert((line * size + units - 1) / units >= 1) by (nonlinear_arith)
            requires
                line >= 1,
                size >= 1,
                units >= 1,
        ;
    }
    if metrics.usable() && size <= 1024 {
        assert((line * size + units - 1) / units <= 4096) by (nonlinear_arith)
            requires
                0 < line <= 4 * units,
                0 <= size <= 1024,
                units >= 1,
        ;
    }
}

/// A line is as high as its ascent, descent and gap at the size of the text, rounded up to a whole
/// pixel. A font without a height counts one unit, and so does one without units.
pub proof fn line_height_rounds_up(metrics: FontMetrics, size: u32)
    ensures
        ({
            let line = metrics.ascent + metrics.descent + metrics.line_gap;
            let counted = if line > 1 {
                line
            } else {
                1
            };
            let units = if metrics.units_per_em > 1 {
                metrics.units_per_em as int
            } else {
                1
            };
            let height = exact_height(metrics, size);
            &&& units * (height - 1) < counted * size
            &&& counted * size <= units * height
        }),
{
    let line = at_least(metrics.line(), 1);
    let units = at_least(metrics.units_per_em as int, 1);
    let top = line * size + units - 1;
    vstd::arithmetic::div_mod::lemma_fundamental_div_mod(top, units);
    vstd::arithmetic::div_mod::lemma_mod_bound(top, units);
    let height = exact_height(metrics, size);
    assert(units * (height - 1) == units * height - units) by (nonlinear_arith);
}

/// A font is usable where it has units, and its line a height of up to four times the size.
pub proof fn usable_fonts(metrics: FontMetrics)
    ensures
        ({
            let line = metrics.ascent + metrics.descent + metrics.line_gap;
            metrics.usable() <==> metrics.units_per_em >= 1 && 1 <= line && line
                <= metrics.units_per_em * 4
        }),
        FontRole::Name.number() == 0,
        FontRole::Badge.number() == 1,
{
}

}
