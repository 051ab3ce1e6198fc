//! Colour samples and the skin predicate.
//!
//! Hue, saturation and value are kept as exact fractions of 8-bit channel values, so that a
//! colour lying on a threshold is classified by the threshold itself and not by rounding.

use vstd::prelude::*;

verus! {

/// An 8-bit RGB colour sample.
#[derive(Debug, Clone, Copy, PartialEq, Eq, Structural)]
pub struct Rgb {
    pub r: u8,
    pub g: u8,
    pub b: u8,
}

/// A colour in hue, saturation and value, as exact fractions.
///
/// * value is `value / 255`;
/// * saturation is `chroma / value`, and 0 for black;
/// * hue is `hue_by_chroma / chroma` degrees, and 0 for a gray.
#[derive(Debug, Clone, Copy, PartialEq, Eq, Structural)]
pub struct Hsv {
    /// The hue in degrees, multiplied by `chroma`.
    pub hue_by_chroma: u32,
    /// The largest channel minus the smallest.
    pub chroma: u8,
    /// The largest channel.
    pub value: u8,
}

/// The largest of three channel values.
pub open spec fn max3(a: int, b: int, c: int) -> int {
    if a >= b && a >= c {
        a
    } else if b >= c {
        b
    } else {
        c
    }
}

/// The smallest of three channel values.
pub open spec fn min3(a: int, b: int, c: int) -> int {
    if a <= b && a <= c {
        a
    } else if b <= c {
        b
    } else {
        c
    }
}

/// The hue of `(r, g, b)` in degrees, multiplied by the chroma: the sextant of the largest
/// channel (red first, then green, then blue) plus the offset inside it, wrapped into one
/// turn.
pub open spec fn hue_by_chroma(r: int, g: int, b: int) -> int {
    let high = max3(r, g, b);
    let chroma = high - min3(r, g, b);
    if chroma == 0 {
        0
    } else if high == r {
        if g >= b {
            60 * (g - b)
        } else {
            360 * chroma - 60 * (b - g)
        }
    } else if high == g {
        120 * chroma + 60 * (b - r)
    } else {
        240 * chroma + 60 * (r - g)
    }
}

impl Hsv {
    /// What every converted colour satisfies: the hue lies in `[0, 360)` degrees and is 0
    /// for a gray, and the saturation is at most 1.
    pub open spec fn wf(self) -> bool {
        &&& self.chroma <= self.value
        &&& self.chroma == 0 ==> self.hue_by_chroma == 0
        &&& self.chroma > 0 ==> self.hue_by_chroma < 360 * self.chroma
    }

    /// The hue in whole degrees, rounded down.
    pub open spec fn spec_hue_degrees(self) -> int {
        if self.chroma == 0 {
            0
        } else {
            self.hue_by_chroma as int / self.chroma as int
        }
    }

    /// The saturation in whole percent, rounded down.
    pub open spec fn spec_saturation_percent(self) -> int {
        if self.value == 0 {
            0
        } else {
            (100 * self.chroma) / self.value as int
        }
    }

    /// The value in whole percent, rounded down.
    pub open spec fn spec_value_percent(self) -> int {
        (100 * self.value) / 255
    }

    /// The hue in whole degrees, rounded down.
    pub fn hue_degrees(&self) -> (h: u32)
        ensures
            h == self.spec_hue_degrees(),
    {
        if self.chroma == 0 {
            0
        } else {
            self.hue_by_chroma / (self.chroma as u32)
        }
    }

    /// The saturation in whole percent, rounded down.
    pub fn saturation_percent(&self) -> (s: u32)
        ensures
            s == self.spec_saturation_percent(),
    {
        if self.value == 0 {
            0
        } else {
            (100 * (self.chroma as u32)) / (self.value as u32)
        }
    }

    /// The value in whole percent, rounded down.
    pub fn value_percent(&self) -> (v: u32)
        ensures
            v == self.spec_value_percent(),
    {
        (100 * (self.value as u32)) / 255
    }
}

/// The bounds a colour must meet to count as skin.
///
/// The hue bound is given in units of which `hue_scale` make a full turn, the saturation
/// and value bounds in units of which `sv_scale` make full saturation or full value.
#[derive(Debug, Clone, Copy, PartialEq, Eq, Structural)]
pub struct SkinThresholds {
    /// Hue units in a full turn: 360 for degrees, 180 for half degrees.
    pub hue_scale: u16,
    /// Units at full saturation and at full value: 100 for percent, 255 for bytes.
    pub sv_scale: u16,
    /// The largest hue accepted.
    pub hue_max: u16,
    /// The smallest saturation accepted.
    pub sat_min: u16,
    /// The largest saturation accepted.
    pub sat_max: u16,
    /// The smallest value accepted.
    pub val_min: u16,
    /// The largest value accepted.
    pub val_max: u16,
}

impl SkinThresholds {
    /// The band in degrees and percent: hue up to 50, saturation 15 to 90, value 25 to 95.
    pub open spec fn spec_percent_band() -> SkinThresholds {
        SkinThresholds {
            hue_scale: 360,
            sv_scale: 100,
            hue_max: 50,
            sat_min: 15,
            sat_max: 90,
            val_min: 25,
            val_max: 95,
        }
    }

    /// The band in half degrees and bytes: hue up to 20, saturation 20 to 255, value 70 to
    /// 255.
    pub open spec fn spec_byte_band() -> SkinThresholds {
        SkinThresholds {
            hue_scale: 180,
            sv_scale: 255,
            hue_max: 20,
            sat_min: 20,
            sat_max: 255,
            val_min: 70,
            val_max: 255,
        }
    }

    /// The narrower band, in degrees and percent.
    pub fn percent_band() -> (t: Self)
        ensures
            t == Self::spec_percent_band(),
    {
        SkinThresholds {
            hue_scale: 360,
            sv_scale: 100,
            hue_max: 50,
            sat_min: 15,
            sat_max: 90,
            val_min: 25,
            val_max: 95,
        }
    }

    /// The wide band, in half degrees and bytes.
    pub fn byte_band() -> (t: Self)
        ensures
            t == Self::spec_byte_band(),
    {
        SkinThresholds {
            hue_scale: 180,
            sv_scale: 255,
            hue_max: 20,
            sat_min: 20,
            sat_max: 255,
            val_min: 70,
            val_max: 255,
        }
    }

    /// The hue of `hsv`, as a part of the full turn, is at most `hue_max / hue_scale`.
    pub open spec fn admits_hue(self, hsv: Hsv) -> bool {
        hsv.hue_by_chroma * self.hue_scale <= self.hue_max * 360 * hsv.chroma
    }

    /// The saturation of `hsv` lies between `sat_min / sv_scale` and `sat_max / sv_scale`.
    pub open spec fn admits_saturation(self, hsv: Hsv) -> bool {
        if hsv.value == 0 {
            self.sat_min == 0
        } else {
            self.sat_min * hsv.value <= hsv.chroma * self.sv_scale <= self.sat_max * hsv.value
        }
    }

    /// The value of `hsv` lies between `val_min / sv_scale` and `val_max / sv_scale`.
    pub open spec fn admits_value(self, hsv: Hsv) -> bool {
        self.val_min * 255 <= hsv.value * self.sv_scale <= self.val_max * 255
    }

    /// All three bounds hold of `hsv`.
    pub open spec fn admits(self, hsv: Hsv) -> bool {
        self.admits_hue(hsv) && self.admits_saturation(hsv) && self.admits_value(hsv)
    }

    /// Whether `hsv` meets all three bounds.
    pub fn accepts(&self, hsv: &Hsv) -> (ok: bool)
        ensures
            ok == self.admits(*hsv),
    {
        let chroma: u64 = hsv.chroma as u64;
        let value: u64 = hsv.value as u64;
        let sv_scale: u64 = self.sv_scale as u64;
        assert(hsv.hue_by_chroma * self.hue_scale <= 0x1_0000_0000 * 0x1_0000) by (nonlinear_arith)
            requires
                0 <= hsv.hue_by_chroma < 0x1_0000_0000,
                0 <= self.hue_scale < 0x1_0000,
        ;
        assert(self.hue_max * 360 * hsv.chroma <= 0x1_0000 * 360 * 0x100) by (nonlinear_arith)
            requires
                0 <= self.hue_max < 0x1_0000,
                0 <= hsv.chroma < 0x100,
        ;
        assert(self.hue_max * 360 <= 0x1_0000 * 360);
        let hue_ok = (hsv.hue_by_chroma as u64) * (self.hue_scale as u64) <= (self.hue_max as u64)
            * 360 * chroma;
        assert(chroma * sv_scale <= 0x100 * 0x1_0000) by (nonlinear_arith)
            requires
                0 <= chroma < 0x100,
                0 <= sv_scale < 0x1_0000,
        ;
        assert(value * sv_scale <= 0x100 * 0x1_0000) by (nonlinear_arith)
            requires
                0 <= value < 0x100,
                0 <= sv_scale < 0x1_0000,
        ;
        assert(self.sat_min * value <= 0x1_0000 * 0x100) by (nonlinear_arith)
            requires
                0 <= value < 0x100,
                0 <= self.sat_min < 0x1_0000,
        ;
        assert(self.sat_max * value <= 0x1_0000 * 0x100) by (nonlinear_arith)
            requires
                0 <= value < 0x100,
                0 <= self.sat_max < 0x1_0000,
        ;
        let sat_ok = if hsv.value == 0 {
            self.sat_min == 0
        } else {
            (self.sat_min as u64) * value <= chroma * sv_scale && chroma * sv_scale <= (
            self.sat_max as u64) * value
        };
        let val_ok = (self.val_min as u64) * 255 <= value * sv_scale && value * sv_scale <= (
        self.val_max as u64) * 255;
        hue_ok && sat_ok && val_ok
    }
}

impl Rgb {
    /// The colour with the given channels.
    pub fn new(r: u8, g: u8, b: u8) -> (c: Self)
        ensures
            c.r == r,
            c.g == g,
            c.b == b,
    {
        Self { r, g, b }
    }

    /// The colour in hue, saturation and value.
    pub open spec fn spec_to_hsv(self) -> Hsv {
        let high = max3(self.r as int, self.g as int, self.b as int);
        let low = min3(self.r as int, self.g as int, self.b as int);
        Hsv {
            hue_by_chroma: hue_by_chroma(self.r as int, self.g as int, self.b as int) as u32,
            chroma: (high - low) as u8,
            value: high as u8,
        }
    }

    /// Whether the colour passes the narrower band: hue at most 50 degrees, saturation
    /// between 15 and 90 percent, value between 25 and 95 percent.
    pub open spec fn spec_is_skin_color(self) -> bool {
        SkinThresholds::spec_percent_band().admits(self.spec_to_hsv())
    }

    /// Converts the colour to hue, saturation and value. Every colour has a conversion, and
    /// a gray has hue 0.
    pub fn to_hsv(&self) -> (hsv: Hsv)
        ensures
            hsv == self.spec_to_hsv(),
            hsv.wf(),
            hsv.value == max3(self.r as int, self.g as int, self.b as int),
            hsv.chroma == hsv.value - min3(self.r as int, self.g as int, self.b as int),
            hsv.hue_by_chroma == hue_by_chroma(self.r as int, self.g as int, self.b as int),
    {
        let r: u32 = self.r as u32;
        let g: u32 = self.g as u32;
        let b: u32 = self.b as u32;
        let high: u32 = if r >= g && r >= b {
            r
        } else if g >= b {
            g
        } else {
            b
        };
        let low: u32 = if r <= g && r <= b {
            r
        } else if g <= b {
            g
        } else {
            b
        };
        let chroma: u32 = high - low;
        let hue: u32 = if chroma == 0 {
            0
        } else if high == r {
            if g >= b {
                60 * (g - b)
            } else {
                360 * chroma - 60 * (b - g)
            }
        } else if high == g {
            120 * chroma + 60 * b - 60 * r
        } else {
            240 * chroma + 60 * r - 60 * g
        };
        Hsv { hue_by_chroma: hue, chroma: chroma as u8, value: high as u8 }
    }

    /// Whether the colour meets the bounds of `thresholds`.
    pub fn is_skin(&self, thresholds: &SkinThresholds) -> (skin: bool)
        ensures
            skin == thresholds.admits(self.spec_to_hsv()),
    {
        let hsv = self.to_hsv();
        thresholds.accepts(&hsv)
    }

    /// Whether the colour is likely skin, by the narrower band.
    pub fn is_skin_color(&self) -> (skin: bool)
        ensures
            skin == self.spec_is_skin_color(),
    {
        let band = SkinThresholds::percent_band();
        self.is_skin(&band)
    }
}

/// A colour without saturation is never skin under a band that asks for some saturation.
pub proof fn lemma_gray_is_not_skin(c: Rgb, t: SkinThresholds)
    requires
        c.r == c.g,
        c.g == c.b,
        t.sat_min > 0,
    ensures
        !t.admits(c.spec_to_hsv()),
{
    let hsv = c.spec_to_hsv();
    assert(hsv.chroma == 0);
    if hsv.value > 0 {
        assert(t.sat_min * hsv.value > 0) by (nonlinear_arith)
            requires
                t.sat_min > 0,
                hsv.value > 0,
        ;
    }
}

} // verus!
