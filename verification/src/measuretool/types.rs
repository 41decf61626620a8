//! Types of the screen ruler.

use vstd::prelude::*;

verus! {

/// What is measured. The variant order gives the codes 0..=3.
#[derive(Debug, Clone, Copy, PartialEq, Eq, Structural)]
pub enum MeasureMode {
    Cross,
    Horizontal,
    Vertical,
    Bounds,
}

/// Units of measurement.
#[derive(Debug, Clone, Copy, PartialEq, Eq, Structural)]
pub enum MeasureUnit {
    Pixel,
    Inch,
    Centimetre,
    Millimetre,
}

/// The unit chosen by a settings index; unknown indexes mean pixels.
pub open spec fn unit_of_index(index: int) -> MeasureUnit {
    if index == 1 {
        MeasureUnit::Inch
    } else if index == 2 {
        MeasureUnit::Centimetre
    } else if index == 3 {
        MeasureUnit::Millimetre
    } else {
        MeasureUnit::Pixel
    }
}

pub open spec fn unit_abbreviation(u: MeasureUnit) -> Seq<char> {
    match u {
        MeasureUnit::Pixel => "px"@,
        MeasureUnit::Inch => "in"@,
        MeasureUnit::Centimetre => "cm"@,
        MeasureUnit::Millimetre => "mm"@,
    }
}

impl MeasureUnit {
    pub fn from_index(index: i32) -> (u: Self)
        ensures
            u == unit_of_index(index as int),
    {
        match index {
            1 => MeasureUnit::Inch,
            2 => MeasureUnit::Centimetre,
            3 => MeasureUnit::Millimetre,
            _ => MeasureUnit::Pixel,
        }
    }

    /// The settings index of the unit (the inverse of `from_index`).
    pub fn index(&self) -> (i: i32)
        ensures
            unit_of_index(i as int) == *self,
            0 <= i <= 3,
    {
        match self {
            MeasureUnit::Pixel => 0,
            MeasureUnit::Inch => 1,
            MeasureUnit::Centimetre => 2,
            MeasureUnit::Millimetre => 3,
        }
    }

    /// The unit's flag value (1, 2, 4, 8).
    pub fn flag(&self) -> (f: i32)
        ensures
            f == match *self {
                MeasureUnit::Pixel => 1i32,
                MeasureUnit::Inch => 2i32,
                MeasureUnit::Centimetre => 4i32,
                MeasureUnit::Millimetre => 8i32,
            },
    {
        match self {
            MeasureUnit::Pixel => 1,
            MeasureUnit::Inch => 2,
            MeasureUnit::Centimetre => 4,
            MeasureUnit::Millimetre => 8,
        }
    }

    pub fn abbreviation(&self) -> (s: &'static str)
        ensures
            s@ == unit_abbreviation(*self),
    {
        match self {
            MeasureUnit::Pixel => "px",
            MeasureUnit::Inch => "in",
            MeasureUnit::Centimetre => "cm",
            MeasureUnit::Millimetre => "mm",
        }
    }
}

/// An RGB color.
#[derive(Debug, Clone, Copy, PartialEq, Eq, Structural)]
pub struct Color {
    pub r: u8,
    pub g: u8,
    pub b: u8,
}

impl Default for Color {
    /// Orange-red.
    fn default() -> (c: Self)
        ensures
            c == (Color { r: 255, g: 69, b: 0 }),
    {
        Color { r: 255, g: 69, b: 0 }
    }
}

/// A rectangle of pixel positions (all four sides inclusive).
#[derive(Debug, Clone, Copy, PartialEq, Eq, Structural)]
pub struct IRect {
    pub left: i32,
    pub top: i32,
    pub right: i32,
    pub bottom: i32,
}

impl IRect {
    pub fn new(left: i32, top: i32, right: i32, bottom: i32) -> (r: Self)
        ensures
            r == (IRect { left, top, right, bottom }),
    {
        IRect { left, top, right, bottom }
    }
}

/// A pixel position.
#[derive(Debug, Clone, Copy, PartialEq, Eq, Structural)]
pub struct Point {
    pub x: i32,
    pub y: i32,
}

/// Channel `k` (0 blue, 1 green, 2 red, 3 alpha) of a BGRA pixel.
pub open spec fn channel(p: u32, k: int) -> int {
    if k == 0 {
        p as int % 256
    } else if k == 1 {
        (p as int / 256) % 256
    } else if k == 2 {
        (p as int / 65536) % 256
    } else {
        p as int / 16777216
    }
}

pub open spec fn channel_diff(p1: u32, p2: u32, k: int) -> int {
    let d = channel(p1, k) - channel(p2, k);
    if d < 0 {
        -d
    } else {
        d
    }
}

/// Two pixels are close: every channel differs by at most `tolerance`
/// (`per_channel`), or the channel differences add up to at most `tolerance`.
pub open spec fn close(p1: u32, p2: u32, tolerance: u8, per_channel: bool) -> bool {
    if per_channel {
        &&& channel_diff(p1, p2, 0) <= tolerance
        &&& channel_diff(p1, p2, 1) <= tolerance
        &&& channel_diff(p1, p2, 2) <= tolerance
        &&& channel_diff(p1, p2, 3) <= tolerance
    } else {
        channel_diff(p1, p2, 0) + channel_diff(p1, p2, 1) + channel_diff(p1, p2, 2) + channel_diff(p1, p2, 3)
            <= tolerance
    }
}

/// A view of 32-bit pixels with a row stride.
pub struct PixelBuffer<'a> {
    pub pixels: &'a [u32],
    /// Distance between rows, in pixels.
    pub pitch: usize,
    pub width: usize,
    pub height: usize,
}

impl<'a> PixelBuffer<'a> {
    /// Every pixel position inside the width and height lies in the slice.
    pub open spec fn wf(&self) -> bool {
        &&& self.width <= self.pitch
        &&& self.height == 0 || self.pitch * (self.height - 1) + self.width <= self.pixels@.len()
    }

    pub open spec fn pixel(&self, x: int, y: int) -> u32 {
        self.pixels@[x + self.pitch * y]
    }

    pub fn new(pixels: &'a [u32], pitch: usize, width: usize, height: usize) -> (b: Self)
        ensures
            b.pixels@ == pixels@,
            b.pitch == pitch,
            b.width == width,
            b.height == height,
    {
        PixelBuffer { pixels, pitch, width, height }
    }

    /// The pixel at `(x, y)`.
    pub fn get_pixel(&self, x: usize, y: usize) -> (p: u32)
        requires
            self.wf(),
            x < self.width,
            y < self.height,
        ensures
            p == self.pixel(x as int, y as int),
    {
        let n = self.pixels.len();
        assert(self.pitch * y <= self.pitch * (self.height - 1)) by (nonlinear_arith)
            requires
                y <= self.height - 1,
        ;
        assert(self.pitch * y + x < n);
        let off = self.pitch * y;
        self.pixels[x + off]
    }

    /// Whether two pixels are close within `tolerance`.
    pub fn pixels_close(pixel1: u32, pixel2: u32, tolerance: u8, per_channel: bool) -> (b: bool)
        ensures
            b == close(pixel1, pixel2, tolerance, per_channel),
    {
        let db = abs_diff((pixel1 % 256) as i16, (pixel2 % 256) as i16);
        let dg = abs_diff(((pixel1 / 256) % 256) as i16, ((pixel2 / 256) % 256) as i16);
        let dr = abs_diff(((pixel1 / 65536) % 256) as i16, ((pixel2 / 65536) % 256) as i16);
        let da = abs_diff((pixel1 / 16777216) as i16, (pixel2 / 16777216) as i16);
        let tol = tolerance as u16;
        if per_channel {
            db <= tol && dg <= tol && dr <= tol && da <= tol
        } else {
            (db + dg + dr + da) <= tol
        }
    }
}

fn abs_diff(a: i16, b: i16) -> (d: u16)
    requires
        0 <= a < 256,
        0 <= b < 256,
    ensures
        d == (if a - b < 0 {
            b - a
        } else {
            a - b
        }),
{
    if a >= b {
        (a - b) as u16
    } else {
        (b - a) as u16
    }
}

} // verus!

verus! {

pub open spec fn byte_distance(a: int, b: int) -> int {
    if a >= b {
        a - b
    } else {
        b - a
    }
}

/// How close two BGRA pixels are, byte by byte: in per-channel mode they are
/// close exactly when the blue, green, red and alpha bytes each differ by at
/// most the tolerance; in summed mode exactly when the four byte differences
/// add up to at most the tolerance. So summed closeness implies per-channel
/// closeness, closeness is symmetric, and a pixel is close to itself.
pub proof fn lemma_close_by_bytes(p1: u32, p2: u32, t: u8)
    ensures
        close(p1, p2, t, true) <==> {
            &&& byte_distance(p1 as int % 256, p2 as int % 256) <= t
            &&& byte_distance((p1 as int / 256) % 256, (p2 as int / 256) % 256) <= t
            &&& byte_distance((p1 as int / 65536) % 256, (p2 as int / 65536) % 256) <= t
            &&& byte_distance(p1 as int / 16777216, p2 as int / 16777216) <= t
        },
        close(p1, p2, t, false) <==> byte_distance(p1 as int % 256, p2 as int % 256) + byte_distance(
            (p1 as int / 256) % 256,
            (p2 as int / 256) % 256,
        ) + byte_distance((p1 as int / 65536) % 256, (p2 as int / 65536) % 256) + byte_distance(
            p1 as int / 16777216,
            p2 as int / 16777216,
        ) <= t,
        close(p1, p2, t, false) ==> close(p1, p2, t, true),
        close(p1, p2, t, true) == close(p2, p1, t, true),
        close(p1, p2, t, false) == close(p2, p1, t, false),
        close(p1, p1, t, true),
        close(p1, p1, t, false),
{
}

} // verus!
