//! Positions and sizes in logical and physical pixels, and the scale-factor
//! conversions between them.
//!
//! Physical pixels are what the display hardware addresses: signed 32-bit for
//! positions, unsigned 32-bit for sizes.  Logical pixels are device
//! independent; they are held in fixed point, in units of 1/65536 of a
//! logical pixel, so that conversions are exact integer arithmetic.  A scale
//! factor is likewise held in units of 1/65536: `units == 65536` means a
//! scale of one, `units == 131072` a scale of two.
//!
//! physical = round(logical * scale); logical = round(physical / scale).
//! Both roundings are to the nearest representable value (half away from
//! zero upward).  Converting a physical value to logical and back restores
//! it exactly: see `lemma_position_round_trip` and `lemma_size_round_trip`.

use vstd::prelude::*;
use vstd::arithmetic::div_mod::lemma_fundamental_div_mod;
use vstd::arithmetic::div_mod::lemma_mod_bound;
use vstd::arithmetic::div_mod::lemma_div_pos_is_pos;
use vstd::arithmetic::div_mod::lemma_hoist_over_denominator;

verus! {

/// One logical pixel, in the fixed-point units used for logical
/// coordinates and scale factors.
pub const SUBPIXEL_ONE: u64 = 65536;

/// A display scale factor, in units of 1/65536.  Valid scale factors are
/// strictly positive.
#[derive(Clone, Copy, PartialEq, Eq, Structural, Debug)]
pub struct ScaleFactor {
    /// The factor in units of 1/65536; 65536 is a scale of one.
    pub units: u32,
}

impl ScaleFactor {
    /// A scale factor must be strictly positive.
    pub open spec fn is_valid(self) -> bool {
        self.units > 0
    }

    /// Construct a scale factor from its fixed-point units.
    pub fn new(units: u32) -> (r: Self)
        requires
            units > 0,
        ensures
            r.units == units,
            r.is_valid(),
    {
        Self { units }
    }
}

/// Division of `a` by `b`, rounded to the nearest integer; halves round up.
pub open spec fn round_div(a: int, b: int) -> int
    recommends
        b > 0,
{
    (2 * a + b) / (2 * b)
}

/// The defining property of `round_div`: the result differs from the exact
/// quotient by at most one half.
pub proof fn lemma_round_div(a: int, b: int)
    requires
        b > 0,
    ensures
        -b <= 2 * (a - b * round_div(a, b)) < b,
{
    let q = round_div(a, b);
    lemma_fundamental_div_mod(2 * a + b, 2 * b);
    lemma_mod_bound(2 * a + b, 2 * b);
    let r = (2 * a + b) % (2 * b);
    assert(2 * a + b == 2 * b * q + r);
    assert(2 * (a - b * q) == r - b) by {
        assert(2 * b * q == 2 * (b * q)) by (nonlinear_arith);
    }
}

/// The logical fixed-point value of a physical coordinate `p` under a scale
/// factor of `units`/65536: round(p / (units/65536)) in subpixel units, that
/// is round(p * 2^32 / units).
pub open spec fn logical_of_physical(p: int, units: int) -> int
    recommends
        units > 0,
{
    round_div(p * 0x1_0000_0000, units)
}

/// The physical value of a logical fixed-point coordinate `l` under a scale
/// factor of `units`/65536: round(l * units / 2^32).
pub open spec fn physical_of_logical(l: int, units: int) -> int {
    round_div(l * units, 0x1_0000_0000)
}

/// Clamp an integer into the range of `i32`.
pub open spec fn clamp_to_i32(v: int) -> int {
    if v < -0x8000_0000 {
        -0x8000_0000
    } else if v > 0x7fff_ffff {
        0x7fff_ffff
    } else {
        v
    }
}

/// Clamp an integer into the range of `u32`.
pub open spec fn clamp_to_u32(v: int) -> int {
    if v < 0 {
        0
    } else if v > 0xffff_ffff {
        0xffff_ffff
    } else {
        v
    }
}

/// Exact rounded division over the ranges that the conversions need.
fn round_div_i128(a: i128, b: i128) -> (r: i128)
    requires
        1 <= b <= 0x1_0000_0000,
        -0x1_0000_0000_0000_0000_0000_0000 <= a <= 0x1_0000_0000_0000_0000_0000_0000,
    ensures
        r == round_div(a as int, b as int),
{
    let ghost big: int = 0x1_0000_0000_0000_0000_0000_0000;
    let bu: u128 = b as u128;
    // An offset large enough to make the shifted numerator nonnegative.
    let off: u128 = (0x1_0000_0000_0000_0000_0000_0000u128 + bu - 1) / bu;
    proof {
        lemma_fundamental_div_mod(big + b - 1, b as int);
        lemma_mod_bound(big + b - 1, b as int);
        lemma_div_pos_is_pos(big + b - 1, b as int);
        assert(big <= off * b <= big + b - 1) by (nonlinear_arith)
            requires
                1 <= b,
                big + b - 1 == b * (off as int) + (big + b - 1) % (b as int),
                0 <= (big + b - 1) % (b as int) < b,
        ;
        assert(off <= off * b) by (nonlinear_arith)
            requires
                1 <= b,
                0 <= off,
        ;
        assert((2 * (off as int)) * (b as int) == 2 * ((off as int) * (b as int)))
            by (nonlinear_arith);
        assert((off as int) * (2 * (b as int)) == 2 * ((off as int) * (b as int)))
            by (nonlinear_arith);
    }
    let base: u128 = off * 2 * bu;
    let n: i128 = (base as i128) + 2 * a + b;
    let q: u128 = (n as u128) / (2 * bu);
    proof {
        lemma_div_pos_is_pos(n as int, 2 * b);
        lemma_fundamental_div_mod(n as int, 2 * b);
        lemma_mod_bound(n as int, 2 * b);
        assert(q as int <= (q as int) * (2 * (b as int))) by (nonlinear_arith)
            requires
                0 <= q as int,
                1 <= b,
        ;
    }
    let r: i128 = (q as i128) - (off as i128);
    proof {
        lemma_hoist_over_denominator(2 * a + b, off as int, (2 * b) as nat);
        assert((2 * a + b) / (2 * b) + off as int == (2 * a + b + (off as int) * (2 * b)) / (2
            * b));
        assert(n as int == 2 * a + b + (off as int) * (2 * b));
    }
    r
}

/// Bounds on `round_div` that place conversion results inside their target
/// machine types.
proof fn lemma_round_div_range(a: int, b: int, lo: int, hi: int)
    requires
        b > 0,
        lo * b * 2 - b <= 2 * a,
        2 * a + b < hi * b * 2 + b,
    ensures
        lo <= round_div(a, b) <= hi,
{
    let q = round_div(a, b);
    lemma_round_div(a, b);
    assert(lo <= q) by (nonlinear_arith)
        requires
            b > 0,
            lo * b * 2 - b <= 2 * a,
            -b <= 2 * (a - b * q) < b,
    ;
    assert(q <= hi) by (nonlinear_arith)
        requires
            b > 0,
            2 * a + b < hi * b * 2 + b,
            -b <= 2 * (a - b * q) < b,
    ;
}

/// Converting any physical value to logical under a positive scale factor
/// and converting the result back restores the value exactly.
pub proof fn lemma_scale_round_trip(p: int, units: int)
    requires
        1 <= units <= 0xffff_ffff,
    ensures
        physical_of_logical(logical_of_physical(p, units), units) == p,
{
    let l = logical_of_physical(p, units);
    let p2 = physical_of_logical(l, units);
    lemma_round_div(p * 0x1_0000_0000, units);
    lemma_round_div(l * units, 0x1_0000_0000);
    let e1 = p * 0x1_0000_0000 - units * l;
    assert(-units <= 2 * e1 < units);
    let e2 = l * units - 0x1_0000_0000 * p2;
    assert(-0x1_0000_0000 <= 2 * e2 < 0x1_0000_0000);
    assert(units * l == l * units) by (nonlinear_arith);
    assert(2 * e1 + 2 * e2 == 0x2_0000_0000 * (p - p2)) by (nonlinear_arith)
        requires
            e1 == p * 0x1_0000_0000 - units * l,
            e2 == l * units - 0x1_0000_0000 * p2,
            units * l == l * units,
    ;
    assert(p == p2) by (nonlinear_arith)
        requires
            2 * e1 + 2 * e2 == 0x2_0000_0000 * (p - p2),
            -0xffff_ffff <= 2 * e1 < 0xffff_ffff,
            -0x1_0000_0000 <= 2 * e2 < 0x1_0000_0000,
    ;
}

/// A position in physical device pixels: the space after applying the
/// display's scale factor.
#[derive(Clone, Copy, PartialEq, Eq, Structural, Debug)]
pub struct PhysicalPosition {
    /// The x coordinate.
    pub x: i32,
    /// The y coordinate.
    pub y: i32,
}

/// A position in logical pixels, held in units of 1/65536 of a logical
/// pixel: the device-independent space before applying a scale factor.
#[derive(Clone, Copy, PartialEq, Eq, Structural, Debug)]
pub struct LogicalPosition {
    /// The x coordinate in subpixel units.
    pub x: i64,
    /// The y coordinate in subpixel units.
    pub y: i64,
}

impl PhysicalPosition {
    /// Construct a new physical position from the given x and y coordinates.
    pub fn new(x: i32, y: i32) -> (r: Self)
        ensures
            r.x == x,
            r.y == y,
    {
        Self { x, y }
    }

    /// Convert a logical position to a physical position by multiplying the
    /// coordinates with the scale factor; the result is clamped to the
    /// physical coordinate range.
    pub fn from_logical(logical_pos: LogicalPosition, scale_factor: ScaleFactor) -> (r: Self)
        requires
            scale_factor.is_valid(),
        ensures
            r.x == clamp_to_i32(physical_of_logical(logical_pos.x as int, scale_factor.units as int)),
            r.y == clamp_to_i32(physical_of_logical(logical_pos.y as int, scale_factor.units as int)),
    {
        Self {
            x: physical_coord_of_logical(logical_pos.x, scale_factor),
            y: physical_coord_of_logical(logical_pos.y, scale_factor),
        }
    }

    /// Convert this physical position to a logical position by dividing the
    /// coordinates by the scale factor.
    pub fn to_logical(&self, scale_factor: ScaleFactor) -> (r: LogicalPosition)
        requires
            scale_factor.is_valid(),
        ensures
            r == LogicalPosition::spec_from_physical(*self, scale_factor),
    {
        LogicalPosition::from_physical(*self, scale_factor)
    }
}

/// Shared coordinate conversion: one logical coordinate to physical.
pub fn physical_coord_of_logical(l: i64, scale_factor: ScaleFactor) -> (r: i32)
    requires
        scale_factor.is_valid(),
    ensures
        r == clamp_to_i32(physical_of_logical(l as int, scale_factor.units as int)),
{
    proof {
        assert(-0x1_0000_0000_0000_0000_0000_0000 <= (l as int) * (scale_factor.units as int)
            <= 0x1_0000_0000_0000_0000_0000_0000) by (nonlinear_arith)
            requires
                -0x8000_0000_0000_0000 <= l as int <= 0x7fff_ffff_ffff_ffff,
                0 < scale_factor.units as int <= 0xffff_ffff,
        ;
    }
    let v: i128 = round_div_i128((l as i128) * (scale_factor.units as i128), 0x1_0000_0000);
    if v < -0x8000_0000 {
        -0x8000_0000
    } else if v > 0x7fff_ffff {
        0x7fff_ffff
    } else {
        v as i32
    }
}

impl LogicalPosition {
    /// Construct a new logical position from the given x and y coordinates
    /// in subpixel units.
    pub fn new(x: i64, y: i64) -> (r: Self)
        ensures
            r.x == x,
            r.y == y,
    {
        Self { x, y }
    }

    /// Construct a logical position from whole logical pixels.
    pub fn from_pixels(x: i32, y: i32) -> (r: Self)
        ensures
            r.x == x as int * SUBPIXEL_ONE,
            r.y == y as int * SUBPIXEL_ONE,
    {
        Self { x: (x as i64) * 65536, y: (y as i64) * 65536 }
    }

    /// What `from_physical` returns.
    pub open spec fn spec_from_physical(physical_pos: PhysicalPosition, scale_factor: ScaleFactor) -> LogicalPosition {
        LogicalPosition {
            x: logical_of_physical(physical_pos.x as int, scale_factor.units as int) as i64,
            y: logical_of_physical(physical_pos.y as int, scale_factor.units as int) as i64,
        }
    }

    /// Convert a physical position to a logical position by dividing the
    /// coordinates by the scale factor.  The result is exact in subpixel
    /// units up to the final rounding.
    pub fn from_physical(physical_pos: PhysicalPosition, scale_factor: ScaleFactor) -> (r: Self)
        requires
            scale_factor.is_valid(),
        ensures
            r == Self::spec_from_physical(physical_pos, scale_factor),
            r.x == logical_of_physical(physical_pos.x as int, scale_factor.units as int),
            r.y == logical_of_physical(physical_pos.y as int, scale_factor.units as int),
    {
        Self {
            x: logical_coord_of_physical(physical_pos.x, scale_factor),
            y: logical_coord_of_physical(physical_pos.y, scale_factor),
        }
    }

    /// Convert this logical position to a physical position by multiplying
    /// the coordinates with the scale factor.
    pub fn to_physical(&self, scale_factor: ScaleFactor) -> (r: PhysicalPosition)
        requires
            scale_factor.is_valid(),
        ensures
            r.x == clamp_to_i32(physical_of_logical(self.x as int, scale_factor.units as int)),
            r.y == clamp_to_i32(physical_of_logical(self.y as int, scale_factor.units as int)),
    {
        PhysicalPosition::from_logical(*self, scale_factor)
    }
}

/// Shared coordinate conversion: one physical coordinate to logical.
fn logical_coord_of_physical(p: i32, scale_factor: ScaleFactor) -> (r: i64)
    requires
        scale_factor.is_valid(),
    ensures
        r == logical_of_physical(p as int, scale_factor.units as int),
{
    let a: i128 = (p as i128) * 0x1_0000_0000;
    let v: i128 = round_div_i128(a, scale_factor.units as i128);
    proof {
        lemma_round_div_range(
            a as int,
            scale_factor.units as int,
            -0x8000_0000_0000_0000,
            0x7fff_ffff_ffff_ffff,
        );
    }
    v as i64
}

/// A size in physical device pixels.
#[derive(Clone, Copy, PartialEq, Eq, Structural, Debug)]
pub struct PhysicalSize {
    /// The width in physical pixels.
    pub width: u32,
    /// The height in physical pixels.
    pub height: u32,
}

/// A size in logical pixels, held in units of 1/65536 of a logical pixel.
#[derive(Clone, Copy, PartialEq, Eq, Structural, Debug)]
pub struct LogicalSize {
    /// The width in subpixel units.
    pub width: u64,
    /// The height in subpixel units.
    pub height: u64,
}

impl PhysicalSize {
    /// Construct a new physical size from the given width and height.
    pub fn new(width: u32, height: u32) -> (r: Self)
        ensures
            r.width == width,
            r.height == height,
    {
        Self { width, height }
    }

    /// Convert a logical size to a physical size by multiplying width and
    /// height with the scale factor; the result is clamped to the physical
    /// size range.
    pub fn from_logical(logical_size: LogicalSize, scale_factor: ScaleFactor) -> (r: Self)
        requires
            scale_factor.is_valid(),
        ensures
            r.width == clamp_to_u32(
                physical_of_logical(logical_size.width as int, scale_factor.units as int),
            ),
            r.height == clamp_to_u32(
                physical_of_logical(logical_size.height as int, scale_factor.units as int),
            ),
    {
        Self {
            width: physical_extent_of_logical(logical_size.width, scale_factor),
            height: physical_extent_of_logical(logical_size.height, scale_factor),
        }
    }

    /// Convert this physical size to a logical size by dividing width and
    /// height by the scale factor.
    pub fn to_logical(&self, scale_factor: ScaleFactor) -> (r: LogicalSize)
        requires
            scale_factor.is_valid(),
        ensures
            r == LogicalSize::spec_from_physical(*self, scale_factor),
    {
        LogicalSize::from_physical(*self, scale_factor)
    }
}

/// Shared extent conversion: one logical extent (in subpixel units) to
/// whole physical pixels.
pub fn physical_extent_of_logical(l: u64, scale_factor: ScaleFactor) -> (r: u32)
    requires
        scale_factor.is_valid(),
    ensures
        r == clamp_to_u32(physical_of_logical(l as int, scale_factor.units as int)),
{
    proof {
        assert(0 <= (l as int) * (scale_factor.units as int)
            <= 0xffff_ffff_0000_0000_0000_0000) by (nonlinear_arith)
            requires
                0 <= l as int <= 0xffff_ffff_ffff_ffff,
                0 < scale_factor.units as int <= 0xffff_ffff,
        ;
    }
    let v: i128 = round_div_i128((l as i128) * (scale_factor.units as i128), 0x1_0000_0000);
    proof {
        lemma_round_div_range(
            (l as int) * (scale_factor.units as int),
            0x1_0000_0000,
            0,
            0xffff_ffff_ffff_ffff,
        );
    }
    if v > 0xffff_ffff {
        0xffff_ffffu32
    } else {
        v as u32
    }
}

impl LogicalSize {
    /// Construct a new logical size from the given width and height in
    /// subpixel units.
    pub fn new(width: u64, height: u64) -> (r: Self)
        ensures
            r.width == width,
            r.height == height,
    {
        Self { width, height }
    }

    /// Construct a logical size from whole logical pixels.
    pub fn from_pixels(width: u32, height: u32) -> (r: Self)
        ensures
            r.width == width as int * SUBPIXEL_ONE,
            r.height == height as int * SUBPIXEL_ONE,
    {
        Self { width: (width as u64) * 65536, height: (height as u64) * 65536 }
    }

    /// What `from_physical` returns.
    pub open spec fn spec_from_physical(physical_size: PhysicalSize, scale_factor: ScaleFactor) -> LogicalSize {
        LogicalSize {
            width: logical_of_physical(physical_size.width as int, scale_factor.units as int) as u64,
            height: logical_of_physical(physical_size.height as int, scale_factor.units as int) as u64,
        }
    }

    /// Convert a physical size to a logical size by dividing width and
    /// height by the scale factor.
    pub fn from_physical(physical_size: PhysicalSize, scale_factor: ScaleFactor) -> (r: Self)
        requires
            scale_factor.is_valid(),
        ensures
            r == Self::spec_from_physical(physical_size, scale_factor),
            r.width == logical_of_physical(physical_size.width as int, scale_factor.units as int),
            r.height == logical_of_physical(physical_size.height as int, scale_factor.units as int),
    {
        Self {
            width: logical_extent_of_physical(physical_size.width, scale_factor),
            height: logical_extent_of_physical(physical_size.height, scale_factor),
        }
    }

    /// Convert this logical size to a physical size by multiplying width
    /// and height with the scale factor.
    pub fn to_physical(&self, scale_factor: ScaleFactor) -> (r: PhysicalSize)
        requires
            scale_factor.is_valid(),
        ensures
            r.width == clamp_to_u32(physical_of_logical(self.width as int, scale_factor.units as int)),
            r.height == clamp_to_u32(physical_of_logical(self.height as int, scale_factor.units as int)),
    {
        PhysicalSize::from_logical(*self, scale_factor)
    }
}

/// Shared extent conversion: one physical extent to logical.
fn logical_extent_of_physical(p: u32, scale_factor: ScaleFactor) -> (r: u64)
    requires
        scale_factor.is_valid(),
    ensures
        r == logical_of_physical(p as int, scale_factor.units as int),
{
    let a: i128 = (p as i128) * 0x1_0000_0000;
    let v: i128 = round_div_i128(a, scale_factor.units as i128);
    proof {
        lemma_round_div_range(a as int, scale_factor.units as int, 0, 0xffff_ffff_ffff_ffff);
    }
    v as u64
}

/// Clamp an integer into the range of `u64`.
pub open spec fn clamp_to_u64(v: int) -> int {
    if v < 0 {
        0
    } else if v > 0xffff_ffff_ffff_ffff {
        0xffff_ffff_ffff_ffff
    } else {
        v
    }
}

/// Convert a nonnegative physical extent that may exceed the 32-bit pixel
/// range (a measured text width, for instance) to logical subpixel units.
pub fn logical_extent_of_physical_wide(p: i64, scale_factor: ScaleFactor) -> (r: u64)
    requires
        scale_factor.is_valid(),
        0 <= p <= 0x0100_0000_0000_0000,
    ensures
        r == clamp_to_u64(logical_of_physical(p as int, scale_factor.units as int)),
{
    let a: i128 = (p as i128) * 0x1_0000_0000;
    let v: i128 = round_div_i128(a, scale_factor.units as i128);
    proof {
        lemma_round_div_range(
            a as int,
            scale_factor.units as int,
            0,
            0x1_0000_0000_0000_0000_0000_0000,
        );
    }
    if v > 0xffff_ffff_ffff_ffff {
        0xffff_ffff_ffff_ffffu64
    } else {
        v as u64
    }
}

/// The position of a window in either physical or logical pixels.
#[derive(Clone, Copy, PartialEq, Eq, Structural, Debug)]
pub enum WindowPosition {
    /// The position in physical pixels.
    Physical(PhysicalPosition),
    /// The position in logical pixels.
    Logical(LogicalPosition),
}

impl WindowPosition {
    /// Turn the `WindowPosition` into a `PhysicalPosition`.
    pub fn to_physical(&self, scale_factor: ScaleFactor) -> (r: PhysicalPosition)
        requires
            scale_factor.is_valid(),
        ensures
            match *self {
                WindowPosition::Physical(pos) => r == pos,
                WindowPosition::Logical(pos) => {
                    &&& r.x == clamp_to_i32(
                        physical_of_logical(pos.x as int, scale_factor.units as int),
                    )
                    &&& r.y == clamp_to_i32(
                        physical_of_logical(pos.y as int, scale_factor.units as int),
                    )
                },
            },
    {
        match self {
            WindowPosition::Physical(pos) => *pos,
            WindowPosition::Logical(pos) => pos.to_physical(scale_factor),
        }
    }
}

/// The size of a window in either physical or logical pixels.
#[derive(Clone, Copy, PartialEq, Eq, Structural, Debug)]
pub enum WindowSize {
    /// The size in physical pixels.
    Physical(PhysicalSize),
    /// The size in logical pixels.
    Logical(LogicalSize),
}

/// What `WindowSize::to_physical` returns.
pub open spec fn spec_window_size_to_physical(size: WindowSize, scale_factor: ScaleFactor) -> PhysicalSize {
    match size {
        WindowSize::Physical(s) => s,
        WindowSize::Logical(s) => PhysicalSize {
            width: clamp_to_u32(
                physical_of_logical(s.width as int, scale_factor.units as int),
            ) as u32,
            height: clamp_to_u32(
                physical_of_logical(s.height as int, scale_factor.units as int),
            ) as u32,
        },
    }
}

impl WindowSize {
    /// Turn the `WindowSize` into a `PhysicalSize`.
    pub fn to_physical(&self, scale_factor: ScaleFactor) -> (r: PhysicalSize)
        requires
            scale_factor.is_valid(),
        ensures
            r == spec_window_size_to_physical(*self, scale_factor),
            match *self {
                WindowSize::Physical(size) => r == size,
                WindowSize::Logical(size) => {
                    &&& r.width == clamp_to_u32(
                        physical_of_logical(size.width as int, scale_factor.units as int),
                    )
                    &&& r.height == clamp_to_u32(
                        physical_of_logical(size.height as int, scale_factor.units as int),
                    )
                },
            },
    {
        match self {
            WindowSize::Physical(size) => *size,
            WindowSize::Logical(size) => size.to_physical(scale_factor),
        }
    }

    /// Turn the `WindowSize` into a `LogicalSize`.
    pub fn to_logical(&self, scale_factor: ScaleFactor) -> (r: LogicalSize)
        requires
            scale_factor.is_valid(),
        ensures
            match *self {
                WindowSize::Physical(size) => r == LogicalSize::spec_from_physical(
                    size,
                    scale_factor,
                ),
                WindowSize::Logical(size) => r == size,
            },
    {
        match self {
            WindowSize::Physical(size) => size.to_logical(scale_factor),
            WindowSize::Logical(size) => *size,
        }
    }
}

/// The result of the primary laws of this module: converting a physical
/// position to logical with any valid scale factor and back restores it
/// exactly, on both coordinates.
pub proof fn lemma_position_round_trip(p: PhysicalPosition, s: ScaleFactor)
    requires
        s.is_valid(),
    ensures
        clamp_to_i32(
            physical_of_logical(
                logical_of_physical(p.x as int, s.units as int),
                s.units as int,
            ),
        ) == p.x,
        clamp_to_i32(
            physical_of_logical(
                logical_of_physical(p.y as int, s.units as int),
                s.units as int,
            ),
        ) == p.y,
{
    lemma_scale_round_trip(p.x as int, s.units as int);
    lemma_scale_round_trip(p.y as int, s.units as int);
}

/// The same law for sizes: converting a physical size to logical with any
/// valid scale factor and back restores it exactly.
pub proof fn lemma_size_round_trip(p: PhysicalSize, s: ScaleFactor)
    requires
        s.is_valid(),
    ensures
        clamp_to_u32(
            physical_of_logical(
                logical_of_physical(p.width as int, s.units as int),
                s.units as int,
            ),
        ) == p.width,
        clamp_to_u32(
            physical_of_logical(
                logical_of_physical(p.height as int, s.units as int),
                s.units as int,
            ),
        ) == p.height,
{
    lemma_scale_round_trip(p.width as int, s.units as int);
    lemma_scale_round_trip(p.height as int, s.units as int);
}

} // verus!
