use vstd::prelude::*;

verus! {

/// A length: in pixels, or as a percentage of the parent's.
#[derive(Clone, Copy, Debug, PartialEq, Eq, Structural)]
pub enum SizeUnit {
    Pixel(u32),
    Percentage(u32),
}

impl SizeUnit {
    pub fn pix(w: u32, h: u32) -> (r: (SizeUnit, SizeUnit))
        ensures
            r == (SizeUnit::Pixel(w), SizeUnit::Pixel(h)),
    {
        (SizeUnit::Pixel(w), SizeUnit::Pixel(h))
    }

    pub fn percentage(w: u32, h: u32) -> (r: (SizeUnit, SizeUnit))
        ensures
            r == (SizeUnit::Percentage(w), SizeUnit::Percentage(h)),
    {
        (SizeUnit::Percentage(w), SizeUnit::Percentage(h))
    }
}

/// Where a component sits: offset from its place in the flow, or at a fixed place.
#[derive(Debug, Clone, Copy, PartialEq, Eq, Structural)]
pub enum Position {
    Relative(SizeUnit, SizeUnit),
    Fixed(SizeUnit, SizeUnit),
}

impl Default for Position {
    fn default() -> (r: Position)
        ensures
            r == Position::Relative(SizeUnit::Pixel(0), SizeUnit::Pixel(0)),
    {
        Position::Relative(SizeUnit::Pixel(0), SizeUnit::Pixel(0))
    }
}

/// A fixed position at offsets `ml` and `mr`, in the same kind of unit as `unit`.
pub fn p_fixed(ml: u32, mr: u32, unit: SizeUnit) -> (r: Position)
    ensures
        r == match unit {
            SizeUnit::Pixel(_) => Position::Fixed(SizeUnit::Pixel(ml), SizeUnit::Pixel(mr)),
            SizeUnit::Percentage(_) => Position::Fixed(SizeUnit::Percentage(ml), SizeUnit::Percentage(mr)),
        },
{
    let sz = match unit {
        SizeUnit::Pixel(_) => (SizeUnit::Pixel(ml), SizeUnit::Pixel(mr)),
        SizeUnit::Percentage(_) => (SizeUnit::Percentage(ml), SizeUnit::Percentage(mr)),
    };
    Position::Fixed(sz.0, sz.1)
}

/// The pixels that `unit` stands for inside a parent of `parent` pixels.
pub open spec fn spec_pix(parent: u32, unit: SizeUnit) -> int {
    match unit {
        SizeUnit::Pixel(v) => v as int,
        SizeUnit::Percentage(p) => (p * parent) / 100,
    }
}

/// A percentage of the parent can be computed in `u32`.
pub open spec fn pix_computable(parent: u32, unit: SizeUnit) -> bool {
    match unit {
        SizeUnit::Pixel(_) => true,
        SizeUnit::Percentage(p) => p * parent <= u32::MAX,
    }
}

fn pix_from_parent(parent: u32, unit: SizeUnit) -> (r: u32)
    requires
        pix_computable(parent, unit),
    ensures
        r == spec_pix(parent, unit),
{
    match unit {
        SizeUnit::Pixel(value) => value,
        SizeUnit::Percentage(percentage) => (percentage * parent) / 100,
    }
}

/// The size in pixels of a component sized `value` inside a parent of `parent_pix`.
pub fn calculate_pix_from_parent(parent_pix: (u32, u32), value: (SizeUnit, SizeUnit)) -> (r: (u32, u32))
    requires
        pix_computable(parent_pix.0, value.0),
        pix_computable(parent_pix.1, value.1),
    ensures
        r.0 == spec_pix(parent_pix.0, value.0),
        r.1 == spec_pix(parent_pix.1, value.1),
{
    (pix_from_parent(parent_pix.0, value.0), pix_from_parent(parent_pix.1, value.1))
}

/// Something the interface tree can hold and draw.
pub trait Composable {

}

/// An image that is decoded only when first drawn.
pub struct LazyImage {}

} // verus!
