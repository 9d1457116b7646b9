use vstd::prelude::*;
use crate::table::Axis;

verus! {

/// An 8-bit RGB colour.
#[derive(Clone, Copy, Debug, PartialEq, Eq, Structural)]
pub struct Rgb {
    pub r: u8,
    pub g: u8,
    pub b: u8,
}

pub open spec fn rgb(r: u8, g: u8, b: u8) -> Rgb {
    Rgb { r, g, b }
}

/// The colour of every value that a palette does not list.
pub open spec fn unclassified_color() -> Rgb {
    rgb(35, 137, 218)
}

/// The fixed palettes, one per axis; each is total.
pub open spec fn palette(axis: Axis, value: u16) -> Rgb {
    match axis {
        Axis::Terrain => match value {
            1 => rgb(128, 128, 128),
            2 => rgb(139, 69, 19),
            3 => rgb(232, 193, 148),
            4 => rgb(98, 188, 47),
            _ => unclassified_color(),
        },
        Axis::Vegetation => match value {
            1 => rgb(0, 128, 0),
            2 => rgb(139, 69, 19),
            3 => rgb(0, 128, 0),
            4 => rgb(0, 255, 0),
            5 => rgb(255, 0, 0),
            6 => rgb(128, 128, 128),
            8 => rgb(255, 255, 255),
            _ => unclassified_color(),
        },
        Axis::Temperature => match value {
            1 => rgb(0, 0, 255),
            2 => rgb(0, 128, 255),
            3 => rgb(0, 255, 255),
            4 => rgb(255, 255, 0),
            5 => rgb(255, 0, 0),
            6 => rgb(255, 255, 255),
            _ => unclassified_color(),
        },
        Axis::Moisture => match value {
            1 => rgb(255, 255, 0),
            2 => rgb(255, 128, 0),
            3 => rgb(0, 255, 0),
            _ => unclassified_color(),
        },
    }
}

/// The colour of `value` on `axis`.
pub fn color_for(axis: Axis, value: u16) -> (c: Rgb)
    ensures
        c == palette(axis, value),
{
    match axis {
        Axis::Terrain => match value {
            1 => Rgb { r: 128, g: 128, b: 128 },
            2 => Rgb { r: 139, g: 69, b: 19 },
            3 => Rgb { r: 232, g: 193, b: 148 },
            4 => Rgb { r: 98, g: 188, b: 47 },
            _ => Rgb { r: 35, g: 137, b: 218 },
        },
        Axis::Vegetation => match value {
            1 => Rgb { r: 0, g: 128, b: 0 },
            2 => Rgb { r: 139, g: 69, b: 19 },
            3 => Rgb { r: 0, g: 128, b: 0 },
            4 => Rgb { r: 0, g: 255, b: 0 },
            5 => Rgb { r: 255, g: 0, b: 0 },
            6 => Rgb { r: 128, g: 128, b: 128 },
            8 => Rgb { r: 255, g: 255, b: 255 },
            _ => Rgb { r: 35, g: 137, b: 218 },
        },
        Axis::Temperature => match value {
            1 => Rgb { r: 0, g: 0, b: 255 },
            2 => Rgb { r: 0, g: 128, b: 255 },
            3 => Rgb { r: 0, g: 255, b: 255 },
            4 => Rgb { r: 255, g: 255, b: 0 },
            5 => Rgb { r: 255, g: 0, b: 0 },
            6 => Rgb { r: 255, g: 255, b: 255 },
            _ => Rgb { r: 35, g: 137, b: 218 },
        },
        Axis::Moisture => match value {
            1 => Rgb { r: 255, g: 255, b: 0 },
            2 => Rgb { r: 255, g: 128, b: 0 },
            3 => Rgb { r: 0, g: 255, b: 0 },
            _ => Rgb { r: 35, g: 137, b: 218 },
        },
    }
}

} // verus!
