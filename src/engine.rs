use vstd::prelude::*;
use rayon::iter::{IndexedParallelIterator, IntoParallelIterator, ParallelIterator};
use crate::palette::{color_for, palette, Rgb};
use crate::table::{max_code, max_of, Axes, Axis, PixelMapping};
use crate::window::{aggregate_window, cell_votes, grid_shape, row_votes};

verus! {

/// Why a conversion was refused.
#[derive(Clone, Copy, Debug, PartialEq, Eq, Structural)]
pub enum DownscaleError {
    /// The scale factor is 0.
    ZeroScale,
    /// The number of codes is not width × height.
    SizeMismatch,
}

/// The four colour maps of a conversion, each a grid of `height` rows of
/// `width` pixels.
#[derive(Clone, Debug)]
pub struct ClassMaps {
    pub width: u32,
    pub height: u32,
    pub terrain: Vec<Vec<Rgb>>,
    pub vegetation: Vec<Vec<Rgb>>,
    pub temperature: Vec<Vec<Rgb>>,
    pub moisture: Vec<Vec<Rgb>>,
}

/// The colour of output cell (`x`, `y`) on `axis`: the palette colour of
/// the majority vote of its window, the no-data threshold being the
/// largest code of the grid.
pub open spec fn output_color(
    codes: Seq<u16>,
    width: int,
    scale: int,
    table: Seq<PixelMapping>,
    axis: Axis,
    x: int,
    y: int,
) -> Rgb {
    palette(axis, cell_votes(codes, width, scale, max_of(codes), table, x, y).at(axis))
}

/// The rows of a layer with the given votes, painted on `axis`.
pub open spec fn painted(votes: Seq<Vec<Axes>>, axis: Axis) -> Seq<Seq<Rgb>> {
    votes.map_values(|row: Vec<Axes>| row@.map_values(|a: Axes| palette(axis, a.at(axis))))
}

impl ClassMaps {
    pub open spec fn layer(self, axis: Axis) -> Seq<Vec<Rgb>> {
        match axis {
            Axis::Terrain => self.terrain@,
            Axis::Vegetation => self.vegetation@,
            Axis::Temperature => self.temperature@,
            Axis::Moisture => self.moisture@,
        }
    }

    /// These maps are the conversion of the `width`×`height` grid `codes`
    /// with `table` at `scale`: `width / scale` × `height / scale` pixels
    /// (a partial trailing window is dropped), each of the colour that
    /// `output_color` gives.
    pub open spec fn depicts(
        self,
        codes: Seq<u16>,
        width: int,
        height: int,
        scale: int,
        table: Seq<PixelMapping>,
    ) -> bool {
        &&& self.width == width / scale
        &&& self.height == height / scale
        &&& forall|axis: Axis| #[trigger] self.layer(axis).len() == self.height
        &&& forall|axis: Axis, y: int|
            0 <= y < self.height ==> #[trigger] self.layer(axis)[y]@.len() == self.width
        &&& forall|axis: Axis, x: int, y: int|
            0 <= x < self.width && 0 <= y < self.height ==> #[trigger] self.layer(axis)[y]@[x]
                == output_color(codes, width, scale, table, axis, x, y)
    }
}

/// The votes of every output cell of row `y`.
pub fn aggregate_row(
    codes: &[u16],
    width: u32,
    height: u32,
    scale: u32,
    threshold: u16,
    mappings: &[PixelMapping],
    y: u32,
) -> (r: Vec<Axes>)
    requires
        grid_shape(codes@, width as int, height as int),
        scale > 0,
        y < height / scale,
    ensures
        r@ == row_votes(codes@, width as int, scale as int, threshold, mappings@, (width / scale) as int, y as int),
{
    let out_width: u32 = width / scale;
    let mut row: Vec<Axes> = Vec::new();
    let mut x: u32 = 0;
    while x < out_width
        invariant
            grid_shape(codes@, width as int, height as int),
            scale > 0,
            y < height / scale,
            out_width == width / scale,
            x <= out_width,
            row@ =~= row_votes(codes@, width as int, scale as int, threshold, mappings@, out_width as int, y as int).take(x as int),
        decreases out_width - x,
    {
        let a = aggregate_window(codes, width, height, scale, threshold, mappings, x, y);
        row.push(a);
        x = x + 1;
    }
    assert(row_votes(codes@, width as int, scale as int, threshold, mappings@, out_width as int, y as int).take(out_width as int)
        =~= row_votes(codes@, width as int, scale as int, threshold, mappings@, out_width as int, y as int));
    row
}

/// Relies on rayon's `collect_into_vec` over the indexed parallel iterator
/// of `0..out_height`: the result holds one item per index, in index order,
/// here the row that `aggregate_row` returns for that index.
#[verifier::external_body]
fn par_rows(
    codes: &[u16],
    width: u32,
    height: u32,
    scale: u32,
    threshold: u16,
    mappings: &[PixelMapping],
    out_height: u32,
) -> (r: Vec<Vec<Axes>>)
    requires
        grid_shape(codes@, width as int, height as int),
        scale > 0,
        out_height == height / scale,
    ensures
        r@.len() == out_height,
        forall|y: int| 0 <= y < out_height ==> #[trigger] r@[y]@
            == row_votes(codes@, width as int, scale as int, threshold, mappings@, (width / scale) as int, y),
{
    let mut rows: Vec<Vec<Axes>> = Vec::new();
    (0..out_height).into_par_iter()
        .map(|y| aggregate_row(codes, width, height, scale, threshold, mappings, y))
        .collect_into_vec(&mut rows);
    rows
}

/// Paints one row of votes on `axis`.
pub fn paint_row(votes: &Vec<Axes>, axis: Axis) -> (r: Vec<Rgb>)
    ensures
        r@ == votes@.map_values(|a: Axes| palette(axis, a.at(axis))),
{
    let mut out: Vec<Rgb> = Vec::new();
    let mut i: usize = 0;
    while i < votes.len()
        invariant
            i <= votes@.len(),
            out@ =~= votes@.map_values(|a: Axes| palette(axis, a.at(axis))).take(i as int),
        decreases votes@.len() - i,
    {
        out.push(color_for(axis, votes[i].get(axis)));
        i = i + 1;
    }
    assert(votes@.map_values(|a: Axes| palette(axis, a.at(axis))).take(i as int)
        =~= votes@.map_values(|a: Axes| palette(axis, a.at(axis))));
    out
}

/// Paints every row of votes on `axis`.
pub fn paint_layer(votes: &Vec<Vec<Axes>>, axis: Axis) -> (r: Vec<Vec<Rgb>>)
    ensures
        r@.len() == votes@.len(),
        forall|y: int| 0 <= y < votes@.len() ==> #[trigger] r@[y]@ == painted(votes@, axis)[y],
{
    let mut out: Vec<Vec<Rgb>> = Vec::new();
    let mut i: usize = 0;
    while i < votes.len()
        invariant
            i <= votes@.len(),
            out@.len() == i,
            forall|y: int| 0 <= y < i ==> #[trigger] out@[y]@ == painted(votes@, axis)[y],
        decreases votes@.len() - i,
    {
        let row = paint_row(&votes[i], axis);
        out.push(row);
        i = i + 1;
    }
    out
}

/// Converts the `width`×`height` grid `src_pixels` (row by row) into the
/// four colour maps at `scale`. Refuses a zero scale, then a grid whose
/// length is not `width * height`; otherwise the maps are exactly those
/// that `ClassMaps::depicts` describes.
pub fn set_pixels(
    src_pixels: &[u16],
    mappings: &[PixelMapping],
    scale: u32,
    width: u32,
    height: u32,
) -> (r: Result<ClassMaps, DownscaleError>)
    ensures
        scale == 0 ==> r == Err::<ClassMaps, DownscaleError>(DownscaleError::ZeroScale),
        scale > 0 && src_pixels@.len() != width as int * height as int ==> r == Err::<ClassMaps, DownscaleError>(DownscaleError::SizeMismatch),
        r is Ok <==> scale > 0 && src_pixels@.len() == width as int * height as int,
        r matches Ok(m) ==> m.depicts(src_pixels@, width as int, height as int, scale as int, mappings@),
{
    if scale == 0 {
        return Err(DownscaleError::ZeroScale);
    }
    assert((width as u64) * (height as u64) <= u64::MAX) by (nonlinear_arith)
        requires
            width <= u32::MAX,
            height <= u32::MAX,
    {
        assert(width as int * height as int <= u32::MAX as int * u32::MAX as int);
    }
    if src_pixels.len() as u64 != (width as u64) * (height as u64) {
        return Err(DownscaleError::SizeMismatch);
    }
    let threshold = max_code(src_pixels);
    let out_width = width / scale;
    let out_height = height / scale;
    let votes = par_rows(src_pixels, width, height, scale, threshold, mappings, out_height);
    let terrain = paint_layer(&votes, Axis::Terrain);
    let vegetation = paint_layer(&votes, Axis::Vegetation);
    let temperature = paint_layer(&votes, Axis::Temperature);
    let moisture = paint_layer(&votes, Axis::Moisture);
    let maps = ClassMaps { width: out_width, height: out_height, terrain, vegetation, temperature, moisture };
    proof {
        let codes = src_pixels@;
        assert forall|axis: Axis, x: int, y: int|
            0 <= x < maps.width && 0 <= y < maps.height implies #[trigger] maps.layer(axis)[y]@[x]
                == output_color(codes, width as int, scale as int, mappings@, axis, x, y)
                by {
            assert(votes@[y]@[x] == cell_votes(codes, width as int, scale as int, threshold, mappings@, x, y));
        }
    }
    Ok(maps)
}

} // verus!
