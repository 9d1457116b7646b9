use vstd::prelude::*;
use vstd::arithmetic::div_mod::{
    lemma_fundamental_div_mod, lemma_multiply_divide_lt, lemma_mod_pos_bound, lemma_div_pos_is_pos,
};
use crate::table::{classification, classify, Axes, Axis, PixelMapping};
use crate::vote::{majority, most_common};

verus! {

/// Position in the source grid of the `k`-th cell of the window of output
/// cell (`x`, `y`); the window is read row by row.
pub open spec fn cell_index(width: int, scale: int, x: int, y: int, k: int) -> int {
    (y * scale + k / scale) * width + x * scale + k % scale
}

/// The classified values on `axis` of the `scale`×`scale` window of output
/// cell (`x`, `y`), in raster order.
pub open spec fn axis_window(
    codes: Seq<u16>,
    width: int,
    scale: int,
    threshold: u16,
    table: Seq<PixelMapping>,
    axis: Axis,
    x: int,
    y: int,
) -> Seq<u16> {
    Seq::new(
        (scale * scale) as nat,
        |k: int| classification(codes[cell_index(width, scale, x, y, k)], threshold, table).at(axis),
    )
}

/// The four majority votes of the window of output cell (`x`, `y`).
pub open spec fn cell_votes(
    codes: Seq<u16>,
    width: int,
    scale: int,
    threshold: u16,
    table: Seq<PixelMapping>,
    x: int,
    y: int,
) -> Axes {
    Axes {
        terrain: majority(axis_window(codes, width, scale, threshold, table, Axis::Terrain, x, y)),
        vegetation: majority(axis_window(codes, width, scale, threshold, table, Axis::Vegetation, x, y)),
        temperature: majority(axis_window(codes, width, scale, threshold, table, Axis::Temperature, x, y)),
        moisture: majority(axis_window(codes, width, scale, threshold, table, Axis::Moisture, x, y)),
    }
}

/// The votes of the `out_width` output cells of row `y`.
pub open spec fn row_votes(
    codes: Seq<u16>,
    width: int,
    scale: int,
    threshold: u16,
    table: Seq<PixelMapping>,
    out_width: int,
    y: int,
) -> Seq<Axes> {
    Seq::new(out_width as nat, |x: int| cell_votes(codes, width, scale, threshold, table, x, y))
}

/// A grid of `width`×`height` codes stored row by row.
pub open spec fn grid_shape(codes: Seq<u16>, width: int, height: int) -> bool {
    codes.len() == width * height && width >= 0 && height >= 0
}

/// Every cell of a window of an output cell lies inside the source grid,
/// and the window is no larger than the grid.
pub proof fn lemma_window_in_grid(width: int, height: int, scale: int, x: int, y: int, k: int)
    requires
        width >= 0,
        height >= 0,
        scale > 0,
        0 <= x < width / scale,
        0 <= y < height / scale,
        0 <= k < scale * scale,
    ensures
        0 <= y * scale + k / scale < height,
        0 <= x * scale + k % scale < width,
        0 <= cell_index(width, scale, x, y, k) < width * height,
        scale * scale <= width * height,
{
    lemma_multiply_divide_lt(k, scale, scale);
    lemma_div_pos_is_pos(k, scale);
    lemma_mod_pos_bound(k, scale);
    lemma_fundamental_div_mod(width, scale);
    lemma_fundamental_div_mod(height, scale);
    lemma_mod_pos_bound(width, scale);
    lemma_mod_pos_bound(height, scale);
    let dy = k / scale;
    let dx = k % scale;
    let qw = width / scale;
    let qh = height / scale;
    assert(x * scale + dx < width) by (nonlinear_arith)
        requires
            0 <= dx < scale,
            x + 1 <= qw,
            width == scale * qw + width % scale,
            0 <= width % scale,
    {
        assert((x + 1) * scale <= qw * scale);
    }
    assert(y * scale + dy < height) by (nonlinear_arith)
        requires
            0 <= dy < scale,
            y + 1 <= qh,
            height == scale * qh + height % scale,
            0 <= height % scale,
    {
        assert((y + 1) * scale <= qh * scale);
    }
    let row = y * scale + dy;
    let col = x * scale + dx;
    assert(0 <= y * scale) by (nonlinear_arith)
        requires
            y >= 0,
            scale > 0,
    ;
    assert(0 <= x * scale) by (nonlinear_arith)
        requires
            x >= 0,
            scale > 0,
    ;
    assert(0 <= row * width + col < width * height) by (nonlinear_arith)
        requires
            0 <= row < height,
            0 <= col < width,
    {
        assert(row * width + col < (row + 1) * width);
        assert((row + 1) * width <= height * width);
    }
    assert(scale <= width && scale <= height) by (nonlinear_arith)
        requires
            scale > 0,
            qw >= 1,
            qh >= 1,
            width == scale * qw + width % scale,
            0 <= width % scale,
            height == scale * qh + height % scale,
            0 <= height % scale,
    {
        assert(scale * qw >= scale);
        assert(scale * qh >= scale);
    }
    assert(scale * scale <= width * height) by (nonlinear_arith)
        requires
            scale <= width,
            scale <= height,
            scale > 0,
    {
        assert(scale * scale <= width * scale);
        assert(width * scale <= width * height);
    }
}

/// Classifies the window of output cell (`x`, `y`) and takes the majority
/// vote on each axis.
pub fn aggregate_window(
    codes: &[u16],
    width: u32,
    height: u32,
    scale: u32,
    threshold: u16,
    mappings: &[PixelMapping],
    x: u32,
    y: u32,
) -> (r: Axes)
    requires
        grid_shape(codes@, width as int, height as int),
        scale > 0,
        x < width / scale,
        y < height / scale,
    ensures
        r == cell_votes(codes@, width as int, scale as int, threshold, mappings@, x as int, y as int),
{
    let ghost w = width as int;
    let ghost s = scale as int;
    proof {
        assert(0 < s * s) by (nonlinear_arith)
            requires
                s > 0,
        ;
        lemma_window_in_grid(w, height as int, s, x as int, y as int, 0);
    }
    let len: usize = codes.len();
    let n: usize = (scale as usize) * (scale as usize);
    let mut terrain: Vec<u16> = Vec::new();
    let mut vegetation: Vec<u16> = Vec::new();
    let mut temperature: Vec<u16> = Vec::new();
    let mut moisture: Vec<u16> = Vec::new();
    let mut k: usize = 0;
    while k < n
        invariant
            grid_shape(codes@, width as int, height as int),
            w == width as int,
            s == scale as int,
            s > 0,
            x < width / scale,
            y < height / scale,
            n == s * s,
            len == codes@.len(),
            k <= n,
            terrain@ =~= axis_window(codes@, w, s, threshold, mappings@, Axis::Terrain, x as int, y as int).take(k as int),
            vegetation@ =~= axis_window(codes@, w, s, threshold, mappings@, Axis::Vegetation, x as int, y as int).take(k as int),
            temperature@ =~= axis_window(codes@, w, s, threshold, mappings@, Axis::Temperature, x as int, y as int).take(k as int),
            moisture@ =~= axis_window(codes@, w, s, threshold, mappings@, Axis::Moisture, x as int, y as int).take(k as int),
        decreases n - k,
    {
        proof {
            lemma_window_in_grid(w, height as int, s, x as int, y as int, k as int);
        }
        let dy: usize = k / (scale as usize);
        let dx: usize = k % (scale as usize);
        let row: usize = (y as usize) * (scale as usize) + dy;
        let col: usize = (x as usize) * (scale as usize) + dx;
        let idx: usize = row * (width as usize) + col;
        let a = classify(codes[idx], threshold, mappings);
        terrain.push(a.terrain);
        vegetation.push(a.vegetation);
        temperature.push(a.temperature);
        moisture.push(a.moisture);
        k = k + 1;
    }
    let ghost full = n as int;
    assert(axis_window(codes@, w, s, threshold, mappings@, Axis::Terrain, x as int, y as int).take(full)
        =~= axis_window(codes@, w, s, threshold, mappings@, Axis::Terrain, x as int, y as int));
    assert(axis_window(codes@, w, s, threshold, mappings@, Axis::Vegetation, x as int, y as int).take(full)
        =~= axis_window(codes@, w, s, threshold, mappings@, Axis::Vegetation, x as int, y as int));
    assert(axis_window(codes@, w, s, threshold, mappings@, Axis::Temperature, x as int, y as int).take(full)
        =~= axis_window(codes@, w, s, threshold, mappings@, Axis::Temperature, x as int, y as int));
    assert(axis_window(codes@, w, s, threshold, mappings@, Axis::Moisture, x as int, y as int).take(full)
        =~= axis_window(codes@, w, s, threshold, mappings@, Axis::Moisture, x as int, y as int));
    Axes {
        terrain: most_common(terrain.as_slice()),
        vegetation: most_common(vegetation.as_slice()),
        temperature: most_common(temperature.as_slice()),
        moisture: most_common(moisture.as_slice()),
    }
}

} // verus!
