use vstd::prelude::*;
use vstd::multiset::Multiset;
use vstd::arithmetic::div_mod::{
    lemma_fundamental_div_mod, lemma_fundamental_div_mod_converse, lemma_multiply_divide_lt,
    lemma_mod_pos_bound,
};
use crate::engine::{output_color, ClassMaps};
use crate::palette::{palette, unclassified_color};
use crate::table::{classification, max_of, Axes, Axis, PixelMapping};
use crate::vote::{count, lemma_majority_is_maximal, majority, scan_mode};
use crate::window::{axis_window, cell_index, cell_votes, grid_shape, lemma_window_in_grid};

verus! {

/// The count of a value in a sequence is its multiplicity in the
/// sequence's multiset.
pub proof fn lemma_count_is_multiplicity(s: Seq<u16>, v: u16)
    ensures
        count(s, v) == s.to_multiset().count(v),
    decreases s.len(),
{
    broadcast use vstd::multiset::group_multiset_axioms;
    broadcast use vstd::seq_lib::group_seq_properties;
    if s.len() == 0 {
        assert(s =~= Seq::<u16>::empty());
        assert(s.to_multiset() =~= Multiset::empty());
    } else {
        let p = s.drop_last();
        lemma_count_is_multiplicity(p, v);
        p.to_multiset_ensures();
        assert(p.push(s.last()) =~= s);
    }
}

/// A window whose values are all `v` votes `v`.
pub proof fn lemma_majority_of_constant(s: Seq<u16>, v: u16)
    requires
        s.len() > 0,
        forall|i: int| 0 <= i < s.len() ==> s[i] == v,
    ensures
        majority(s) == v,
    decreases s.len(),
{
    let p = s.drop_last();
    assert(s.last() == s[s.len() - 1]);
    if p.len() > 0 {
        lemma_majority_of_constant(p, v);
        lemma_majority_is_maximal(p);
    } else {
        assert(count(p, v) == 0);
        assert(count(s, s.last()) == 1);
    }
}

/// A value with a strict plurality in a window is its majority vote, and
/// stays so however the window is reordered.
pub proof fn lemma_plurality_ignores_order(s1: Seq<u16>, s2: Seq<u16>, v: u16)
    requires
        s1.to_multiset() == s2.to_multiset(),
        forall|w: u16| w != v ==> count(s1, w) < count(s1, v),
    ensures
        majority(s1) == v,
        majority(s2) == v,
{
    assert forall|w: u16| #[trigger] count(s2, w) == count(s1, w) by {
        lemma_count_is_multiplicity(s1, w);
        lemma_count_is_multiplicity(s2, w);
    }
    lemma_majority_is_maximal(s1);
    lemma_majority_is_maximal(s2);
    let r1 = scan_mode(s1).0;
    let r2 = scan_mode(s2).0;
    if r1 != v {
        assert(count(s1, r1) < count(s1, v));
    }
    assert(count(s2, v) <= scan_mode(s2).1);
    assert(count(s1, v) <= scan_mode(s1).1);
    if r2 != v {
        assert(count(s2, r2) == count(s1, r2));
        assert(count(s1, r2) < count(s1, v));
    }
}

/// At scale 1 each output cell is the classification of its own source
/// cell: the window holds that cell alone.
pub proof fn lemma_unit_scale_classifies(
    codes: Seq<u16>,
    width: int,
    height: int,
    table: Seq<PixelMapping>,
    axis: Axis,
    x: int,
    y: int,
)
    requires
        grid_shape(codes, width, height),
        0 <= x < width,
        0 <= y < height,
    ensures
        width / 1 == width,
        height / 1 == height,
        cell_votes(codes, width, 1, max_of(codes), table, x, y)
            == classification(codes[y * width + x], max_of(codes), table),
        output_color(codes, width, 1, table, axis, x, y)
            == palette(axis, classification(codes[y * width + x], max_of(codes), table).at(axis)),
{
    let t = max_of(codes);
    let a = classification(codes[y * width + x], t, table);
    assert(cell_index(width, 1, x, y, 0) == y * width + x);
    assert forall|ax: Axis| majority(#[trigger] axis_window(codes, width, 1, t, table, ax, x, y)) == a.at(ax) by {
        lemma_majority_of_constant(axis_window(codes, width, 1, t, table, ax, x, y), a.at(ax));
    }
    assert(majority(axis_window(codes, width, 1, t, table, Axis::Terrain, x, y)) == a.terrain);
    assert(majority(axis_window(codes, width, 1, t, table, Axis::Vegetation, x, y)) == a.vegetation);
    assert(majority(axis_window(codes, width, 1, t, table, Axis::Temperature, x, y)) == a.temperature);
    assert(majority(axis_window(codes, width, 1, t, table, Axis::Moisture, x, y)) == a.moisture);
}

/// A code at or above the no-data threshold is unclassified on every axis,
/// and the unclassified value has the unclassified colour on every axis.
pub proof fn lemma_high_code_unclassified(code: u16, threshold: u16, table: Seq<PixelMapping>, axis: Axis)
    requires
        code >= threshold,
    ensures
        classification(code, threshold, table) == Axes::unclassified(),
        palette(axis, classification(code, threshold, table).at(axis)) == unclassified_color(),
{
}

/// An output cell whose whole window holds codes at or above the grid's
/// largest code has the unclassified colour on every axis.
pub proof fn lemma_high_window_unclassified(
    codes: Seq<u16>,
    width: int,
    height: int,
    scale: int,
    table: Seq<PixelMapping>,
    axis: Axis,
    x: int,
    y: int,
)
    requires
        grid_shape(codes, width, height),
        scale > 0,
        0 <= x < width / scale,
        0 <= y < height / scale,
        forall|k: int| 0 <= k < scale * scale ==> codes[#[trigger] cell_index(width, scale, x, y, k)] >= max_of(codes),
    ensures
        output_color(codes, width, scale, table, axis, x, y) == unclassified_color(),
{
    let t = max_of(codes);
    let s = axis_window(codes, width, scale, t, table, axis, x, y);
    assert(0 < scale * scale) by (nonlinear_arith)
        requires
            scale > 0,
    ;
    assert forall|i: int| 0 <= i < s.len() implies s[i] == 0 by {
        assert(codes[cell_index(width, scale, x, y, i)] >= t);
    }
    lemma_majority_of_constant(s, 0);
    assert(cell_votes(codes, width, scale, t, table, x, y).at(axis) == majority(s));
}

/// Two conversions of the same grid with the same table and scale give
/// identical maps, pixel for pixel.
pub proof fn lemma_conversion_deterministic(
    a: ClassMaps,
    b: ClassMaps,
    codes: Seq<u16>,
    width: int,
    height: int,
    scale: int,
    table: Seq<PixelMapping>,
)
    requires
        a.depicts(codes, width, height, scale, table),
        b.depicts(codes, width, height, scale, table),
    ensures
        a.width == b.width,
        a.height == b.height,
        forall|axis: Axis, y: int| 0 <= y < a.height ==> #[trigger] a.layer(axis)[y]@ == b.layer(axis)[y]@,
{
    assert forall|axis: Axis, y: int| 0 <= y < a.height implies #[trigger] a.layer(axis)[y]@ == b.layer(axis)[y]@ by {
        assert(a.layer(axis)[y]@ =~= b.layer(axis)[y]@);
    }
}

/// Distinct window positions never share a source cell: no source cell is
/// read for two output cells, nor twice for one.
pub proof fn lemma_windows_disjoint(
    width: int,
    height: int,
    scale: int,
    x1: int,
    y1: int,
    k1: int,
    x2: int,
    y2: int,
    k2: int,
)
    requires
        width >= 0,
        height >= 0,
        scale > 0,
        0 <= x1 < width / scale,
        0 <= y1 < height / scale,
        0 <= k1 < scale * scale,
        0 <= x2 < width / scale,
        0 <= y2 < height / scale,
        0 <= k2 < scale * scale,
        cell_index(width, scale, x1, y1, k1) == cell_index(width, scale, x2, y2, k2),
    ensures
        x1 == x2 && y1 == y2 && k1 == k2,
{
    lemma_window_in_grid(width, height, scale, x1, y1, k1);
    lemma_window_in_grid(width, height, scale, x2, y2, k2);
    lemma_multiply_divide_lt(k1, scale, scale);
    lemma_multiply_divide_lt(k2, scale, scale);
    lemma_mod_pos_bound(k1, scale);
    lemma_mod_pos_bound(k2, scale);
    let idx = cell_index(width, scale, x1, y1, k1);
    let r1 = y1 * scale + k1 / scale;
    let r2 = y2 * scale + k2 / scale;
    let c1 = x1 * scale + k1 % scale;
    let c2 = x2 * scale + k2 % scale;
    lemma_fundamental_div_mod_converse(idx, width, r1, c1);
    lemma_fundamental_div_mod_converse(idx, width, r2, c2);
    assert(y1 * scale == scale * y1 && y2 * scale == scale * y2 && x1 * scale == scale * x1 && x2 * scale == scale * x2) by (nonlinear_arith);
    lemma_fundamental_div_mod_converse(r1, scale, y1, k1 / scale);
    lemma_fundamental_div_mod_converse(r1, scale, y2, k2 / scale);
    lemma_fundamental_div_mod_converse(c1, scale, x1, k1 % scale);
    lemma_fundamental_div_mod_converse(c1, scale, x2, k2 % scale);
    lemma_fundamental_div_mod(k1, scale);
    lemma_fundamental_div_mod(k2, scale);
}

/// When `scale` divides both sides of the grid, the output is exactly
/// `width / scale` × `height / scale` and every source cell lies in the
/// window of one output cell (by `lemma_windows_disjoint`, of only one).
pub proof fn lemma_exact_tiling(width: int, height: int, scale: int, sx: int, sy: int)
    requires
        width >= 0,
        height >= 0,
        scale > 0,
        width % scale == 0,
        height % scale == 0,
        0 <= sx < width,
        0 <= sy < height,
    ensures
        (width / scale) * scale == width,
        (height / scale) * scale == height,
        0 <= sx / scale < width / scale,
        0 <= sy / scale < height / scale,
        0 <= (sy % scale) * scale + sx % scale < scale * scale,
        cell_index(width, scale, sx / scale, sy / scale, (sy % scale) * scale + sx % scale) == sy * width + sx,
{
    lemma_fundamental_div_mod(width, scale);
    lemma_fundamental_div_mod(height, scale);
    lemma_fundamental_div_mod(sx, scale);
    lemma_fundamental_div_mod(sy, scale);
    lemma_mod_pos_bound(sx, scale);
    lemma_mod_pos_bound(sy, scale);
    assert((width / scale) * scale == width && (height / scale) * scale == height) by (nonlinear_arith)
        requires
            width == scale * (width / scale) + width % scale,
            height == scale * (height / scale) + height % scale,
            width % scale == 0,
            height % scale == 0,
    ;
    lemma_multiply_divide_lt(sx, scale, width / scale);
    lemma_multiply_divide_lt(sy, scale, height / scale);
    assert(0 <= sx / scale && 0 <= sy / scale) by (nonlinear_arith)
        requires
            sx == scale * (sx / scale) + sx % scale,
            sy == scale * (sy / scale) + sy % scale,
            sx % scale < scale,
            sy % scale < scale,
            sx >= 0,
            sy >= 0,
            scale > 0,
    ;
    let dy = sy % scale;
    let dx = sx % scale;
    let k = dy * scale + dx;
    assert(0 <= k < scale * scale) by (nonlinear_arith)
        requires
            0 <= dy < scale,
            0 <= dx < scale,
            k == dy * scale + dx,
    {
        assert(dy * scale <= (scale - 1) * scale);
    }
    lemma_fundamental_div_mod_converse(k, scale, dy, dx);
    assert(sy / scale * scale + dy == sy && sx / scale * scale + dx == sx) by (nonlinear_arith)
        requires
            sx == scale * (sx / scale) + dx,
            sy == scale * (sy / scale) + dy,
    ;
}

} // verus!
