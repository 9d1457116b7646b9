//! Downscales a raster of land-classification codes into four coarse
//! colour maps (terrain, vegetation, temperature, moisture) by majority
//! vote over square windows of source cells.

mod engine;
mod laws;
mod palette;
mod table;
mod vote;
mod window;

pub use palette::{color_for, palette, rgb, unclassified_color, Rgb};
pub use table::{
    classification, classify, column_named, column_of_name, lookup, map_pixel, mapping_from_fields,
    max_code, max_of, row_of_fields, with_column, Axes, Axis, Column, PixelMapping,
};
pub use vote::{count, lemma_majority_is_maximal, majority, most_common, scan_mode};
pub use window::{
    aggregate_window, axis_window, cell_index, cell_votes, grid_shape, lemma_window_in_grid,
    row_votes,
};
pub use engine::{
    aggregate_row, output_color, paint_layer, paint_row, painted, set_pixels, ClassMaps,
    DownscaleError,
};
pub use laws::{
    lemma_conversion_deterministic, lemma_count_is_multiplicity, lemma_exact_tiling,
    lemma_high_code_unclassified, lemma_high_window_unclassified, lemma_majority_of_constant,
    lemma_plurality_ignores_order, lemma_unit_scale_classifies, lemma_windows_disjoint,
};
