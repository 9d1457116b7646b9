use landclass::{
    aggregate_row, aggregate_window, classify, color_for, map_pixel, max_code, most_common,
    paint_row, set_pixels, Axes, Axis, ClassMaps, DownscaleError, PixelMapping, Rgb,
};

fn row(value: u16, terrain: u16, vegetation: u16, temperature: u16, moisture: u16) -> PixelMapping {
    PixelMapping { value, terrain, vegetation, temperature, moisture }
}

fn rgb(r: u8, g: u8, b: u8) -> Rgb {
    Rgb { r, g, b }
}

const BLUE: Rgb = Rgb { r: 35, g: 137, b: 218 };

fn layer(maps: &ClassMaps, axis: Axis) -> &Vec<Vec<Rgb>> {
    match axis {
        Axis::Terrain => &maps.terrain,
        Axis::Vegetation => &maps.vegetation,
        Axis::Temperature => &maps.temperature,
        Axis::Moisture => &maps.moisture,
    }
}

const AXES: [Axis; 4] = [Axis::Terrain, Axis::Vegetation, Axis::Temperature, Axis::Moisture];

#[test]
fn most_common_strict_plurality() {
    assert_eq!(most_common(&[3, 1, 3, 2, 3]), 3);
    assert_eq!(most_common(&[7]), 7);
}

#[test]
fn most_common_plurality_any_order() {
    let orders: [[u16; 5]; 4] = [[5, 5, 5, 2, 9], [2, 5, 9, 5, 5], [9, 2, 5, 5, 5], [5, 9, 5, 2, 5]];
    for o in orders.iter() {
        assert_eq!(most_common(o), 5);
    }
}

#[test]
fn most_common_tie_goes_to_first_to_reach_top_count() {
    assert_eq!(most_common(&[4, 0, 4, 0]), 4);
    assert_eq!(most_common(&[0, 4, 4, 0]), 4);
    assert_eq!(most_common(&[0, 4, 0, 4]), 0);
    assert_eq!(most_common(&[2, 1]), 2);
}

#[test]
fn most_common_empty_is_zero() {
    assert_eq!(most_common(&[]), 0);
}

#[test]
fn map_pixel_first_row_wins() {
    let table = vec![row(3, 1, 1, 1, 1), row(5, 2, 2, 2, 2), row(5, 3, 3, 3, 3)];
    assert_eq!(map_pixel(5, &table), Some(row(5, 2, 2, 2, 2)));
    assert_eq!(map_pixel(3, &table), Some(row(3, 1, 1, 1, 1)));
    assert_eq!(map_pixel(4, &table), None);
    assert_eq!(map_pixel(0, &[]), None);
}

#[test]
fn classify_below_threshold_uses_table() {
    let table = vec![row(1, 4, 3, 2, 1)];
    assert_eq!(
        classify(1, 9, &table),
        Axes { terrain: 4, vegetation: 3, temperature: 2, moisture: 1 }
    );
}

#[test]
fn classify_at_or_above_threshold_is_unclassified() {
    let table = vec![row(9, 4, 3, 2, 1), row(12, 4, 3, 2, 1)];
    let zero = Axes { terrain: 0, vegetation: 0, temperature: 0, moisture: 0 };
    assert_eq!(classify(9, 9, &table), zero);
    assert_eq!(classify(12, 9, &table), zero);
    for axis in AXES.iter() {
        assert_eq!(color_for(*axis, zero.get(*axis)), BLUE);
    }
}

#[test]
fn classify_unmapped_code_is_unclassified() {
    let zero = Axes { terrain: 0, vegetation: 0, temperature: 0, moisture: 0 };
    assert_eq!(classify(3, 9, &[]), zero);
    assert_eq!(classify(3, 9, &[row(4, 1, 1, 1, 1)]), zero);
}

#[test]
fn max_code_values() {
    assert_eq!(max_code(&[]), 0);
    assert_eq!(max_code(&[3, 65535, 7]), 65535);
    assert_eq!(max_code(&[0, 0]), 0);
    assert_eq!(max_code(&[2, 9, 4]), 9);
}

#[test]
fn palettes_exact_colors() {
    assert_eq!(color_for(Axis::Terrain, 1), rgb(128, 128, 128));
    assert_eq!(color_for(Axis::Terrain, 2), rgb(139, 69, 19));
    assert_eq!(color_for(Axis::Terrain, 3), rgb(232, 193, 148));
    assert_eq!(color_for(Axis::Terrain, 4), rgb(98, 188, 47));
    assert_eq!(color_for(Axis::Terrain, 5), BLUE);
    assert_eq!(color_for(Axis::Vegetation, 1), rgb(0, 128, 0));
    assert_eq!(color_for(Axis::Vegetation, 2), rgb(139, 69, 19));
    assert_eq!(color_for(Axis::Vegetation, 3), rgb(0, 128, 0));
    assert_eq!(color_for(Axis::Vegetation, 4), rgb(0, 255, 0));
    assert_eq!(color_for(Axis::Vegetation, 5), rgb(255, 0, 0));
    assert_eq!(color_for(Axis::Vegetation, 6), rgb(128, 128, 128));
    assert_eq!(color_for(Axis::Vegetation, 7), BLUE);
    assert_eq!(color_for(Axis::Vegetation, 8), rgb(255, 255, 255));
    assert_eq!(color_for(Axis::Temperature, 1), rgb(0, 0, 255));
    assert_eq!(color_for(Axis::Temperature, 2), rgb(0, 128, 255));
    assert_eq!(color_for(Axis::Temperature, 3), rgb(0, 255, 255));
    assert_eq!(color_for(Axis::Temperature, 4), rgb(255, 255, 0));
    assert_eq!(color_for(Axis::Temperature, 5), rgb(255, 0, 0));
    assert_eq!(color_for(Axis::Temperature, 6), rgb(255, 255, 255));
    assert_eq!(color_for(Axis::Temperature, 0), BLUE);
    assert_eq!(color_for(Axis::Moisture, 1), rgb(255, 255, 0));
    assert_eq!(color_for(Axis::Moisture, 2), rgb(255, 128, 0));
    assert_eq!(color_for(Axis::Moisture, 3), rgb(0, 255, 0));
    assert_eq!(color_for(Axis::Moisture, 4), BLUE);
}

#[test]
fn paint_row_uses_the_axis_palette() {
    let votes = vec![
        Axes { terrain: 4, vegetation: 8, temperature: 1, moisture: 2 },
        Axes { terrain: 0, vegetation: 0, temperature: 0, moisture: 0 },
    ];
    assert_eq!(paint_row(&votes, Axis::Terrain), vec![rgb(98, 188, 47), BLUE]);
    assert_eq!(paint_row(&votes, Axis::Vegetation), vec![rgb(255, 255, 255), BLUE]);
    assert_eq!(paint_row(&votes, Axis::Temperature), vec![rgb(0, 0, 255), BLUE]);
    assert_eq!(paint_row(&votes, Axis::Moisture), vec![rgb(255, 128, 0), BLUE]);
}

fn quadrant_grid() -> Vec<u16> {
    vec![1, 1, 1, 1, 2, 2, 2, 2, 1, 1, 1, 1, 2, 2, 2, 2]
}

fn quadrant_table() -> Vec<PixelMapping> {
    vec![row(1, 4, 1, 2, 3), row(2, 1, 2, 3, 1)]
}

#[test]
fn quadrants_scale_two() {
    let maps = set_pixels(&quadrant_grid(), &quadrant_table(), 2, 4, 4).unwrap();
    assert_eq!((maps.width, maps.height), (2, 2));
    let green = rgb(98, 188, 47);
    assert_eq!(maps.terrain, vec![vec![green, green], vec![green, green]]);
    assert_eq!(maps.terrain[0][0], green);
    let veg = rgb(0, 128, 0);
    assert_eq!(maps.vegetation, vec![vec![veg, veg], vec![veg, veg]]);
    let temp = rgb(0, 128, 255);
    assert_eq!(maps.temperature, vec![vec![temp, temp], vec![temp, temp]]);
    let moist = rgb(0, 255, 0);
    assert_eq!(maps.moisture, vec![vec![moist, moist], vec![moist, moist]]);
}

#[test]
fn quadrants_differ_by_window() {
    // Left half code 1, right half code 3; code 5 only sets the threshold.
    let grid = vec![1, 1, 3, 3, 1, 1, 3, 3, 1, 1, 3, 5, 1, 1, 3, 3];
    let table = vec![row(1, 4, 0, 0, 0), row(3, 2, 0, 0, 0)];
    let maps = set_pixels(&grid, &table, 2, 4, 4).unwrap();
    let green = rgb(98, 188, 47);
    let brown = rgb(139, 69, 19);
    assert_eq!(maps.terrain, vec![vec![green, brown], vec![green, brown]]);
    assert_eq!(maps.vegetation, vec![vec![BLUE, BLUE], vec![BLUE, BLUE]]);
}

#[test]
fn aggregate_window_and_row() {
    let grid = quadrant_grid();
    let table = quadrant_table();
    let a = aggregate_window(&grid, 4, 4, 2, 2, &table, 1, 1);
    assert_eq!(a, Axes { terrain: 4, vegetation: 1, temperature: 2, moisture: 3 });
    let r = aggregate_row(&grid, 4, 4, 2, 2, &table, 0);
    assert_eq!(r, vec![a, a]);
}

#[test]
fn scale_one_is_per_cell_classification() {
    let grid = vec![1, 2, 3, 0, 4, 1];
    let table = vec![row(0, 3, 6, 5, 2), row(1, 1, 2, 3, 1), row(2, 2, 4, 6, 3), row(3, 4, 8, 1, 1)];
    let maps = set_pixels(&grid, &table, 1, 3, 2).unwrap();
    assert_eq!((maps.width, maps.height), (3, 2));
    for y in 0..2usize {
        for x in 0..3usize {
            let a = classify(grid[y * 3 + x], 4, &table);
            for axis in AXES.iter() {
                assert_eq!(layer(&maps, *axis)[y][x], color_for(*axis, a.get(*axis)));
            }
        }
    }
    assert_eq!(maps.terrain[1][1], BLUE);
    assert_eq!(maps.terrain[0][2], rgb(98, 188, 47));
}

#[test]
fn codes_at_maximum_are_blue() {
    let grid = vec![7, 7, 1, 1, 7, 7, 1, 1];
    let table = vec![row(1, 2, 2, 2, 2), row(7, 3, 3, 3, 3)];
    let maps = set_pixels(&grid, &table, 2, 4, 2).unwrap();
    for axis in AXES.iter() {
        assert_eq!(layer(&maps, *axis)[0][0], BLUE);
        assert_ne!(layer(&maps, *axis)[0][1], BLUE);
    }
}

#[test]
fn run_twice_is_identical() {
    let grid: Vec<u16> = (0..64u16).map(|i| (i * 7) % 5).collect();
    let table = vec![row(0, 1, 1, 1, 1), row(1, 2, 3, 4, 2), row(2, 3, 5, 6, 3), row(3, 4, 8, 2, 1)];
    let a = set_pixels(&grid, &table, 4, 8, 8).unwrap();
    let b = set_pixels(&grid, &table, 4, 8, 8).unwrap();
    assert_eq!((a.width, a.height), (b.width, b.height));
    for axis in AXES.iter() {
        assert_eq!(layer(&a, *axis), layer(&b, *axis));
    }
}

#[test]
fn divisible_dimensions() {
    let grid: Vec<u16> = vec![0; 6 * 9];
    let maps = set_pixels(&grid, &[], 3, 6, 9).unwrap();
    assert_eq!((maps.width, maps.height), (2, 3));
    for axis in AXES.iter() {
        let l = layer(&maps, *axis);
        assert_eq!(l.len(), 3);
        assert!(l.iter().all(|r| r.len() == 2));
    }
}

#[test]
fn partial_windows_are_dropped() {
    let grid: Vec<u16> = vec![1; 5 * 7];
    let maps = set_pixels(&grid, &[row(1, 4, 4, 4, 3)], 2, 5, 7).unwrap();
    assert_eq!((maps.width, maps.height), (2, 3));
    assert_eq!(maps.terrain.len(), 3);
    assert_eq!(maps.terrain[2].len(), 2);
    // Every code equals the maximum, so all cells are unclassified.
    assert_eq!(maps.terrain[2][1], BLUE);
}

#[test]
fn scale_larger_than_grid_gives_empty_maps() {
    let maps = set_pixels(&[1, 2, 3, 4], &[], 3, 2, 2).unwrap();
    assert_eq!((maps.width, maps.height), (0, 0));
    assert!(maps.terrain.is_empty());
}

#[test]
fn empty_table_gives_unclassified() {
    let grid = vec![0, 1, 2, 3, 3, 2, 1, 9];
    let maps = set_pixels(&grid, &[], 2, 4, 2).unwrap();
    for axis in AXES.iter() {
        assert_eq!(layer(&maps, *axis), &vec![vec![BLUE, BLUE]]);
    }
}

#[test]
fn zero_scale_is_refused() {
    assert_eq!(set_pixels(&[1, 2, 3, 4], &[], 0, 2, 2).unwrap_err(), DownscaleError::ZeroScale);
    assert_eq!(set_pixels(&[1, 2, 3], &[], 0, 2, 2).unwrap_err(), DownscaleError::ZeroScale);
}

#[test]
fn size_mismatch_is_refused() {
    assert_eq!(set_pixels(&[1, 2, 3], &[], 1, 2, 2).unwrap_err(), DownscaleError::SizeMismatch);
    assert_eq!(set_pixels(&[1, 2, 3, 4, 5], &[], 2, 2, 2).unwrap_err(), DownscaleError::SizeMismatch);
}
