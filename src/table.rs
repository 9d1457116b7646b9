use vstd::prelude::*;

verus! {

/// One row of the attribute table: a source code and its four axis values.
#[derive(Clone, Copy, Debug, PartialEq, Eq, Structural)]
pub struct PixelMapping {
    pub value: u16,
    pub terrain: u16,
    pub vegetation: u16,
    pub temperature: u16,
    pub moisture: u16,
}

/// The four axis values of a cell, or the four votes of a window.
#[derive(Clone, Copy, Debug, PartialEq, Eq, Structural)]
pub struct Axes {
    pub terrain: u16,
    pub vegetation: u16,
    pub temperature: u16,
    pub moisture: u16,
}

/// One of the four classification axes.
#[derive(Clone, Copy, Debug, PartialEq, Eq, Structural)]
pub enum Axis {
    Terrain,
    Vegetation,
    Temperature,
    Moisture,
}

impl Axes {
    pub open spec fn at(self, axis: Axis) -> u16 {
        match axis {
            Axis::Terrain => self.terrain,
            Axis::Vegetation => self.vegetation,
            Axis::Temperature => self.temperature,
            Axis::Moisture => self.moisture,
        }
    }

    /// All four axes unclassified.
    pub open spec fn unclassified() -> Axes {
        Axes { terrain: 0, vegetation: 0, temperature: 0, moisture: 0 }
    }

    /// The value on one axis.
    pub fn get(&self, axis: Axis) -> (r: u16)
        ensures
            r == self.at(axis),
    {
        match axis {
            Axis::Terrain => self.terrain,
            Axis::Vegetation => self.vegetation,
            Axis::Temperature => self.temperature,
            Axis::Moisture => self.moisture,
        }
    }
}

impl PixelMapping {
    pub open spec fn axes(self) -> Axes {
        Axes {
            terrain: self.terrain,
            vegetation: self.vegetation,
            temperature: self.temperature,
            moisture: self.moisture,
        }
    }
}

/// The first row of `table` whose code is `code`, if any.
pub open spec fn lookup(table: Seq<PixelMapping>, code: u16) -> Option<PixelMapping>
    decreases table.len(),
{
    if table.len() == 0 {
        None
    } else if table[0].value == code {
        Some(table[0])
    } else {
        lookup(table.skip(1), code)
    }
}

/// The axis values of `code`: unclassified (0 on every axis) when `code`
/// is at or above `threshold` or has no row in `table`; else those of the
/// first row for `code`.
pub open spec fn classification(code: u16, threshold: u16, table: Seq<PixelMapping>) -> Axes {
    if code >= threshold {
        Axes::unclassified()
    } else {
        match lookup(table, code) {
            Some(row) => row.axes(),
            None => Axes::unclassified(),
        }
    }
}

/// Finds the first row of `mappings` for `pixel_value`; duplicates after it
/// are never seen.
pub fn map_pixel(pixel_value: u16, mappings: &[PixelMapping]) -> (r: Option<PixelMapping>)
    ensures
        r == lookup(mappings@, pixel_value),
        r is None <==> forall|i: int| 0 <= i < mappings@.len() ==> mappings@[i].value != pixel_value,
{
    let mut i: usize = 0;
    assert(mappings@.skip(0) =~= mappings@);
    while i < mappings.len()
        invariant
            i <= mappings@.len(),
            lookup(mappings@, pixel_value) == lookup(mappings@.skip(i as int), pixel_value),
            forall|k: int| 0 <= k < i ==> mappings@[k].value != pixel_value,
        decreases mappings@.len() - i,
    {
        assert(mappings@.skip(i as int)[0] == mappings@[i as int]);
        if mappings[i].value == pixel_value {
            proof { lemma_lookup_some(mappings@.skip(i as int), pixel_value); }
            return Some(mappings[i]);
        }
        assert(mappings@.skip(i as int).skip(1) =~= mappings@.skip(i as int + 1));
        i = i + 1;
    }
    assert(mappings@.skip(i as int).len() == 0);
    None
}

proof fn lemma_lookup_some(table: Seq<PixelMapping>, code: u16)
    requires
        table.len() > 0,
        table[0].value == code,
    ensures
        lookup(table, code) == Some(table[0]),
{
}

/// Classifies one source code on all four axes (see `classification`).
pub fn classify(code: u16, threshold: u16, mappings: &[PixelMapping]) -> (r: Axes)
    ensures
        r == classification(code, threshold, mappings@),
{
    if code >= threshold {
        return Axes { terrain: 0, vegetation: 0, temperature: 0, moisture: 0 };
    }
    match map_pixel(code, mappings) {
        Some(row) => Axes {
            terrain: row.terrain,
            vegetation: row.vegetation,
            temperature: row.temperature,
            moisture: row.moisture,
        },
        None => Axes { terrain: 0, vegetation: 0, temperature: 0, moisture: 0 },
    }
}

/// The largest value of `s`; 0 for an empty sequence.
pub open spec fn max_of(s: Seq<u16>) -> u16
    decreases s.len(),
{
    if s.len() == 0 {
        0
    } else {
        let m = max_of(s.drop_last());
        if s.last() > m { s.last() } else { m }
    }
}

/// The no-data threshold of a source grid: its largest code.
pub fn max_code(codes: &[u16]) -> (r: u16)
    ensures
        r == max_of(codes@),
        forall|i: int| 0 <= i < codes@.len() ==> codes@[i] <= r,
        codes@.len() > 0 ==> exists|i: int| 0 <= i < codes@.len() && codes@[i] == r,
{
    let mut m: u16 = 0;
    let mut i: usize = 0;
    while i < codes.len()
        invariant
            i <= codes@.len(),
            m == max_of(codes@.subrange(0, i as int)),
            forall|k: int| 0 <= k < i ==> codes@[k] <= m,
            i > 0 ==> exists|k: int| 0 <= k < i && codes@[k] == m,
        decreases codes@.len() - i,
    {
        assert(codes@.subrange(0, i as int + 1).drop_last() =~= codes@.subrange(0, i as int));
        if codes[i] > m {
            m = codes[i];
        }
        i = i + 1;
    }
    assert(codes@.subrange(0, codes@.len() as int) =~= codes@);
    m
}

/// A numeric column of the attribute table that the conversion reads.
#[derive(Clone, Copy, Debug, PartialEq, Eq, Structural)]
pub enum Column {
    Code,
    Terrain,
    Vegetation,
    Temperature,
    Moisture,
}

/// The column that a field name denotes; other names are ignored.
pub open spec fn column_named(name: Seq<char>) -> Option<Column> {
    if name == "Value"@ {
        Some(Column::Code)
    } else if name == "World_Lan1"@ {
        Some(Column::Terrain)
    } else if name == "World_Lan2"@ {
        Some(Column::Vegetation)
    } else if name == "World_Temp"@ {
        Some(Column::Temperature)
    } else if name == "World_Mois"@ {
        Some(Column::Moisture)
    } else {
        None
    }
}

/// `row` with the column that `name` denotes set to `v`.
pub open spec fn with_column(row: PixelMapping, name: Seq<char>, v: u16) -> PixelMapping {
    match column_named(name) {
        Some(Column::Code) => PixelMapping { value: v, ..row },
        Some(Column::Terrain) => PixelMapping { terrain: v, ..row },
        Some(Column::Vegetation) => PixelMapping { vegetation: v, ..row },
        Some(Column::Temperature) => PixelMapping { temperature: v, ..row },
        Some(Column::Moisture) => PixelMapping { moisture: v, ..row },
        None => row,
    }
}

/// The row built from a record's numeric fields, taken in order from a row
/// of zeros.
pub open spec fn row_of_fields(fields: Seq<(String, u16)>) -> PixelMapping
    decreases fields.len(),
{
    if fields.len() == 0 {
        PixelMapping { value: 0, terrain: 0, vegetation: 0, temperature: 0, moisture: 0 }
    } else {
        with_column(row_of_fields(fields.drop_last()), fields.last().0@, fields.last().1)
    }
}

/// The column that the field `name` denotes, if any.
pub fn column_of_name(name: &String) -> (r: Option<Column>)
    ensures
        r == column_named(name@),
{
    if *name == "Value".to_owned() {
        Some(Column::Code)
    } else if *name == "World_Lan1".to_owned() {
        Some(Column::Terrain)
    } else if *name == "World_Lan2".to_owned() {
        Some(Column::Vegetation)
    } else if *name == "World_Temp".to_owned() {
        Some(Column::Temperature)
    } else if *name == "World_Mois".to_owned() {
        Some(Column::Moisture)
    } else {
        None
    }
}

/// Builds an attribute row from a record's numeric fields (name, value).
/// Fields of other names are ignored and columns without a field stay 0;
/// where a name repeats, the later field wins.
pub fn mapping_from_fields(fields: &[(String, u16)]) -> (r: PixelMapping)
    ensures
        r == row_of_fields(fields@),
{
    let mut row = PixelMapping { value: 0, terrain: 0, vegetation: 0, temperature: 0, moisture: 0 };
    let mut i: usize = 0;
    while i < fields.len()
        invariant
            i <= fields@.len(),
            row == row_of_fields(fields@.subrange(0, i as int)),
        decreases fields@.len() - i,
    {
        assert(fields@.subrange(0, i as int + 1).drop_last() =~= fields@.subrange(0, i as int));
        let v = fields[i].1;
        match column_of_name(&fields[i].0) {
            Some(Column::Code) => row.value = v,
            Some(Column::Terrain) => row.terrain = v,
            Some(Column::Vegetation) => row.vegetation = v,
            Some(Column::Temperature) => row.temperature = v,
            Some(Column::Moisture) => row.moisture = v,
            None => {},
        }
        i = i + 1;
    }
    assert(fields@.subrange(0, fields@.len() as int) =~= fields@);
    row
}

} // verus!
