//! The `.gat` map file format: a 10-byte header ("GRAT", version, width,
//! height, all little-endian) followed by four bytes per cell, row after
//! row, of which the first names the cell's kind.

use vstd::prelude::*;
use super::cell::{Cell, CellType};
use super::data::MapData;
use crate::text::concat;

verus! {

#[verifier::external_type_specification]
#[verifier::external_body]
pub struct ExIoError(std::io::Error);

/// Why a `.gat` file could not be read.
#[derive(Debug)]
pub enum GatError {
    Io(std::io::Error),
    InvalidMagic([u8; 4]),
    UnsupportedVersion(u16),
    InvalidDimensions { width: u16, height: u16 },
    IncompleteData { expected: usize, actual: usize },
}

/// The cell kind a file byte stands for; unknown bytes are walls.
pub open spec fn spec_cell_type_from_u8(value: u8) -> CellType {
    if value == 0 { CellType::Walkable }
    else if value == 1 { CellType::Wall }
    else if value == 2 { CellType::Water }
    else if value == 3 { CellType::Cliff }
    else if value == 4 { CellType::Snipable }
    else if value == 5 { CellType::Npc }
    else if value == 6 { CellType::Warp }
    else if value == 7 { CellType::Icetrap }
    else if value == 8 { CellType::Basilica }
    else if value == 9 { CellType::Landmine }
    else if value == 10 { CellType::NoChat }
    else if value == 11 { CellType::Novice }
    else { CellType::Wall }
}

/// The file byte of a cell kind.
pub open spec fn spec_cell_type_to_u8(t: CellType) -> u8 {
    match t {
        CellType::Walkable => 0,
        CellType::Wall => 1,
        CellType::Water => 2,
        CellType::Cliff => 3,
        CellType::Snipable => 4,
        CellType::Npc => 5,
        CellType::Warp => 6,
        CellType::Icetrap => 7,
        CellType::Basilica => 8,
        CellType::Landmine => 9,
        CellType::NoChat => 10,
        CellType::Novice => 11,
    }
}

pub fn cell_type_from_u8(value: u8) -> (t: CellType)
    ensures
        t == spec_cell_type_from_u8(value),
{
    match value {
        0 => CellType::Walkable,
        1 => CellType::Wall,
        2 => CellType::Water,
        3 => CellType::Cliff,
        4 => CellType::Snipable,
        5 => CellType::Npc,
        6 => CellType::Warp,
        7 => CellType::Icetrap,
        8 => CellType::Basilica,
        9 => CellType::Landmine,
        10 => CellType::NoChat,
        11 => CellType::Novice,
        _ => CellType::Wall,
    }
}

pub fn cell_type_to_u8(cell_type: CellType) -> (b: u8)
    ensures
        b == spec_cell_type_to_u8(cell_type),
{
    match cell_type {
        CellType::Walkable => 0,
        CellType::Wall => 1,
        CellType::Water => 2,
        CellType::Cliff => 3,
        CellType::Snipable => 4,
        CellType::Npc => 5,
        CellType::Warp => 6,
        CellType::Icetrap => 7,
        CellType::Basilica => 8,
        CellType::Landmine => 9,
        CellType::NoChat => 10,
        CellType::Novice => 11,
    }
}

/// A little-endian 16-bit number.
pub open spec fn spec_le_u16(lo: u8, hi: u8) -> u16 {
    (lo as int + 256 * (hi as int)) as u16
}

/// The little-endian bytes of a 16-bit number.
pub open spec fn spec_u16_le_bytes(v: u16) -> Seq<u8> {
    seq![(v % 256) as u8, (v / 256) as u8]
}

/// The four magic bytes "GRAT".
pub open spec fn gat_magic() -> Seq<u8> {
    seq![71u8, 82u8, 65u8, 84u8]
}

pub open spec fn gat_version(d: Seq<u8>) -> u16 {
    spec_le_u16(d[4], d[5])
}

pub open spec fn gat_width(d: Seq<u8>) -> u16 {
    spec_le_u16(d[6], d[7])
}

pub open spec fn gat_height(d: Seq<u8>) -> u16 {
    spec_le_u16(d[8], d[9])
}

/// The length a file with the header of `d` must at least have.
pub open spec fn gat_expected_len(d: Seq<u8>) -> int {
    10 + gat_width(d) * gat_height(d) * 4
}

/// Where the record of cell `(x, y)` starts in a file of width `w`.
pub open spec fn gat_cell_offset(w: int, x: int, y: int) -> int {
    10 + 4 * (y * w + x)
}

/// Whether `d` is a well-formed `.gat` file.
pub open spec fn gat_valid(d: Seq<u8>) -> bool {
    &&& d.len() >= 10
    &&& d.subrange(0, 4) == gat_magic()
    &&& gat_version(d) <= 5
    &&& gat_width(d) > 0
    &&& gat_height(d) > 0
    &&& d.len() >= gat_expected_len(d)
}

/// `e` is the error that reading the malformed file `d` gives: the first
/// check it fails among length, magic, version, dimensions and data length.
pub open spec fn spec_gat_error(d: Seq<u8>, e: GatError) -> bool {
    if d.len() < 10 {
        e matches GatError::IncompleteData { expected, actual } && expected == 10 && actual == d.len()
    } else if d.subrange(0, 4) != gat_magic() {
        e matches GatError::InvalidMagic(m) && m@ == d.subrange(0, 4)
    } else if gat_version(d) > 5 {
        e matches GatError::UnsupportedVersion(v) && v == gat_version(d)
    } else if gat_width(d) == 0 || gat_height(d) == 0 {
        e matches GatError::InvalidDimensions { width, height } && width == gat_width(d) && height == gat_height(d)
    } else {
        e matches GatError::IncompleteData { expected, actual } && expected == gat_expected_len(d) as usize && actual == d.len()
    }
}

/// The kind of cell `(x, y)` as the well-formed file `d` records it.
pub open spec fn gat_cell_type(d: Seq<u8>, x: int, y: int) -> CellType {
    spec_cell_type_from_u8(d[gat_cell_offset(gat_width(d) as int, x, y)])
}

/// The file that `map` is written as.
pub open spec fn spec_gat_bytes(map: MapData) -> Seq<u8> {
    gat_magic() + spec_u16_le_bytes(5) + spec_u16_le_bytes(map.width) + spec_u16_le_bytes(map.height)
        + Seq::new(
        (map.width * map.height * 4) as nat,
        |i: int|
            if i % 4 == 0 {
                let k = i / 4;
                let x = k % (map.width as int);
                let y = k / (map.width as int);
                if map.in_grid(x, y) {
                    spec_cell_type_to_u8(map.cell_at(x, y).cell_type)
                } else {
                    spec_cell_type_to_u8(CellType::Wall)
                }
            } else {
                0u8
            },
    )
}

proof fn lemma_cell_offset_bound(w: int, h: int, x: int, y: int)
    requires
        0 <= x < w,
        0 <= y < h,
    ensures
        0 <= y * w + x < w * h,
        gat_cell_offset(w, x, y) + 4 <= 10 + w * h * 4,
{
    assert(0 <= y * w) by (nonlinear_arith)
        requires
            0 <= y,
            0 <= w,
    ;
    assert(y * w + x < w * h) by (nonlinear_arith)
        requires
            0 <= x < w,
            0 <= y < h,
    ;
}

/// Reads and writes `.gat` map files.
pub struct GatParser;

impl GatParser {
    /// Writes a map in the `.gat` format; cells the grid lacks are written as walls.
    pub fn to_gat_bytes(map: &MapData) -> (data: Vec<u8>)
        ensures
            data@ == spec_gat_bytes(*map),
    {
        let mut data: Vec<u8> = Vec::new();
        data.push(71u8);
        data.push(82u8);
        data.push(65u8);
        data.push(84u8);
        data.push(5u8);
        data.push(0u8);
        data.push((map.width % 256) as u8);
        data.push((map.width / 256) as u8);
        data.push((map.height % 256) as u8);
        data.push((map.height / 256) as u8);
        let ghost header = gat_magic() + spec_u16_le_bytes(5) + spec_u16_le_bytes(map.width)
            + spec_u16_le_bytes(map.height);
        assert(data@ =~= header);
        let ghost w = map.width as int;
        let ghost body = spec_gat_bytes(*map).subrange(10, spec_gat_bytes(*map).len() as int);
        let mut y: u16 = 0;
        while y < map.height
            invariant
                y <= map.height,
                w == map.width,
                header.len() == 10,
                data@.len() == 10 + 4 * (y * w),
                data@.subrange(0, 10) == header,
                forall|i: int| 10 <= i < data@.len() ==> #[trigger] data@[i] == spec_gat_bytes(*map)[i],
            decreases map.height - y,
        {
            let mut x: u16 = 0;
            while x < map.width
                invariant
                    y < map.height,
                    x <= map.width,
                    w == map.width,
                    header.len() == 10,
                    data@.len() == 10 + 4 * (y * w + x),
                    data@.subrange(0, 10) == header,
                    forall|i: int| 10 <= i < data@.len() ==> #[trigger] data@[i] == spec_gat_bytes(*map)[i],
                decreases map.width - x,
            {
                proof {
                    lemma_cell_offset_bound(w, map.height as int, x as int, y as int);
                }
                let cell_type = match map.get_cell(x, y) {
                    Some(c) => c.cell_type,
                    None => CellType::Wall,
                };
                let ghost base = data@.len() as int;
                data.push(cell_type_to_u8(cell_type));
                data.push(0u8);
                data.push(0u8);
                data.push(0u8);
                proof {
                    let k = y * w + x;
                    assert(base == 10 + 4 * k);
                    assert forall|i: int| 10 <= i < data@.len() implies #[trigger] data@[i] == spec_gat_bytes(*map)[i] by {
                        if i >= base {
                            let j = i - 10;
                            assert(j / 4 == k) by (nonlinear_arith)
                                requires j == 4 * k + (i - base), 0 <= i - base < 4;
                            assert(j % 4 == i - base) by (nonlinear_arith)
                                requires j == 4 * k + (i - base), 0 <= i - base < 4;
                            assert(k % w == x as int && k / w == y as int) by (nonlinear_arith)
                                requires k == y * w + x, 0 <= x < w, 0 <= y;
                        }
                    }
                    assert(data@.subrange(0, 10) =~= header);
                }
                x = x + 1;
            }
            proof {
                assert(y * w + w == (y + 1) * w) by (nonlinear_arith);
            }
            y = y + 1;
        }
        proof {
            assert(map.height * w * 4 == 4 * (map.height * w)) by (nonlinear_arith);
            assert(w * map.height == map.height * w) by (nonlinear_arith);
            assert(data@ =~= spec_gat_bytes(*map));
        }
        data
    }

    /// Reads a `.gat` file; the map is named after `map_name` with ".gat" appended.
    pub fn parse_bytes(data: &[u8], map_name: &str) -> (r: Result<MapData, GatError>)
        ensures
            data@.len() < 10 ==> (r matches Err(GatError::IncompleteData { expected, actual })
                && expected == 10 && actual == data@.len()),
            data@.len() >= 10 && data@.subrange(0, 4) != gat_magic() ==>
                (r matches Err(GatError::InvalidMagic(m)) && m@ == data@.subrange(0, 4)),
            data@.len() >= 10 && data@.subrange(0, 4) == gat_magic() && gat_version(data@) > 5 ==>
                (r matches Err(GatError::UnsupportedVersion(v)) && v == gat_version(data@)),
            data@.len() >= 10 && data@.subrange(0, 4) == gat_magic() && gat_version(data@) <= 5
                && (gat_width(data@) == 0 || gat_height(data@) == 0) ==>
                (r matches Err(GatError::InvalidDimensions { width, height })
                && width == gat_width(data@) && height == gat_height(data@)),
            data@.len() >= 10 && data@.subrange(0, 4) == gat_magic() && gat_version(data@) <= 5
                && gat_width(data@) > 0 && gat_height(data@) > 0 && data@.len() < gat_expected_len(data@) ==>
                (r matches Err(GatError::IncompleteData { expected, actual })
                && expected == gat_expected_len(data@) as usize && actual == data@.len()),
            r is Ok <==> gat_valid(data@),
            r matches Err(e) ==> spec_gat_error(data@, e),
            r matches Ok(m) ==> {
                &&& m.name@ == map_name@ + ".gat"@
                &&& m.width == gat_width(data@)
                &&& m.height == gat_height(data@)
                &&& m.well_formed()
                &&& forall|x: int, y: int| 0 <= x < m.width && 0 <= y < m.height ==> {
                    &&& (#[trigger] m.cell_at(x, y)).cell_type == gat_cell_type(data@, x, y)
                    &&& m.cell_at(x, y).flags == 0
                }
            },
    {
        if data.len() < 10 {
            return Err(GatError::IncompleteData { expected: 10, actual: data.len() });
        }
        let magic = [data[0], data[1], data[2], data[3]];
        if !(data[0] == 71u8 && data[1] == 82u8 && data[2] == 65u8 && data[3] == 84u8) {
            assert(magic@ =~= data@.subrange(0, 4));
            assert(data@.subrange(0, 4) != gat_magic()) by {
                if data@.subrange(0, 4) == gat_magic() {
                    assert(data@.subrange(0, 4)[0] == data@[0]);
                    assert(data@.subrange(0, 4)[1] == data@[1]);
                    assert(data@.subrange(0, 4)[2] == data@[2]);
                    assert(data@.subrange(0, 4)[3] == data@[3]);
                }
            }
            return Err(GatError::InvalidMagic(magic));
        }
        assert(data@.subrange(0, 4) =~= gat_magic());
        let version: u16 = (data[4] as u16) + 256 * (data[5] as u16);
        let width: u16 = (data[6] as u16) + 256 * (data[7] as u16);
        let height: u16 = (data[8] as u16) + 256 * (data[9] as u16);
        if version > 5 {
            return Err(GatError::UnsupportedVersion(version));
        }
        if width == 0 || height == 0 {
            return Err(GatError::InvalidDimensions { width, height });
        }
        proof {
            assert((width as u64) * (height as u64) <= 0xFFFFu64 * 0xFFFFu64) by (nonlinear_arith)
                requires
                    width <= 0xFFFF,
                    height <= 0xFFFF,
            ;
        }
        let expected_size: u64 = 10 + (width as u64) * (height as u64) * 4;
        assert(expected_size == gat_expected_len(data@));
        if (data.len() as u64) < expected_size {
            return Err(GatError::IncompleteData { expected: expected_size as usize, actual: data.len() });
        }
        let ghost d = data@;
        let ghost w = width as int;
        let mut cells: Vec<Vec<Cell>> = Vec::new();
        let mut offset: usize = 10;
        let mut y: u16 = 0;
        while y < height
            invariant
                d == data@,
                w == width,
                width > 0,
                width == gat_width(d),
                height == gat_height(d),
                d.len() >= 10 + width * height * 4,
                y <= height,
                offset == 10 + 4 * (y * w),
                cells@.len() == y,
                forall|j: int| 0 <= j < y ==> (#[trigger] cells@[j])@.len() == width,
                forall|i: int, j: int| 0 <= i < width && 0 <= j < y ==> {
                    &&& (#[trigger] cells@[j]@[i]).x == i
                    &&& cells@[j]@[i].y == j
                    &&& cells@[j]@[i].cell_type == gat_cell_type(d, i, j)
                    &&& cells@[j]@[i].flags == 0
                },
            decreases height - y,
        {
            let mut row: Vec<Cell> = Vec::new();
            let mut x: u16 = 0;
            while x < width
                invariant
                    d == data@,
                    w == width,
                    width == gat_width(d),
                    height == gat_height(d),
                    d.len() >= 10 + width * height * 4,
                    y < height,
                    x <= width,
                    offset == 10 + 4 * (y * w + x),
                    row@.len() == x,
                    forall|i: int| 0 <= i < x ==> {
                        &&& (#[trigger] row@[i]).x == i
                        &&& row@[i].y == y
                        &&& row@[i].cell_type == gat_cell_type(d, i, y as int)
                        &&& row@[i].flags == 0
                    },
                decreases width - x,
            {
                proof {
                    lemma_cell_offset_bound(w, height as int, x as int, y as int);
                    assert(w * (height as int) * 4 == (width * height * 4)) by (nonlinear_arith)
                        requires w == width;
                }
                let cell_type_byte = data[offset];
                offset = offset + 4;
                let cell_type = cell_type_from_u8(cell_type_byte);
                row.push(Cell::new(x, y, cell_type));
                x = x + 1;
            }
            cells.push(row);
            proof {
                assert(y * w + w == (y + 1) * w) by (nonlinear_arith);
            }
            y = y + 1;
        }
        Ok(MapData { name: concat(map_name, ".gat"), width, height, cells })
    }
}

} // verus!

verus! {

/// Reading back the byte a cell kind is written as gives that kind.
pub proof fn lemma_cell_type_byte_roundtrip(t: CellType)
    ensures
        spec_cell_type_from_u8(spec_cell_type_to_u8(t)) == t,
{
}

/// Writing a well-formed map as a `.gat` file and reading the file back gives
/// a well-formed file with the map's size and, cell for cell, the map's kinds.
pub proof fn lemma_gat_roundtrip(map: MapData)
    requires
        map.well_formed(),
        map.width > 0,
        map.height > 0,
    ensures
        gat_valid(spec_gat_bytes(map)),
        gat_width(spec_gat_bytes(map)) == map.width,
        gat_height(spec_gat_bytes(map)) == map.height,
        forall|x: int, y: int| 0 <= x < map.width && 0 <= y < map.height ==>
            #[trigger] gat_cell_type(spec_gat_bytes(map), x, y) == map.cell_at(x, y).cell_type,
{
    let d = spec_gat_bytes(map);
    let w = map.width as int;
    let h = map.height as int;
    assert(d.subrange(0, 4) =~= gat_magic());
    assert(d.len() == 10 + w * h * 4);
    assert(gat_width(d) == map.width);
    assert(gat_height(d) == map.height);
    assert forall|x: int, y: int| 0 <= x < map.width && 0 <= y < map.height implies
        #[trigger] gat_cell_type(d, x, y) == map.cell_at(x, y).cell_type by {
        let k = y * w + x;
        lemma_cell_offset_bound(w, h, x, y);
        let i = 4 * k;
        assert(i % 4 == 0 && i / 4 == k) by (nonlinear_arith)
            requires i == 4 * k, 0 <= k;
        assert(k % w == x && k / w == y) by (nonlinear_arith)
            requires k == y * w + x, 0 <= x < w, 0 <= y;
        assert(d[10 + i] == spec_cell_type_to_u8(map.cell_at(x, y).cell_type));
        lemma_cell_type_byte_roundtrip(map.cell_at(x, y).cell_type);
    }
}

} // verus!
