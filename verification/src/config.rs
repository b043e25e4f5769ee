//! Satellites, the tiling of their imagery, and the settings of one run.

use std::path::PathBuf;
use vstd::prelude::*;

verus! {

/// A filesystem path, carried through the library untouched.
#[verifier::external_type_specification]
#[verifier::external_body]
pub struct ExPathBuf(PathBuf);

/// `PathBuf::clone` gives back a path equal to the one it was called on.
pub assume_specification[ <PathBuf as Clone>::clone ](path: &PathBuf) -> (copy: PathBuf)
    ensures
        copy == *path,
;

/// A geostationary satellite whose full-disk imagery can be used.
#[derive(Debug, Clone, Copy, PartialEq, Eq, Structural)]
pub enum Satellite {
    GOESEast,
    GOESWest,
    Himawari,
    Meteosat9,
    Meteosat10,
}

impl Satellite {
    /// Whether this is one of the satellites served at the finer zoom level.
    pub open spec fn is_fine(self) -> bool {
        self is GOESEast || self is GOESWest || self is Himawari
    }

    /// The identifier of the satellite in the imagery service's paths.
    pub open spec fn spec_id(self) -> Seq<char> {
        match self {
            Satellite::GOESEast => "goes-16"@,
            Satellite::GOESWest => "goes-18"@,
            Satellite::Himawari => "himawari"@,
            Satellite::Meteosat9 => "meteosat-9"@,
            Satellite::Meteosat10 => "meteosat-0deg"@,
        }
    }

    pub open spec fn spec_max_zoom(self) -> nat {
        if self.is_fine() { 4 } else { 3 }
    }

    pub open spec fn spec_image_size(self) -> nat {
        if self.is_fine() { 10_848 } else { 3_712 }
    }

    pub open spec fn spec_tile_count(self) -> nat {
        if self.is_fine() { 16 } else { 8 }
    }

    pub open spec fn spec_tile_size(self) -> nat {
        if self.is_fine() { 678 } else { 464 }
    }

    /// The identifier of the satellite in the imagery service's paths.
    pub fn id(&self) -> (s: &'static str)
        ensures
            s@ == self.spec_id(),
    {
        match self {
            Satellite::GOESEast => "goes-16",
            Satellite::GOESWest => "goes-18",
            Satellite::Himawari => "himawari",
            Satellite::Meteosat9 => "meteosat-9",
            Satellite::Meteosat10 => "meteosat-0deg",
        }
    }

    /// The deepest zoom level the service offers for this satellite.
    pub fn max_zoom(&self) -> (z: usize)
        ensures
            z == self.spec_max_zoom(),
    {
        match self {
            Satellite::GOESEast | Satellite::GOESWest | Satellite::Himawari => 4,
            Satellite::Meteosat9 | Satellite::Meteosat10 => 3,
        }
    }

    /// Edge length in pixels of the full-resolution image.
    pub fn image_size(&self) -> (n: usize)
        ensures
            n == self.spec_image_size(),
            n == self.spec_tile_count() * self.spec_tile_size(),
    {
        match self {
            Satellite::GOESEast | Satellite::GOESWest | Satellite::Himawari => 10_848,
            Satellite::Meteosat9 | Satellite::Meteosat10 => 3_712,
        }
    }

    /// Number of tiles along one axis of the full-resolution image.
    pub fn tile_count(&self) -> (n: usize)
        ensures
            n == self.spec_tile_count(),
    {
        match self {
            Satellite::GOESEast | Satellite::GOESWest | Satellite::Himawari => 16,
            Satellite::Meteosat9 | Satellite::Meteosat10 => 8,
        }
    }

    /// Edge length in pixels of one tile.
    pub fn tile_size(&self) -> (n: usize)
        ensures
            n == self.spec_tile_size(),
    {
        match self {
            Satellite::GOESEast | Satellite::GOESWest | Satellite::Himawari => 678,
            Satellite::Meteosat9 | Satellite::Meteosat10 => 464,
        }
    }
}

/// The tiling of a satellite's full-resolution image: `tile_count` tiles
/// along each axis, each `tile_edge` pixels wide and high.
#[derive(Debug, Clone, Copy, PartialEq, Eq, Structural)]
pub struct GridSpec {
    pub tile_count: u32,
    pub tile_edge: u32,
}

impl GridSpec {
    /// Edge length in pixels of the image that the tiles form.
    pub open spec fn spec_edge(self) -> nat {
        (self.tile_count * self.tile_edge) as nat
    }

    /// The grid has tiles, the tiles have pixels, and the edge of the whole
    /// fits in 32 bits.
    pub open spec fn valid(self) -> bool {
        self.tile_count >= 1 && self.tile_edge >= 1 && self.spec_edge() <= u32::MAX
    }

    /// Whether `(row, col)` names a cell of the grid.
    pub open spec fn has_cell(self, row: int, col: int) -> bool {
        0 <= row < self.tile_count && 0 <= col < self.tile_count
    }

    /// Whether the grid is valid.
    pub fn is_valid(&self) -> (ok: bool)
        ensures
            ok == self.valid(),
    {
        assert(self.tile_count * self.tile_edge <= 0xffff_ffff * 0xffff_ffff) by (nonlinear_arith)
            requires
                self.tile_count <= 0xffff_ffff,
                self.tile_edge <= 0xffff_ffff,
        ;
        self.tile_count >= 1 && self.tile_edge >= 1 && self.tile_count as u64 * self.tile_edge as u64
            <= 0xffff_ffff
    }

    /// Edge length in pixels of the image that the tiles form.
    pub fn edge(&self) -> (n: u32)
        requires
            self.valid(),
        ensures
            n == self.spec_edge(),
    {
        self.tile_count * self.tile_edge
    }
}

impl Satellite {
    /// The tiling of this satellite's imagery.
    pub open spec fn spec_grid(self) -> GridSpec {
        GridSpec { tile_count: self.spec_tile_count() as u32, tile_edge: self.spec_tile_size() as u32 }
    }

    /// The tiling of this satellite's imagery.
    pub fn grid(&self) -> (g: GridSpec)
        ensures
            g == self.spec_grid(),
            g.valid(),
            g.spec_edge() == self.spec_image_size(),
    {
        match self {
            Satellite::GOESEast | Satellite::GOESWest | Satellite::Himawari => GridSpec {
                tile_count: 16,
                tile_edge: 678,
            },
            Satellite::Meteosat9 | Satellite::Meteosat10 => GridSpec { tile_count: 8, tile_edge: 464 },
        }
    }
}

/// The settings of one run.
#[derive(Debug, Clone)]
pub struct Config {
    /// The satellite to source imagery from.
    pub satellite: Satellite,
    /// Width of the generated wallpaper.
    pub resolution_x: u32,
    /// Height of the generated wallpaper.
    pub resolution_y: u32,
    /// Size of the disk, in percent of the wallpaper's smaller dimension.
    pub disk_size: u32,
    /// Directory the wallpaper is saved to.
    pub target_path: PathBuf,
    /// Command that sets the wallpaper, in place of the built-in handling.
    pub wallpaper_command: Option<String>,
    /// Whether to generate one wallpaper and stop.
    pub once: bool,
    /// An image to put behind the disk in place of plain black.
    pub background_image: Option<PathBuf>,
}

} // verus!
