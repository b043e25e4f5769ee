use satpaper::config::GridSpec;
use satpaper::mosaic::{assemble, Assembler, AssemblyError, FetchError, Tile};
use satpaper::raster::{Raster, Rgb};

const RED: Rgb = Rgb { r: 255, g: 0, b: 0 };
const GREEN: Rgb = Rgb { r: 0, g: 255, b: 0 };
const BLUE: Rgb = Rgb { r: 0, g: 0, b: 255 };
const WHITE: Rgb = Rgb { r: 255, g: 255, b: 255 };

fn solid(edge: u32, p: Rgb) -> Raster {
    let mut data = Vec::new();
    for _ in 0..edge * edge {
        data.push(p.r);
        data.push(p.g);
        data.push(p.b);
    }
    Raster::from_bytes(edge, edge, data).unwrap()
}

fn colour_of(row: u32, col: u32) -> Rgb {
    match (row, col) {
        (0, 0) => RED,
        (0, 1) => GREEN,
        (1, 0) => BLUE,
        _ => WHITE,
    }
}

fn grid() -> GridSpec {
    GridSpec { tile_count: 2, tile_edge: 4 }
}

fn check_four_colours(m: &Raster) {
    assert_eq!(m.width(), 8);
    assert_eq!(m.height(), 8);
    assert_eq!(m.as_bytes().len(), 8 * 8 * 3);
    for y in 0..8u32 {
        for x in 0..8u32 {
            assert_eq!(m.get(x, y), Some(colour_of(y / 4, x / 4)), "pixel ({x}, {y})");
        }
    }
}

#[test]
fn four_solid_tiles_make_four_blocks() {
    let m = assemble(grid(), |row, col| Ok(Tile { row, col, pixels: solid(4, colour_of(row, col)) })).unwrap();
    check_four_colours(&m);
    assert_eq!(m.get(0, 0), Some(RED));
    assert_eq!(m.get(3, 3), Some(RED));
    assert_eq!(m.get(4, 3), Some(GREEN));
    assert_eq!(m.get(3, 4), Some(BLUE));
    assert_eq!(m.get(4, 4), Some(WHITE));
    assert_eq!(m.get(7, 7), Some(WHITE));
}

#[test]
fn placement_order_does_not_matter() {
    let orders: [[(u32, u32); 4]; 3] = [
        [(0, 0), (0, 1), (1, 0), (1, 1)],
        [(1, 1), (1, 0), (0, 1), (0, 0)],
        [(1, 0), (0, 0), (1, 1), (0, 1)],
    ];
    for order in orders {
        let mut a = Assembler::new(grid()).unwrap();
        for (row, col) in order {
            assert!(!a.is_complete());
            assert!(!a.is_placed(row, col));
            a.place(&Tile { row, col, pixels: solid(4, colour_of(row, col)) }).unwrap();
            assert!(a.is_placed(row, col));
        }
        assert!(a.is_complete());
        check_four_colours(&a.finish().unwrap());
    }
}

#[test]
fn every_tile_shows_pixel_for_pixel() {
    let g = GridSpec { tile_count: 3, tile_edge: 2 };
    let tile = |row: u32, col: u32| {
        let mut data = Vec::new();
        for i in 0..4u32 {
            data.push((row * 3 + col) as u8);
            data.push(i as u8);
            data.push(100);
        }
        Raster::from_bytes(2, 2, data).unwrap()
    };
    let m = assemble(g, |row, col| Ok(Tile { row, col, pixels: tile(row, col) })).unwrap();
    assert_eq!((m.width(), m.height()), (6, 6));
    for row in 0..3u32 {
        for col in 0..3u32 {
            let t = tile(row, col);
            for y in 0..2u32 {
                for x in 0..2u32 {
                    assert_eq!(m.get(col * 2 + x, row * 2 + y), t.get(x, y));
                }
            }
        }
    }
}

#[test]
fn one_failed_fetch_fails_the_assembly() {
    for bad in [(0u32, 0u32), (0, 1), (1, 0), (1, 1)] {
        let out = assemble(grid(), |row, col| {
            if (row, col) == bad {
                Err(FetchError::Timeout)
            } else {
                Ok(Tile { row, col, pixels: solid(4, WHITE) })
            }
        });
        assert_eq!(out.err(), Some(AssemblyError::Fetch(FetchError::Timeout)));
    }
}

#[test]
fn first_failure_is_reported() {
    let out = assemble(grid(), |row, col| {
        if (row, col) == (0, 1) {
            Err(FetchError::Status(404))
        } else if (row, col) == (1, 1) {
            Err(FetchError::Network)
        } else {
            Ok(Tile { row, col, pixels: solid(4, WHITE) })
        }
    });
    assert_eq!(out.err(), Some(AssemblyError::Fetch(FetchError::Status(404))));
}

#[test]
fn unfit_tiles_fail_the_assembly() {
    let wrong_size = assemble(grid(), |row, col| Ok(Tile { row, col, pixels: solid(3, WHITE) }));
    assert_eq!(wrong_size.err(), Some(AssemblyError::WrongSize));
    let misplaced = assemble(grid(), |row, _col| Ok(Tile { row, col: 0, pixels: solid(4, WHITE) }));
    assert_eq!(misplaced.err(), Some(AssemblyError::Misplaced));
}

#[test]
fn assembler_refuses_bad_tiles_and_keeps_the_mosaic() {
    let mut a = Assembler::new(grid()).unwrap();
    assert_eq!(a.grid(), grid());
    a.place(&Tile { row: 0, col: 1, pixels: solid(4, GREEN) }).unwrap();
    assert_eq!(a.place(&Tile { row: 2, col: 0, pixels: solid(4, RED) }), Err(AssemblyError::OffGrid));
    assert_eq!(a.place(&Tile { row: 0, col: 2, pixels: solid(4, RED) }), Err(AssemblyError::OffGrid));
    assert_eq!(a.place(&Tile { row: 0, col: 0, pixels: solid(5, RED) }), Err(AssemblyError::WrongSize));
    assert_eq!(a.place(&Tile { row: 0, col: 1, pixels: solid(4, RED) }), Err(AssemblyError::Occupied));
    assert!(!a.is_placed(0, 0));
    assert!(!a.is_placed(5, 5));
    assert_eq!(a.finish().err(), Some(AssemblyError::Incomplete));
}

#[test]
fn grids_that_cannot_be_assembled() {
    assert_eq!(Assembler::new(GridSpec { tile_count: 0, tile_edge: 4 }).err(), Some(AssemblyError::InvalidGrid));
    assert_eq!(Assembler::new(GridSpec { tile_count: 4, tile_edge: 0 }).err(), Some(AssemblyError::InvalidGrid));
    assert_eq!(
        Assembler::new(GridSpec { tile_count: 70_000, tile_edge: 70_000 }).err(),
        Some(AssemblyError::InvalidGrid)
    );
    let out = assemble(GridSpec { tile_count: 0, tile_edge: 1 }, |row, col| {
        Ok(Tile { row, col, pixels: solid(1, WHITE) })
    });
    assert_eq!(out.err(), Some(AssemblyError::InvalidGrid));
}
