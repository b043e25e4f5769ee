use satpaper::disk::{detect, lit, BoundaryEstimate, BLACK};
use satpaper::raster::{Raster, Rgb};

fn circle(size: u32, cx: i64, cy: i64, radius: i64) -> Raster {
    let mut r = Raster::new(size, size).unwrap();
    for y in 0..size {
        for x in 0..size {
            let dx = x as i64 - cx;
            let dy = y as i64 - cy;
            if dx * dx + dy * dy <= radius * radius {
                r.set(x, y, Rgb { r: 200, g: 180, b: 160 });
            }
        }
    }
    r
}

#[test]
fn threshold_is_taken_in_dictionary_order() {
    assert_eq!(BLACK, 4);
    assert!(!lit(Rgb { r: 4, g: 4, b: 4 }));
    assert!(!lit(Rgb { r: 0, g: 0, b: 0 }));
    assert!(!lit(Rgb { r: 3, g: 255, b: 255 }));
    assert!(!lit(Rgb { r: 4, g: 3, b: 255 }));
    assert!(lit(Rgb { r: 4, g: 4, b: 5 }));
    assert!(lit(Rgb { r: 4, g: 5, b: 0 }));
    assert!(lit(Rgb { r: 5, g: 0, b: 0 }));
}

#[test]
fn centred_circle_is_found() {
    let disk = circle(101, 50, 50, 30);
    assert_eq!(detect(&disk), BoundaryEstimate { center_x: 50, center_y: 50, radius: 30 });
    let even = circle(100, 49, 49, 40);
    assert_eq!(detect(&even), BoundaryEstimate { center_x: 49, center_y: 49, radius: 40 });
}

#[test]
fn detection_is_repeatable() {
    let disk = circle(64, 31, 31, 20);
    let first = detect(&disk);
    assert_eq!(detect(&disk), first);
    assert_eq!(detect(&disk.duplicate()), first);
}

#[test]
fn off_centre_circle_moves_the_centre() {
    let disk = circle(101, 55, 50, 30);
    let est = detect(&disk);
    assert_eq!(est.center_x, 55);
    assert_eq!(est.center_y, 50);
    // horizontal span 60, vertical chord through x = 50: sqrt(900 - 25) = 29, span 58
    assert_eq!(est.radius, (60 + 58) / 4);
}

#[test]
fn fully_lit_buffer_gives_half_the_size() {
    let disk = Raster::from_bytes(10, 10, vec![255; 300]).unwrap();
    assert_eq!(detect(&disk), BoundaryEstimate { center_x: 4, center_y: 4, radius: 4 });
}

#[test]
fn fully_dark_buffer_gives_half_the_size() {
    let disk = Raster::new(10, 10).unwrap();
    assert_eq!(detect(&disk), BoundaryEstimate { center_x: 4, center_y: 4, radius: 4 });
    let dim = Raster::from_bytes(9, 9, vec![4; 243]).unwrap();
    assert_eq!(detect(&dim), BoundaryEstimate { center_x: 4, center_y: 4, radius: 4 });
}

#[test]
fn single_pixel_buffer() {
    let dark = Raster::new(1, 1).unwrap();
    assert_eq!(detect(&dark), BoundaryEstimate { center_x: 0, center_y: 0, radius: 0 });
    let bright = Raster::from_bytes(1, 1, vec![9, 9, 9]).unwrap();
    assert_eq!(detect(&bright), BoundaryEstimate { center_x: 0, center_y: 0, radius: 0 });
}
