use satpaper::compose::{
    centered, composite, cutout_disk, disk_dim, generate, Canvas, CompositeError,
};
use satpaper::config::{Config, Satellite};
use satpaper::disk::detect;
use satpaper::raster::{Raster, Rgb};
use satpaper::resample::ResizeError;

const BLACK: Rgb = Rgb { r: 0, g: 0, b: 0 };

fn config(resolution_x: u32, resolution_y: u32, disk_size: u32) -> Config {
    Config {
        satellite: Satellite::GOESEast,
        resolution_x,
        resolution_y,
        disk_size,
        target_path: ".".into(),
        wallpaper_command: None,
        once: false,
        background_image: None,
    }
}

fn circle(size: u32, radius: i64) -> Raster {
    let c = ((size - 1) / 2) as i64;
    let mut r = Raster::new(size, size).unwrap();
    for y in 0..size {
        for x in 0..size {
            let dx = x as i64 - c;
            let dy = y as i64 - c;
            let p = if dx * dx + dy * dy <= radius * radius {
                Rgb { r: 200, g: (x % 200) as u8 + 10, b: (y % 200) as u8 + 10 }
            } else {
                Rgb { r: 1, g: 2, b: 3 }
            };
            r.set(x, y, p);
        }
    }
    r
}

fn pattern(width: u32, height: u32) -> Raster {
    let mut r = Raster::new(width, height).unwrap();
    for y in 0..height {
        for x in 0..width {
            r.set(x, y, Rgb { r: 50, g: (x * 7) as u8, b: (y * 5) as u8 });
        }
    }
    r
}

#[test]
fn disk_edge_and_offsets() {
    assert_eq!(disk_dim(1000, 2000, 50), 500);
    assert_eq!(centered(1000, 500), 250);
    assert_eq!(centered(2000, 500), 750);
    assert_eq!(disk_dim(2556, 1440, 95), 1368);
    assert_eq!(centered(2556, 1368), 594);
    assert_eq!(centered(1440, 1368), 36);
    assert_eq!(disk_dim(1920, 1080, 100), 1080);
    assert_eq!(disk_dim(1920, 1080, 1), 10);
    assert_eq!(disk_dim(3, 3, 50), 1);
    assert_eq!(disk_dim(1, 9, 50), 0);
    assert_eq!(disk_dim(u32::MAX, u32::MAX, 100), u32::MAX);
    assert_eq!(centered(7, 4), 1);
    assert_eq!(centered(5, 5), 0);
}

#[test]
fn plain_canvas_is_black_around_the_whole_disk_buffer() {
    let disk = circle(5, 1);
    let canvas = composite(9, 7, &disk, None).unwrap();
    assert!(canvas.alpha);
    assert_eq!((canvas.image.width(), canvas.image.height()), (9, 7));
    for y in 0..7u32 {
        for x in 0..9u32 {
            let want = if (2..7).contains(&x) && (1..6).contains(&y) {
                disk.get(x - 2, y - 1).unwrap()
            } else {
                BLACK
            };
            assert_eq!(canvas.image.get(x, y), Some(want));
        }
    }
    // the dark corners of the disk buffer are copied as they are
    assert_eq!(canvas.image.get(2, 1), Some(Rgb { r: 1, g: 2, b: 3 }));
}

#[test]
fn cutout_leaves_the_background_outside_the_circle() {
    let disk = circle(21, 7);
    let background = pattern(40, 30);
    let est = detect(&disk);
    assert_eq!((est.center_x, est.center_y, est.radius), (10, 10, 7));
    let canvas = composite(40, 30, &disk, Some(&background)).unwrap();
    assert!(!canvas.alpha);
    let (ox, oy) = (9u32, 4u32);
    let mut copied = 0;
    for y in 0..30u32 {
        for x in 0..40u32 {
            let in_rect = (ox..ox + 21).contains(&x) && (oy..oy + 21).contains(&y);
            let inside = in_rect && {
                let dx = (x - ox) as i64 - 10;
                let dy = (y - oy) as i64 - 10;
                dx * dx + dy * dy < 49
            };
            if inside {
                copied += 1;
                assert_eq!(canvas.image.get(x, y), disk.get(x - ox, y - oy));
            } else {
                assert_eq!(canvas.image.get(x, y), background.get(x, y));
            }
        }
    }
    // lattice points nearer than 7 to the centre
    assert_eq!(copied, 145);
}

#[test]
fn cutout_on_the_buffer_itself() {
    let disk = circle(21, 7);
    let mut bg = pattern(25, 25);
    let before = bg.duplicate();
    let est = cutout_disk(&mut bg, &disk, 2, 3).unwrap();
    assert_eq!(est, detect(&disk));
    assert_eq!(bg.get(0, 0), before.get(0, 0));
    assert_eq!(bg.get(12, 13), disk.get(10, 10));
    assert_eq!(bg.get(2, 3), before.get(2, 3));
    // on the circle itself the background stays
    assert_eq!(bg.get(12 + 7, 13), before.get(12 + 7, 13));
    assert_eq!(bg.get(12 + 6, 13), disk.get(16, 10));
}

#[test]
fn cutout_that_does_not_fit_writes_nothing() {
    let disk = circle(21, 7);
    let mut bg = pattern(25, 25);
    let before = bg.duplicate();
    assert_eq!(cutout_disk(&mut bg, &disk, 5, 0).err(), Some(CompositeError::DiskTooLarge));
    assert_eq!(cutout_disk(&mut bg, &disk, 0, 5).err(), Some(CompositeError::DiskTooLarge));
    assert_eq!(cutout_disk(&mut bg, &Raster::new(0, 0).unwrap(), 0, 0).err(), Some(CompositeError::EmptyDisk));
    assert_eq!(bg.as_bytes(), before.as_bytes());
}

#[test]
fn background_of_another_size_is_resized() {
    let disk = circle(5, 1);
    let background = Raster::from_bytes(4, 4, vec![90; 48]).unwrap();
    let canvas = composite(12, 10, &disk, Some(&background)).unwrap();
    assert_eq!((canvas.image.width(), canvas.image.height()), (12, 10));
    assert_eq!(canvas.image.get(0, 0), Some(Rgb { r: 90, g: 90, b: 90 }));
    assert_eq!(canvas.image.get(11, 9), Some(Rgb { r: 90, g: 90, b: 90 }));
}

#[test]
fn composite_errors() {
    let disk = circle(5, 1);
    assert_eq!(composite(4, 9, &disk, None).err(), Some(CompositeError::DiskTooLarge));
    assert_eq!(composite(9, 4, &disk, None).err(), Some(CompositeError::DiskTooLarge));
    let empty = Raster::new(0, 0).unwrap();
    assert_eq!(composite(9, 9, &empty, None).err(), Some(CompositeError::EmptyDisk));
    let no_background = Raster::new(0, 7).unwrap();
    assert_eq!(
        composite(9, 9, &disk, Some(&no_background)).err(),
        Some(CompositeError::Background(ResizeError::ZeroSized))
    );
}

#[test]
fn generate_puts_the_resized_source_in_the_middle() {
    let source = Raster::from_bytes(8, 8, vec![77; 192]).unwrap();
    let canvas = generate(&config(20, 10, 50), &source, None).unwrap();
    assert!(canvas.alpha);
    assert_eq!((canvas.image.width(), canvas.image.height()), (20, 10));
    // disk edge 5, at (7, 2)
    for y in 0..10u32 {
        for x in 0..20u32 {
            let want = if (7..12).contains(&x) && (2..7).contains(&y) {
                Rgb { r: 77, g: 77, b: 77 }
            } else {
                BLACK
            };
            assert_eq!(canvas.image.get(x, y), Some(want));
        }
    }
}

#[test]
fn generate_with_a_background_cuts_the_disk_out() {
    let source = circle(21, 7);
    let background = pattern(42, 21);
    let canvas = generate(&config(42, 21, 100), &source, Some(&background)).unwrap();
    assert!(!canvas.alpha);
    assert_eq!(canvas.image.get(0, 0), background.get(0, 0));
    assert_eq!(canvas.image.get(41, 20), background.get(41, 20));
    // the source already has the disk's size, so it is used as it is
    assert_eq!(canvas.image.get(10 + 10, 10), source.get(10, 10));
}

#[test]
fn generate_errors() {
    let source = Raster::from_bytes(8, 8, vec![77; 192]).unwrap();
    assert_eq!(generate(&config(0, 10, 50), &source, None).err(), Some(CompositeError::InvalidResolution));
    assert_eq!(generate(&config(10, 0, 50), &source, None).err(), Some(CompositeError::InvalidResolution));
    assert_eq!(generate(&config(10, 10, 0), &source, None).err(), Some(CompositeError::InvalidDiskSize));
    assert_eq!(generate(&config(10, 10, 101), &source, None).err(), Some(CompositeError::InvalidDiskSize));
    assert_eq!(
        generate(&config(1, 10, 50), &source, None).err(),
        Some(CompositeError::Disk(ResizeError::ZeroSized))
    );
    let empty = Raster::new(0, 0).unwrap();
    assert_eq!(
        generate(&config(10, 10, 50), &empty, None).err(),
        Some(CompositeError::Disk(ResizeError::ZeroSized))
    );
}

#[test]
fn canvas_bytes() {
    let image = Raster::from_bytes(2, 1, vec![1, 2, 3, 4, 5, 6]).unwrap();
    let rgb = Canvas { image: image.duplicate(), alpha: false };
    assert_eq!(rgb.to_bytes(), vec![1, 2, 3, 4, 5, 6]);
    let rgba = Canvas { image, alpha: true };
    assert_eq!(rgba.to_bytes(), vec![1, 2, 3, 255, 4, 5, 6, 255]);
    let none = Canvas { image: Raster::new(0, 0).unwrap(), alpha: true };
    assert!(none.to_bytes().is_empty());
}
