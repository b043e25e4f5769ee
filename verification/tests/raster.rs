use satpaper::raster::{Raster, Rgb};

fn px(r: u8, g: u8, b: u8) -> Rgb {
    Rgb { r, g, b }
}

#[test]
fn new_raster_is_black() {
    let r = Raster::new(3, 2).unwrap();
    assert_eq!(r.width(), 3);
    assert_eq!(r.height(), 2);
    assert_eq!(r.as_bytes(), &[0u8; 18][..]);
    assert_eq!(r.get(2, 1), Some(px(0, 0, 0)));
}

#[test]
fn get_and_set_are_bounds_checked() {
    let mut r = Raster::new(3, 2).unwrap();
    assert!(r.set(2, 1, px(1, 2, 3)));
    assert!(!r.set(3, 1, px(9, 9, 9)));
    assert!(!r.set(2, 2, px(9, 9, 9)));
    assert_eq!(r.get(2, 1), Some(px(1, 2, 3)));
    assert_eq!(r.get(3, 1), None);
    assert_eq!(r.get(0, 2), None);
    let mut want = vec![0u8; 18];
    want[15] = 1;
    want[16] = 2;
    want[17] = 3;
    assert_eq!(r.into_bytes(), want);
}

#[test]
fn from_bytes_wants_the_exact_length() {
    assert!(Raster::from_bytes(2, 2, vec![0; 12]).is_some());
    assert!(Raster::from_bytes(2, 2, vec![0; 11]).is_none());
    assert!(Raster::from_bytes(2, 2, vec![0; 13]).is_none());
    assert!(Raster::from_bytes(0, 5, vec![]).is_some());
    let r = Raster::from_bytes(2, 1, vec![1, 2, 3, 4, 5, 6]).unwrap();
    assert_eq!(r.get(0, 0), Some(px(1, 2, 3)));
    assert_eq!(r.get(1, 0), Some(px(4, 5, 6)));
}

#[test]
fn overlay_replaces_the_rectangle_only() {
    let mut base = Raster::new(4, 3).unwrap();
    let top = Raster::from_bytes(2, 2, vec![10, 11, 12, 20, 21, 22, 30, 31, 32, 40, 41, 42]).unwrap();
    assert!(base.overlay_at(&top, 1, 1));
    for y in 0..3u32 {
        for x in 0..4u32 {
            let want = if (1..3).contains(&x) && (1..3).contains(&y) {
                top.get(x - 1, y - 1).unwrap()
            } else {
                px(0, 0, 0)
            };
            assert_eq!(base.get(x, y), Some(want));
        }
    }
}

#[test]
fn overlay_that_does_not_fit_writes_nothing() {
    let mut base = Raster::new(4, 3).unwrap();
    let top = Raster::from_bytes(2, 2, vec![7; 12]).unwrap();
    assert!(!base.overlay_at(&top, 3, 0));
    assert!(!base.overlay_at(&top, 0, 2));
    assert!(!base.overlay_at(&top, u32::MAX, 0));
    assert_eq!(base.as_bytes(), &[0u8; 36][..]);
    assert!(base.overlay_at(&top, 2, 1));
}

#[test]
fn duplicate_is_equal() {
    let r = Raster::from_bytes(1, 2, vec![1, 2, 3, 4, 5, 6]).unwrap();
    let d = r.duplicate();
    assert_eq!(d.width(), 1);
    assert_eq!(d.height(), 2);
    assert_eq!(d.as_bytes(), r.as_bytes());
}
