use paintr::geometry::Window;
use paintr::raster::{Raster, Rgba};

const RED: Rgba = Rgba { r: 255, g: 0, b: 0, a: 255 };
const BLUE: Rgba = Rgba { r: 0, g: 0, b: 255, a: 255 };
const CLEAR: Rgba = Rgba { r: 0, g: 0, b: 0, a: 0 };

#[test]
fn new_raster_is_transparent() {
    let r = Raster::new(3, 2);
    assert_eq!(r.width(), 3);
    assert_eq!(r.height(), 2);
    assert_eq!(r.as_rgba8(), &vec![0u8; 24]);
    assert_eq!(r.get_pixel(2, 1), CLEAR);
}

#[test]
fn empty_raster_has_no_bytes() {
    let r = Raster::new(0, 5);
    assert_eq!(r.width(), 0);
    assert_eq!(r.height(), 5);
    assert!(r.as_rgba8().is_empty());
}

#[test]
fn filled_raster_has_one_colour() {
    let r = Raster::filled(2, 2, RED);
    assert_eq!(r.as_rgba8(), &vec![255, 0, 0, 255, 255, 0, 0, 255, 255, 0, 0, 255, 255, 0, 0, 255]);
}

#[test]
fn fits_tells_machine_limits() {
    assert!(Raster::fits(800, 600));
    assert!(Raster::fits(0, 0));
    assert!(!Raster::fits(1 << 32, 1));
    assert!(!Raster::fits(1, 1 << 32));
    assert!(!Raster::fits(u32::MAX as u64, u32::MAX as u64));
}

#[test]
fn from_rgba8_reads_rows_from_the_top() {
    let bytes = vec![1, 2, 3, 4, 5, 6, 7, 8, 9, 10, 11, 12, 13, 14, 15, 16, 17, 18, 19, 20, 21, 22, 23, 24];
    let r = Raster::from_rgba8(3, 2, bytes.clone()).unwrap();
    assert_eq!(r.get_pixel(0, 0), Rgba { r: 1, g: 2, b: 3, a: 4 });
    assert_eq!(r.get_pixel(2, 0), Rgba { r: 9, g: 10, b: 11, a: 12 });
    assert_eq!(r.get_pixel(0, 1), Rgba { r: 13, g: 14, b: 15, a: 16 });
    assert_eq!(r.get_pixel(2, 1), Rgba { r: 21, g: 22, b: 23, a: 24 });
    assert_eq!(r.as_rgba8(), &bytes);
}

#[test]
fn from_rgba8_wants_the_exact_length() {
    assert!(Raster::from_rgba8(2, 2, vec![0; 15]).is_none());
    assert!(Raster::from_rgba8(2, 2, vec![0; 17]).is_none());
    assert!(Raster::from_rgba8(2, 2, vec![0; 16]).is_some());
    assert!(Raster::from_rgba8(0, 7, vec![]).is_some());
    assert!(Raster::from_rgba8(u32::MAX, u32::MAX, vec![0; 4]).is_none());
}

#[test]
fn put_pixel_changes_one_pixel() {
    let mut r = Raster::new(3, 3);
    r.put_pixel(1, 2, RED);
    for y in 0..3 {
        for x in 0..3 {
            let want = if (x, y) == (1, 2) { RED } else { CLEAR };
            assert_eq!(r.get_pixel(x, y), want);
        }
    }
}

#[test]
fn size_is_width_and_height() {
    let r = Raster::new(7, 9);
    let s = r.size();
    assert_eq!((s.width, s.height), (7, 9));
}

#[test]
fn crop_takes_the_part() {
    let mut r = Raster::new(4, 4);
    r.put_pixel(1, 1, RED);
    r.put_pixel(2, 2, BLUE);
    let c = r.crop(1, 1, 2, 3);
    assert_eq!((c.width(), c.height()), (2, 3));
    assert_eq!(c.get_pixel(0, 0), RED);
    assert_eq!(c.get_pixel(1, 1), BLUE);
    assert_eq!(c.get_pixel(1, 0), CLEAR);
    assert_eq!(c.get_pixel(0, 2), CLEAR);
    // the source is untouched
    assert_eq!(r.get_pixel(1, 1), RED);
}

#[test]
fn overlay_overwrites_inside_the_footprint() {
    let mut base = Raster::filled(4, 4, RED);
    let top = Raster::filled(2, 2, BLUE);
    base.overlay(&top, 1, 2);
    for y in 0..4u32 {
        for x in 0..4u32 {
            let inside = (1..3).contains(&x) && (2..4).contains(&y);
            assert_eq!(base.get_pixel(x, y), if inside { BLUE } else { RED });
        }
    }
}

#[test]
fn overlay_leaves_what_a_transparent_pixel_covers() {
    let mut base = Raster::filled(2, 1, RED);
    let mut top = Raster::new(2, 1);
    top.put_pixel(1, 0, Rgba { r: 9, g: 8, b: 7, a: 1 });
    base.overlay(&top, 0, 0);
    assert_eq!(base.get_pixel(0, 0), RED);
    assert_eq!(base.get_pixel(1, 0), Rgba { r: 9, g: 8, b: 7, a: 1 });
}

#[test]
fn overlay_clips_at_the_edges() {
    let mut base = Raster::filled(3, 3, RED);
    let top = Raster::filled(3, 3, BLUE);
    base.overlay(&top, -2, -2);
    assert_eq!(base.get_pixel(0, 0), BLUE);
    assert_eq!(base.get_pixel(1, 0), RED);
    assert_eq!(base.get_pixel(0, 1), RED);
    base.overlay(&top, 2, 2);
    assert_eq!(base.get_pixel(2, 2), BLUE);
    assert_eq!(base.get_pixel(1, 2), RED);
}

#[test]
fn overlay_far_away_changes_nothing() {
    let mut base = Raster::filled(3, 3, RED);
    let top = Raster::filled(3, 3, BLUE);
    base.overlay(&top, i64::MAX, 0);
    base.overlay(&top, i64::MIN, i64::MIN);
    base.overlay(&top, 3, 0);
    base.overlay(&top, 0, -3);
    assert_eq!(base.as_rgba8(), Raster::filled(3, 3, RED).as_rgba8());
}

#[test]
fn overlay_within_paints_only_in_the_window() {
    let mut base = Raster::filled(4, 4, RED);
    let top = Raster::filled(4, 4, BLUE);
    base.overlay_within(&top, 0, 0, Window { x0: 1, y0: 1, x1: 3, y1: 2 });
    for y in 0..4u32 {
        for x in 0..4u32 {
            let inside = (1..3).contains(&x) && y == 1;
            assert_eq!(base.get_pixel(x, y), if inside { BLUE } else { RED });
        }
    }
    base.overlay_within(&top, 0, 0, Window { x0: 3, y0: 0, x1: 1, y1: 4 });
    assert_eq!(base.get_pixel(0, 0), RED);
}
