use paintr::geometry::{Point, Size, Vec2};
use paintr::plane::{Plane, Planes};
use paintr::raster::{Raster, Rgba};
use std::sync::Arc;

const RED: Rgba = Rgba { r: 255, g: 0, b: 0, a: 255 };
const BLUE: Rgba = Rgba { r: 0, g: 0, b: 255, a: 255 };
const GREEN: Rgba = Rgba { r: 0, g: 255, b: 0, a: 255 };
const CLEAR: Rgba = Rgba { r: 0, g: 0, b: 0, a: 0 };

#[test]
fn empty_stack_has_no_size_and_no_image() {
    let planes = Planes::new();
    assert_eq!(planes.len(), 0);
    assert_eq!(planes.max_size(), None);
    assert_eq!(planes.paint_size(), None);
    assert!(planes.fits());
    assert!(planes.merged().is_none());
}

#[test]
fn plane_paint_size_is_its_image_size() {
    let plane = Plane::from_raster(Raster::new(7, 3));
    assert_eq!(plane.paint_size(), Some(Size { width: 7, height: 3 }));
    assert_eq!(plane.image().width(), 7);
}

#[test]
fn push_puts_planes_at_offset_zero() {
    let mut planes = Planes::new();
    planes.push(Plane::from_raster(Raster::filled(5, 4, RED)));
    planes.push(Plane::from_raster(Raster::filled(2, 9, BLUE)));
    assert_eq!(planes.len(), 2);
    assert_eq!(planes.max_size(), Some(Size { width: 5, height: 9 }));
    let merged = planes.merged().unwrap();
    assert_eq!((merged.width(), merged.height()), (5, 9));
    assert_eq!(merged.get_pixel(0, 0), BLUE);
    assert_eq!(merged.get_pixel(2, 0), RED);
    assert_eq!(merged.get_pixel(0, 4), BLUE);
    assert_eq!(merged.get_pixel(4, 8), CLEAR);
}

#[test]
fn two_planes_red_below_blue() {
    let mut planes = Planes::new();
    planes.push(Plane::from_raster(Raster::filled(50, 50, RED)));
    planes.push(Plane::from_raster(Raster::filled(50, 50, BLUE)));
    assert_eq!(planes.mov(Vec2 { x: 25, y: 25 }), Some(Point { x: 25, y: 25 }));
    assert_eq!(planes.max_size(), Some(Size { width: 75, height: 75 }));
    let merged = planes.merged().unwrap();
    assert_eq!((merged.width(), merged.height()), (75, 75));
    assert_eq!(merged.get_pixel(10, 10), RED);
    assert_eq!(merged.get_pixel(60, 60), BLUE);
    assert_eq!(merged.get_pixel(30, 30), BLUE);
    assert_eq!(merged.get_pixel(60, 10), CLEAR);
    assert_eq!(merged.get_pixel(10, 60), CLEAR);
}

#[test]
fn merged_has_the_size_of_max_size() {
    let mut planes = Planes::new();
    planes.push(Plane::from_raster(Raster::filled(3, 8, RED)));
    planes.mov(Vec2 { x: 4, y: -2 });
    planes.push(Plane::from_raster(Raster::filled(6, 1, GREEN)));
    planes.mov(Vec2 { x: -1, y: 10 });
    let size = planes.max_size().unwrap();
    assert_eq!(size, Size { width: 7, height: 11 });
    let merged = planes.merged().unwrap();
    assert_eq!((merged.width() as u64, merged.height() as u64), (size.width, size.height));
}

#[test]
fn mov_moves_the_top_plane_only() {
    let mut planes = Planes::new();
    assert_eq!(planes.mov(Vec2 { x: 1, y: 1 }), None);
    assert_eq!(planes.len(), 0);
    planes.push(Plane::from_raster(Raster::filled(2, 2, RED)));
    planes.push(Plane::from_raster(Raster::filled(1, 1, BLUE)));
    assert_eq!(planes.mov(Vec2 { x: 3, y: 4 }), Some(Point { x: 3, y: 4 }));
    assert_eq!(planes.mov(Vec2 { x: -1, y: 2 }), Some(Point { x: 2, y: 6 }));
    let merged = planes.merged().unwrap();
    assert_eq!((merged.width(), merged.height()), (3, 7));
    assert_eq!(merged.get_pixel(0, 0), RED);
    assert_eq!(merged.get_pixel(2, 6), BLUE);
}

#[test]
fn plane_left_of_the_origin_is_cut() {
    let mut planes = Planes::new();
    planes.push(Plane::from_raster(Raster::filled(4, 4, RED)));
    planes.mov(Vec2 { x: -3, y: -1 });
    assert_eq!(planes.max_size(), Some(Size { width: 1, height: 3 }));
    let merged = planes.merged().unwrap();
    assert_eq!(merged.as_rgba8(), Raster::filled(1, 3, RED).as_rgba8());
    planes.mov(Vec2 { x: -1, y: 0 });
    assert_eq!(planes.max_size(), Some(Size { width: 0, height: 3 }));
    let merged = planes.merged().unwrap();
    assert_eq!((merged.width(), merged.height()), (0, 3));
}

#[test]
fn fit_checks_look_ahead() {
    let mut planes = Planes::new();
    planes.push(Plane::from_raster(Raster::filled(2, 2, RED)));
    assert!(planes.fits());
    assert!(planes.pushed_fits(&Plane::from_raster(Raster::new(9, 9))));
    assert!(planes.moved_fits(Vec2 { x: 5, y: 5 }));
    assert!(!planes.moved_fits(Vec2 { x: i32::MAX, y: i32::MAX }));
    planes.mov(Vec2 { x: 1, y: 0 });
    assert!(!planes.moved_fits(Vec2 { x: i32::MAX, y: 0 }));
    assert!(!Planes::new().moved_fits(Vec2 { x: 0, y: 0 }));
}

#[test]
fn painting_the_stack_is_painting_its_merged_image() {
    let mut planes = Planes::new();
    let mut holes = Raster::filled(4, 4, RED);
    holes.put_pixel(1, 1, CLEAR);
    holes.put_pixel(2, 3, CLEAR);
    planes.push(Plane::from_raster(holes));
    planes.mov(Vec2 { x: -2, y: 1 });
    planes.push(Plane::from_raster(Raster::filled(3, 2, BLUE)));
    planes.mov(Vec2 { x: 1, y: 2 });
    let merged = planes.merged().unwrap();
    for (ox, oy) in [(0, 0), (2, 1), (-1, -2), (7, 7), (-9, 0)] {
        let mut direct = Raster::filled(8, 8, GREEN);
        planes.paint(&mut direct, Point { x: ox, y: oy });
        let mut flat = Raster::filled(8, 8, GREEN);
        flat.overlay(&merged, ox as i64, oy as i64);
        assert_eq!(direct.as_rgba8(), flat.as_rgba8());
    }
    let mut direct = Raster::filled(8, 8, GREEN);
    planes.paint(&mut direct, Point { x: 2, y: 1 });
    assert_eq!(direct.get_pixel(1, 1), GREEN);
    assert_eq!(direct.get_pixel(2, 2), RED);
    assert_eq!(direct.get_pixel(3, 3), BLUE);
}

#[test]
fn painting_an_empty_stack_paints_nothing() {
    let mut surface = Raster::filled(2, 2, GREEN);
    Planes::new().paint(&mut surface, Point { x: 0, y: 0 });
    assert_eq!(surface.as_rgba8(), Raster::filled(2, 2, GREEN).as_rgba8());
}

#[test]
fn same_goes_by_the_buffer_not_by_the_pixels() {
    let shared = Arc::new(Raster::filled(2, 2, RED));
    let mut a = Planes::new();
    a.push(Plane::Image(shared.clone()));
    let mut b = Planes::new();
    b.push(Plane::Image(shared));
    assert!(a.same(&b));
    assert!(a.same(&a.duplicate()));
    // offsets are not compared
    b.mov(Vec2 { x: 5, y: 5 });
    assert!(a.same(&b));
    // equal pixels in another buffer are not the same
    let mut c = Planes::new();
    c.push(Plane::from_raster(Raster::filled(2, 2, RED)));
    assert!(!a.same(&c));
    // another length is not the same
    b.push(Plane::from_raster(Raster::new(1, 1)));
    assert!(!a.same(&b));
    assert!(Planes::new().same(&Planes::new()));
}

#[test]
fn a_plane_and_its_duplicate_hold_one_buffer() {
    let plane = Plane::from_raster(Raster::filled(1, 1, BLUE));
    let copy = plane.duplicate();
    assert!(plane.same(&copy));
    assert!(Arc::ptr_eq(&plane.image(), &copy.image()));
    assert!(!plane.same(&Plane::from_raster(Raster::filled(1, 1, BLUE))));
}

#[test]
fn a_plane_paints_inside_the_clip() {
    let plane = Plane::from_raster(Raster::filled(2, 2, BLUE));
    let mut surface = Raster::filled(3, 3, RED);
    plane.paint(&mut surface, 1, 1, paintr::geometry::Window { x0: 0, y0: 0, x1: 2, y1: 3 });
    assert_eq!(surface.get_pixel(1, 1), BLUE);
    assert_eq!(surface.get_pixel(1, 2), BLUE);
    assert_eq!(surface.get_pixel(2, 1), RED);
    assert_eq!(surface.get_pixel(0, 0), RED);
}

#[test]
fn a_plane_from_a_buffer_holds_that_buffer() {
    let buffer = Arc::new(Raster::filled(2, 1, GREEN));
    let plane = Plane::from(buffer.clone());
    assert!(Arc::ptr_eq(&plane.image(), &buffer));
}

#[test]
fn describe_names_kind_and_size() {
    let plane = Plane::from_raster(Raster::new(640, 480));
    assert_eq!(plane.describe(), "Plane { Image : DynamicImage[640, 480] }");
    let plane = Plane::from_raster(Raster::new(0, 0));
    assert_eq!(plane.describe(), "Plane { Image : DynamicImage[0, 0] }");
}

#[test]
fn an_index_finds_its_plane_again() {
    let mut planes = Planes::new();
    let first = planes.push(Plane::from_raster(Raster::filled(2, 2, RED)));
    let second = planes.push(Plane::from_raster(Raster::filled(3, 3, BLUE)));
    planes.mov(Vec2 { x: 7, y: -7 });
    let layer = planes.layer(first).unwrap();
    assert_eq!(layer.transform, Vec2 { x: 0, y: 0 });
    assert_eq!(layer.inner.image().get_pixel(0, 0), RED);
    let layer = planes.layer(second).unwrap();
    assert_eq!(layer.transform, Vec2 { x: 7, y: -7 });
    assert_eq!(layer.inner.image().width(), 3);
    assert!(Planes::new().layer(first).is_none());
}

#[test]
fn can_move_tells_when_mov_may_be_called() {
    let mut planes = Planes::new();
    assert!(!planes.can_move(Vec2 { x: 0, y: 0 }));
    planes.push(Plane::from_raster(Raster::filled(2, 2, RED)));
    assert!(planes.can_move(Vec2 { x: i32::MAX, y: i32::MIN }));
    planes.mov(Vec2 { x: 1, y: -1 });
    assert!(!planes.can_move(Vec2 { x: i32::MAX, y: 0 }));
    assert!(!planes.can_move(Vec2 { x: 0, y: i32::MIN }));
    assert!(planes.can_move(Vec2 { x: i32::MAX - 1, y: i32::MIN + 1 }));
}

#[test]
fn describe_gives_width_before_height() {
    let plane = Plane::from_raster(Raster::new(3, 4));
    assert_eq!(plane.describe(), "Plane { Image : DynamicImage[3, 4] }");
}

#[test]
fn same_when_wants_a_yes_for_every_pair() {
    let mut a = Planes::new();
    let mut b = Planes::new();
    assert!(a.same_when(&b, &vec![]));
    assert!(!a.same_when(&b, &vec![true]));
    a.push(Plane::from_raster(Raster::new(1, 1)));
    a.push(Plane::from_raster(Raster::new(1, 1)));
    b.push(Plane::from_raster(Raster::new(1, 1)));
    assert!(!a.same_when(&b, &vec![true, true]));
    assert!(!a.same_when(&b, &vec![true]));
    b.push(Plane::from_raster(Raster::new(1, 1)));
    assert!(a.same_when(&b, &vec![true, true]));
    assert!(!a.same_when(&b, &vec![true, false]));
    assert!(!a.same_when(&b, &vec![false, true]));
    assert!(!a.same_when(&b, &vec![true]));
    assert!(!a.same_when(&b, &vec![true, true, true]));
    assert!(!a.same_when(&b, &vec![]));
}

#[test]
fn same_wants_the_same_buffer_at_every_place() {
    let shared = Arc::new(Raster::filled(1, 1, RED));
    let other = Arc::new(Raster::filled(1, 1, RED));
    let mut a = Planes::new();
    a.push(Plane::Image(shared.clone()));
    a.push(Plane::Image(other.clone()));
    let mut b = Planes::new();
    b.push(Plane::Image(shared.clone()));
    b.push(Plane::Image(other));
    assert!(a.same(&b));
    let mut c = Planes::new();
    c.push(Plane::Image(shared.clone()));
    c.push(Plane::Image(shared));
    assert!(!a.same(&c));
    assert!(!c.same(&a));
}
