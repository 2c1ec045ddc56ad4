use paintr::geometry::{Rect, Window};
use paintr::raster::{Raster, Rgba};
use paintr::selection::{content_bounds, CopyMode, Selection};

const RED: Rgba = Rgba { r: 255, g: 0, b: 0, a: 255 };
const CLEAR: Rgba = Rgba { r: 0, g: 0, b: 0, a: 0 };

fn square_on_transparent() -> Raster {
    // an opaque 3 by 2 shape with its corner at (4, 5) on a 12 by 10 raster
    let mut r = Raster::new(12, 10);
    for y in 5..7 {
        for x in 4..7 {
            r.put_pixel(x, y, RED);
        }
    }
    r
}

#[test]
fn shrink_gives_the_box_of_the_shape() {
    let source = square_on_transparent();
    let sel = Selection::Rect(Rect { x: 1, y: 2, width: 10, height: 7 });
    let out = sel.copy(&source, CopyMode::Shrink).unwrap();
    assert_eq!((out.width(), out.height()), (3, 2));
    assert_eq!(out.as_rgba8(), Raster::filled(3, 2, RED).as_rgba8());
}

#[test]
fn exact_gives_the_whole_selection() {
    let source = square_on_transparent();
    let sel = Selection::Rect(Rect { x: 1, y: 2, width: 10, height: 7 });
    let out = sel.copy(&source, CopyMode::Exact).unwrap();
    assert_eq!((out.width(), out.height()), (10, 7));
    assert_eq!(out.get_pixel(3, 3), RED);
    assert_eq!(out.get_pixel(5, 4), RED);
    assert_eq!(out.get_pixel(2, 3), CLEAR);
    assert_eq!(out.get_pixel(6, 4), CLEAR);
    assert_eq!(out.get_pixel(3, 5), CLEAR);
}

#[test]
fn copy_leaves_the_source_alone() {
    let source = square_on_transparent();
    let before = source.as_rgba8().clone();
    let sel = Selection::Rect(Rect { x: 0, y: 0, width: 12, height: 10 });
    sel.copy(&source, CopyMode::Shrink);
    sel.copy(&source, CopyMode::Exact);
    assert_eq!(source.as_rgba8(), &before);
}

#[test]
fn selection_off_the_source_gives_nothing() {
    let source = square_on_transparent();
    for rect in [
        Rect { x: 12, y: 0, width: 5, height: 5 },
        Rect { x: 0, y: 10, width: 5, height: 5 },
        Rect { x: -5, y: 0, width: 5, height: 5 },
        Rect { x: 0, y: -5, width: 5, height: 5 },
        Rect { x: 3, y: 3, width: 0, height: 4 },
        Rect { x: 3, y: 3, width: 4, height: 0 },
        Rect { x: i32::MAX, y: i32::MAX, width: u32::MAX, height: u32::MAX },
    ] {
        assert!(Selection::Rect(rect).copy(&source, CopyMode::Exact).is_none());
        assert!(Selection::Rect(rect).copy(&source, CopyMode::Shrink).is_none());
    }
}

#[test]
fn selection_is_cut_to_the_source() {
    let source = square_on_transparent();
    let sel = Selection::Rect(Rect { x: -3, y: -3, width: 9, height: 9 });
    let out = sel.copy(&source, CopyMode::Exact).unwrap();
    assert_eq!((out.width(), out.height()), (6, 6));
    assert_eq!(out.get_pixel(4, 5), RED);
    let sel = Selection::Rect(Rect { x: 5, y: 6, width: u32::MAX, height: u32::MAX });
    let out = sel.copy(&source, CopyMode::Exact).unwrap();
    assert_eq!((out.width(), out.height()), (7, 4));
    assert_eq!(out.get_pixel(0, 0), RED);
    assert_eq!(out.get_pixel(1, 0), RED);
    assert_eq!(out.get_pixel(2, 0), CLEAR);
}

#[test]
fn shrink_sees_only_what_is_selected() {
    let source = square_on_transparent();
    // the selection holds the right column of the shape only
    let sel = Selection::Rect(Rect { x: 6, y: 0, width: 6, height: 10 });
    let out = sel.copy(&source, CopyMode::Shrink).unwrap();
    assert_eq!((out.width(), out.height()), (1, 2));
    assert_eq!(out.get_pixel(0, 1), RED);
}

#[test]
fn shrink_of_nothing_visible_gives_nothing() {
    let source = square_on_transparent();
    let sel = Selection::Rect(Rect { x: 0, y: 0, width: 4, height: 10 });
    assert!(sel.copy(&source, CopyMode::Shrink).is_none());
    assert!(sel.copy(&source, CopyMode::Exact).is_some());
}

#[test]
fn shrink_spans_separate_shapes() {
    let mut source = Raster::new(9, 9);
    source.put_pixel(7, 1, RED);
    source.put_pixel(2, 6, Rgba { r: 1, g: 2, b: 3, a: 1 });
    let sel = Selection::Rect(Rect { x: 0, y: 0, width: 9, height: 9 });
    let out = sel.copy(&source, CopyMode::Shrink).unwrap();
    assert_eq!((out.width(), out.height()), (6, 6));
    assert_eq!(out.get_pixel(5, 0), RED);
    assert_eq!(out.get_pixel(0, 5), Rgba { r: 1, g: 2, b: 3, a: 1 });
    assert_eq!(out.get_pixel(0, 0), CLEAR);
}

#[test]
fn content_bounds_is_the_tight_box() {
    let source = square_on_transparent();
    let all = Window { x0: -100, y0: -100, x1: 100, y1: 100 };
    assert_eq!(content_bounds(&source, all), Some(Window { x0: 4, y0: 5, x1: 7, y1: 7 }));
    let part = Window { x0: 5, y0: 6, x1: 12, y1: 10 };
    assert_eq!(content_bounds(&source, part), Some(Window { x0: 5, y0: 6, x1: 7, y1: 7 }));
    let none = Window { x0: 0, y0: 0, x1: 4, y1: 10 };
    assert_eq!(content_bounds(&source, none), None);
    let inverted = Window { x0: 8, y0: 8, x1: 2, y1: 2 };
    assert_eq!(content_bounds(&source, inverted), None);
}

#[test]
fn description_gives_corner_and_size() {
    let sel = Selection::Rect(Rect { x: 10, y: -20, width: 100, height: 50 });
    assert_eq!(sel.description(), "X: 10, Y: -20, W: 100, H: 50");
    let sel = Selection::Rect(Rect { x: i32::MIN, y: i32::MAX, width: 0, height: u32::MAX });
    assert_eq!(sel.description(), "X: -2147483648, Y: 2147483647, W: 0, H: 4294967295");
    assert_eq!(sel.rect(), Rect { x: i32::MIN, y: i32::MAX, width: 0, height: u32::MAX });
}
