use paintr::geometry::{Point, Rect, Vec2, Window};

#[test]
fn vec2_adds_where_it_can() {
    let a = Vec2 { x: 3, y: -4 };
    assert!(a.can_add(Vec2 { x: -3, y: 4 }));
    assert_eq!(a.plus(Vec2 { x: -5, y: 6 }), Vec2 { x: -2, y: 2 });
    assert!(!a.can_add(Vec2 { x: i32::MAX, y: 0 }));
    assert!(!a.can_add(Vec2 { x: 0, y: i32::MIN }));
    assert!(a.can_add(Vec2 { x: i32::MAX - 3, y: i32::MIN + 4 }));
    assert_eq!(a.plus(Vec2 { x: i32::MAX - 3, y: i32::MIN + 4 }), Vec2 { x: i32::MAX, y: i32::MIN });
    assert_eq!(Vec2::zero(), Vec2 { x: 0, y: 0 });
    assert_eq!(a.to_point(), Point { x: 3, y: -4 });
}

#[test]
fn windows_intersect() {
    let a = Window { x0: 0, y0: 0, x1: 10, y1: 10 };
    let b = Window { x0: 5, y0: -5, x1: 15, y1: 5 };
    assert_eq!(a.intersect(b), Window { x0: 5, y0: 0, x1: 10, y1: 5 });
    assert!(!a.intersect(b).is_empty());
    let c = Window { x0: 10, y0: 0, x1: 20, y1: 10 };
    assert!(a.intersect(c).is_empty());
    assert!(Window { x0: 3, y0: 0, x1: 3, y1: 9 }.is_empty());
}

#[test]
fn rect_window_is_corner_to_corner() {
    let r = Rect { x: -3, y: 4, width: 10, height: 2 };
    assert_eq!(r.window(), Window { x0: -3, y0: 4, x1: 7, y1: 6 });
    let r = Rect { x: i32::MAX, y: i32::MIN, width: u32::MAX, height: u32::MAX };
    assert_eq!(
        r.window(),
        Window { x0: 2147483647, y0: -2147483648, x1: 6442450942, y1: 2147483647 }
    );
}
