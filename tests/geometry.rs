use clui_base::{Corner, Point, Rect, Scalar, Size, SUBPIXELS};

fn px(p: i32) -> Scalar {
    Scalar::from_pixels(p)
}

fn pt(x: i32, y: i32) -> Point {
    Point { x: px(x), y: px(y) }
}

#[test]
fn has_rect_create() {
    let r = Rect::from_values(px(1), px(2), px(3), px(4));
    assert_eq!(r.point, Point::from_xy(px(1), px(2)));
    assert_eq!(r.size, Size::from_wh(px(3), px(4)));
}

#[test]
fn edge_positions() {
    let r = Rect::from_corners(pt(1, 2), pt(11, 20));
    assert_eq!(r.width(), px(10));
    assert_eq!(r.height(), px(18));
    assert_eq!(r.top(), px(2));
    assert_eq!(r.bottom(), px(20));
    assert_eq!(r.left(), px(1));
    assert_eq!(r.right(), px(11));
    assert_eq!(r.bottom_right(), pt(11, 20));
}

#[test]
fn rect_move_to() {
    let r = Rect::from_values(px(5), px(10), px(10), px(20));
    assert_eq!(r.center(), pt(10, 20));
    let r2 = r.move_to(pt(20, 30));
    assert_eq!(r2.center(), pt(25, 40));
}

#[test]
fn rect_contains_point() {
    let r = Rect::from_pos_and_size(
        pt(5, 10),
        Size {
            width: px(10),
            height: px(20),
        },
    );
    assert_eq!(r.contains_point(pt(0, 0)), false);
    assert_eq!(r.contains_point(pt(6, 11)), true);
    assert_eq!(r.contains_point(pt(6, 0)), false);
    assert_eq!(r.contains_point(pt(6, 50)), false);
    assert_eq!(r.contains_point(pt(36, 11)), false);
}

#[test]
fn rect_from_rects() {
    let r1 = Rect::from_values(px(5), px(5), px(15), px(20));
    let r2 = Rect::from_values(px(24), px(18), px(5), px(10));

    let r3 = Rect::from_rects(&r1, &r2);

    assert_eq!(r3.width(), px(24));
    assert_eq!(r3.height(), px(23));
    // 16.5 pixels
    assert_eq!(r3.center(), Point { x: px(17), y: Scalar::from_units(1056) });
}

#[test]
fn size_with_height() {
    let size1 = Size::from_wh(px(10), px(20));
    let size2 = size1.with_height(px(35));
    assert_eq!(size1.width, size2.width);
    assert_eq!(size2.height, px(35));
}

#[test]
fn size_with_width() {
    let size1 = Size::from_wh(px(10), px(20));
    let size2 = size1.with_width(px(35));
    assert_eq!(size1.height, size2.height);
    assert_eq!(size2.width, px(35));
}

#[test]
fn size_grow() {
    let size1 = Size::from_wh(px(10), px(20));
    let size2 = size1.grow(px(1), px(2));
    assert_eq!(size2.height, px(22));
    assert_eq!(size2.width, px(11));
}

#[test]
fn size_shrink() {
    let size1 = Size::from_wh(px(10), px(20));
    let size2 = size1.shrink(px(1), px(2));
    assert_eq!(size2.height, px(18));
    assert_eq!(size2.width, px(9));
}

#[test]
fn from_values_example() {
    let r = Rect::from_values(px(1), px(2), px(3), px(4));
    assert_eq!(r.point, pt(1, 2));
    assert_eq!(r.size, Size::from_wh(px(3), px(4)));
    assert_eq!(r.right(), px(4));
    assert_eq!(r.bottom(), px(6));
    // (2.5, 4) pixels
    assert_eq!(r.center(), Point { x: Scalar::from_units(160), y: px(4) });
}

#[test]
fn pixels_are_sixty_four_units() {
    assert_eq!(SUBPIXELS, 64);
    assert_eq!(px(3).units, 192);
    assert_eq!(px(-2).units, -128);
}

#[test]
fn contains_point_boundary_is_closed() {
    let r = Rect::from_values(px(5), px(10), px(10), px(20));
    assert!(r.contains_point(r.point));
    assert!(r.contains_point(r.bottom_right()));
    assert!(r.contains_point(pt(15, 10)));
    assert!(r.contains_point(pt(5, 30)));
    assert!(!r.contains_point(Point { x: Scalar::from_units(15 * 64 + 1), y: px(20) }));
    assert!(!r.contains_point(Point { x: px(10), y: Scalar::from_units(10 * 64 - 1) }));
}

#[test]
fn contains_point_of_empty_rect() {
    let r = Rect::from_values(px(3), px(3), px(0), px(0));
    assert!(r.contains_point(pt(3, 3)));
    assert!(!r.contains_point(pt(4, 3)));
}

#[test]
fn from_corners_is_symmetric() {
    let a = pt(11, 2);
    let b = pt(1, 20);
    assert_eq!(Rect::from_corners(a, b), Rect::from_corners(b, a));
    let r = Rect::from_corners(a, b);
    assert_eq!(r.point, pt(1, 2));
    assert_eq!(r.size, Size::from_wh(px(10), px(18)));
}

#[test]
fn from_corners_of_one_point_is_empty() {
    let r = Rect::from_corners(pt(-4, 7), pt(-4, 7));
    assert_eq!(r.point, pt(-4, 7));
    assert_eq!(r.size, Size::from_wh(px(0), px(0)));
}

#[test]
fn from_rects_covers_both() {
    let r1 = Rect::from_values(px(5), px(5), px(15), px(20));
    let r2 = Rect::from_values(px(24), px(18), px(5), px(10));
    let u = Rect::from_rects(&r1, &r2);
    for r in [r1, r2] {
        assert!(u.contains_point(r.point));
        assert!(u.contains_point(r.bottom_right()));
        assert!(u.contains_point(pt(r.right().units / 64, r.top().units / 64)));
        assert!(u.contains_point(pt(r.left().units / 64, r.bottom().units / 64)));
    }
    assert_eq!(u.left(), px(5));
    assert_eq!(u.top(), px(5));
    assert_eq!(u.right(), px(29));
    assert_eq!(u.bottom(), px(28));
    assert_eq!(Rect::from_rects(&r2, &r1), u);
}

#[test]
fn center_rounds_down_to_a_unit() {
    let r = Rect::from_values(Scalar::from_units(0), Scalar::from_units(0), Scalar::from_units(3), Scalar::from_units(-3));
    assert_eq!(r.center(), Point { x: Scalar::from_units(1), y: Scalar::from_units(-2) });
}

#[test]
fn defaults_are_zero() {
    let r = Rect::default();
    assert_eq!(r, Rect::from_values(px(0), px(0), px(0), px(0)));
    assert_eq!(Point::default(), pt(0, 0));
    assert_eq!(Size::default(), Size::from_wh(px(0), px(0)));
    assert_eq!(Scalar::default(), Scalar::zero());
}

#[test]
fn corners_are_distinct() {
    assert_ne!(Corner::TopLeft, Corner::BottomRight);
    assert_ne!(Corner::TopRight, Corner::BottomLeft);
}
