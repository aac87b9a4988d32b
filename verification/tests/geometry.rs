use nanaimo::edges::{cursor_icon_for_edge, CursorIcon, ResizeEdge};
use nanaimo::geometry::{
    round_to_units, saturate_i32, trunc_to_units, Point, PointerLocation, Size, SUBPIXELS,
};
use nanaimo::table::Table;

#[test]
fn rounding_goes_to_the_nearest_unit() {
    assert_eq!(round_to_units(0), 0);
    assert_eq!(round_to_units(127), 0);
    assert_eq!(round_to_units(128), 1);
    assert_eq!(round_to_units(383), 1);
    assert_eq!(round_to_units(384), 2);
    assert_eq!(round_to_units(-127), 0);
    assert_eq!(round_to_units(-128), -1);
    assert_eq!(round_to_units(-383), -1);
    assert_eq!(round_to_units(-384), -2);
    assert_eq!(round_to_units(256 * 1000), 1000);
}

#[test]
fn truncation_drops_the_fraction_towards_zero() {
    assert_eq!(trunc_to_units(0), 0);
    assert_eq!(trunc_to_units(255), 0);
    assert_eq!(trunc_to_units(256), 1);
    assert_eq!(trunc_to_units(511), 1);
    assert_eq!(trunc_to_units(-255), 0);
    assert_eq!(trunc_to_units(-256), -1);
    assert_eq!(trunc_to_units(-511), -1);
    assert_eq!(trunc_to_units(-512), -2);
}

#[test]
fn saturation_stops_at_the_ends_of_i32() {
    assert_eq!(saturate_i32(0), 0);
    assert_eq!(saturate_i32(-5), -5);
    assert_eq!(saturate_i32(i32::MAX as i128), i32::MAX);
    assert_eq!(saturate_i32(i32::MAX as i128 + 1), i32::MAX);
    assert_eq!(saturate_i32(i32::MIN as i128), i32::MIN);
    assert_eq!(saturate_i32(i32::MIN as i128 - 1), i32::MIN);
    assert_eq!(saturate_i32(i128::MAX), i32::MAX);
    assert_eq!(saturate_i32(i128::MIN), i32::MIN);
}

#[test]
fn constructors_keep_their_arguments() {
    assert_eq!(Point::new(3, -4), Point { x: 3, y: -4 });
    assert_eq!(Size::new(5, 6), Size { w: 5, h: 6 });
    assert_eq!(PointerLocation::new(7, -8), PointerLocation { x: 7, y: -8 });
    assert_eq!(SUBPIXELS, 256);
    assert_eq!(
        PointerLocation::from_point(Point { x: i32::MIN, y: i32::MAX }),
        PointerLocation { x: i32::MIN as i64 * 256, y: i32::MAX as i64 * 256 }
    );
}

#[test]
fn edge_masks_round_trip() {
    let all = [
        (ResizeEdge::NoEdge, 0u32),
        (ResizeEdge::Top, 1),
        (ResizeEdge::Bottom, 2),
        (ResizeEdge::Left, 4),
        (ResizeEdge::TopLeft, 5),
        (ResizeEdge::BottomLeft, 6),
        (ResizeEdge::Right, 8),
        (ResizeEdge::TopRight, 9),
        (ResizeEdge::BottomRight, 10),
    ];
    for (edge, bits) in all {
        assert_eq!(edge.bits(), bits);
        assert_eq!(ResizeEdge::from_bits(bits), Some(edge));
        assert_eq!(edge.has_top(), bits & 1 != 0);
        assert_eq!(edge.has_bottom(), bits & 2 != 0);
        assert_eq!(edge.has_left(), bits & 4 != 0);
        assert_eq!(edge.has_right(), bits & 8 != 0);
    }
}

#[test]
fn edge_masks_with_opposite_sides_are_refused() {
    for bits in [3u32, 7, 11, 12, 15, 16, 255, u32::MAX] {
        assert_eq!(ResizeEdge::from_bits(bits), None);
    }
}

#[test]
fn cursor_follows_the_edge() {
    assert_eq!(cursor_icon_for_edge(ResizeEdge::Top), CursorIcon::NResize);
    assert_eq!(cursor_icon_for_edge(ResizeEdge::Bottom), CursorIcon::SResize);
    assert_eq!(cursor_icon_for_edge(ResizeEdge::Left), CursorIcon::WResize);
    assert_eq!(cursor_icon_for_edge(ResizeEdge::Right), CursorIcon::EResize);
    assert_eq!(cursor_icon_for_edge(ResizeEdge::TopLeft), CursorIcon::NwResize);
    assert_eq!(cursor_icon_for_edge(ResizeEdge::TopRight), CursorIcon::NeResize);
    assert_eq!(cursor_icon_for_edge(ResizeEdge::BottomLeft), CursorIcon::SwResize);
    assert_eq!(cursor_icon_for_edge(ResizeEdge::BottomRight), CursorIcon::SeResize);
    assert_eq!(cursor_icon_for_edge(ResizeEdge::NoEdge), CursorIcon::Default);
}

#[test]
fn table_insert_get_remove() {
    let mut t: Table<i32> = Table::new();
    assert_eq!(t.len(), 0);
    assert_eq!(t.get(1), None);
    assert!(!t.contains_key(1));
    t.insert(1, 10);
    t.insert(2, 20);
    t.insert(1, 11);
    assert_eq!(t.len(), 2);
    assert_eq!(t.get(1), Some(11));
    assert_eq!(t.get(2), Some(20));
    assert_eq!(t.find(2), Some(1));
    assert!(t.contains_key(2));
    assert!(!t.insert_if_missing(2, 99));
    assert_eq!(t.get(2), Some(20));
    assert!(t.insert_if_missing(3, 30));
    assert_eq!(t.get(3), Some(30));
    assert_eq!(t.remove(1), Some(11));
    assert_eq!(t.remove(1), None);
    assert_eq!(t.get(1), None);
    assert_eq!(t.get(2), Some(20));
    assert_eq!(t.get(3), Some(30));
    assert_eq!(t.len(), 2);
}
