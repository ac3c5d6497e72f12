use ui_core::geometry::LogicalPosition;
use ui_core::geometry::LogicalSize;
use ui_core::geometry::PhysicalPosition;
use ui_core::geometry::PhysicalSize;
use ui_core::geometry::ScaleFactor;
use ui_core::geometry::WindowPosition;
use ui_core::geometry::WindowSize;

fn scale(factor_times_65536: u32) -> ScaleFactor {
    ScaleFactor::new(factor_times_65536)
}

#[test]
fn logical_physical_pos() {
    let phys = PhysicalPosition::new(100, 50);
    let logical = phys.to_logical(scale(2 * 65536));
    assert_eq!(logical.x, 50 * 65536);
    assert_eq!(logical.y, 25 * 65536);
    assert_eq!(logical.to_physical(scale(2 * 65536)), phys);
}

#[test]
fn logical_physical_size() {
    let phys = PhysicalSize::new(100, 50);
    let logical = phys.to_logical(scale(2 * 65536));
    assert_eq!(logical.width, 50 * 65536);
    assert_eq!(logical.height, 25 * 65536);
    assert_eq!(logical.to_physical(scale(2 * 65536)), phys);
}

#[test]
fn position_round_trip_odd_scale() {
    // A scale of 3/65536 of one: coarse and awkward, still exact.
    let s = scale(3);
    for &x in &[-7, -1, 0, 1, 2, 5, 1000, -123456] {
        let p = PhysicalPosition::new(x, -x);
        assert_eq!(p.to_logical(s).to_physical(s), p);
    }
    let s125 = scale(65536 + 16384); // 1.25
    for &x in &[i32::MIN, i32::MAX, 3, -3] {
        let p = PhysicalPosition::new(x, 0);
        assert_eq!(p.to_logical(s125).to_physical(s125), p);
    }
}

#[test]
fn size_round_trip_various_scales() {
    for &units in &[1u32, 2, 3, 65536, 131072, 98304, u32::MAX] {
        let s = scale(units);
        for &w in &[0u32, 1, 2, 640, 4096, u32::MAX] {
            let p = PhysicalSize::new(w, w / 2 + 1);
            assert_eq!(p.to_logical(s).to_physical(s), p);
        }
    }
}

#[test]
fn logical_position_from_pixels() {
    let l = LogicalPosition::from_pixels(50, 25);
    assert_eq!(l.x, 50 * 65536);
    assert_eq!(l.y, 25 * 65536);
    let p = l.to_physical(scale(2 * 65536));
    assert_eq!(p, PhysicalPosition::new(100, 50));
}

#[test]
fn window_position_conversions() {
    let s = scale(2 * 65536);
    let wp = WindowPosition::Physical(PhysicalPosition::new(10, 20));
    assert_eq!(wp.to_physical(s), PhysicalPosition::new(10, 20));
    let wl = WindowPosition::Logical(LogicalPosition::from_pixels(10, 20));
    assert_eq!(wl.to_physical(s), PhysicalPosition::new(20, 40));
}

#[test]
fn window_size_conversions() {
    let s = scale(2 * 65536);
    let ws = WindowSize::Physical(PhysicalSize::new(640, 480));
    assert_eq!(ws.to_physical(s), PhysicalSize::new(640, 480));
    assert_eq!(ws.to_logical(s), LogicalSize::new(320 * 65536, 240 * 65536));
    let wl = WindowSize::Logical(LogicalSize::from_pixels(320, 240));
    assert_eq!(wl.to_physical(s), PhysicalSize::new(640, 480));
    assert_eq!(wl.to_logical(s), LogicalSize::new(320 * 65536, 240 * 65536));
}

#[test]
fn physical_conversion_clamps() {
    // A huge logical coordinate at a large scale exceeds the physical
    // range and clamps at its edges.
    let s = scale(u32::MAX);
    let l = LogicalPosition::new(i64::MAX, i64::MIN);
    let p = l.to_physical(s);
    assert_eq!(p.x, i32::MAX);
    assert_eq!(p.y, i32::MIN);
}
