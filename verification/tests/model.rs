use wlx_monitors::numfmt::{fmt_i32, fmt_u64};
use wlx_monitors::{WlScale, WlTransform};

#[test]
fn transform_wire_round_trip_all_variants() {
    let variants = [
        WlTransform::Normal,
        WlTransform::Rotate90,
        WlTransform::Rotate180,
        WlTransform::Rotate270,
        WlTransform::Flipped,
        WlTransform::Flipped90,
        WlTransform::Flipped180,
        WlTransform::Flipped270,
    ];
    for t in variants {
        assert_eq!(WlTransform::from_wayland(t.to_wayland()), t);
    }
}

#[test]
fn transform_wire_values_match_protocol() {
    assert_eq!(WlTransform::Normal.to_wayland(), 0);
    assert_eq!(WlTransform::Rotate90.to_wayland(), 1);
    assert_eq!(WlTransform::Rotate180.to_wayland(), 2);
    assert_eq!(WlTransform::Rotate270.to_wayland(), 3);
    assert_eq!(WlTransform::Flipped.to_wayland(), 4);
    assert_eq!(WlTransform::Flipped90.to_wayland(), 5);
    assert_eq!(WlTransform::Flipped180.to_wayland(), 6);
    assert_eq!(WlTransform::Flipped270.to_wayland(), 7);
}

#[test]
fn transform_unknown_wire_value_normalizes() {
    assert_eq!(WlTransform::from_wayland(8), WlTransform::Normal);
    assert_eq!(WlTransform::from_wayland(99), WlTransform::Normal);
    assert_eq!(WlTransform::from_wayland(u32::MAX), WlTransform::Normal);
}

#[test]
fn scale_validity() {
    assert!(WlScale { units: 256, finite: true }.is_valid());
    assert!(WlScale { units: 1, finite: true }.is_valid());
    assert!(!WlScale { units: 0, finite: true }.is_valid());
    assert!(!WlScale { units: -256, finite: true }.is_valid());
    assert!(!WlScale { units: 256, finite: false }.is_valid());
    assert_eq!(WlScale::one(), WlScale { units: 256, finite: true });
}

#[test]
fn scale_describe_renders_fraction() {
    assert_eq!(WlScale { units: 384, finite: true }.describe(), "384/256");
    assert_eq!(WlScale { units: -512, finite: true }.describe(), "-512/256");
    assert_eq!(WlScale { units: 0, finite: false }.describe(), "non-finite");
}

#[test]
fn decimal_rendering_exact() {
    assert_eq!(fmt_u64(0), "0");
    assert_eq!(fmt_u64(7), "7");
    assert_eq!(fmt_u64(1080), "1080");
    assert_eq!(fmt_u64(u64::MAX), "18446744073709551615");
    assert_eq!(fmt_i32(0), "0");
    assert_eq!(fmt_i32(-1), "-1");
    assert_eq!(fmt_i32(1920), "1920");
    assert_eq!(fmt_i32(i32::MAX), "2147483647");
    assert_eq!(fmt_i32(i32::MIN), "-2147483648");
}
