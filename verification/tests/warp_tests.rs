//! Test of the smoothstep shape used by ribbon warp rendering.

use timecore::ZoneId;

#[test]
fn test_warp_smoothstep() {
    // Verify smoothstep at boundaries
    let u_start: f32 = 0.0;
    let u_end: f32 = 1.0;
    let u_mid: f32 = 0.5;

    let ss_start = u_start * u_start * (3.0 - 2.0 * u_start);
    let ss_end = u_end * u_end * (3.0 - 2.0 * u_end);
    let ss_mid = u_mid * u_mid * (3.0 - 2.0 * u_mid);

    assert!((ss_start - 0.0).abs() < 0.001);
    assert!((ss_end - 1.0).abs() < 0.001);
    assert!((ss_mid - 0.5).abs() < 0.001);
}

#[test]
fn test_utc_zone_exists() {
    assert_eq!(ZoneId::utc().name(), "UTC");
}
