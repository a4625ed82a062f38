use preview_cache::key::{
    aligned_start_ms, clamped_segment, clamped_start_ms, clamped_window, derive_key,
};

#[test]
fn aligned_start_is_floored_multiple() {
    // 4-second segments: 9.5s floors to 8s.
    assert_eq!(aligned_start_ms(9_500, 4), 8_000);
    // Exact multiples stay put.
    assert_eq!(aligned_start_ms(8_000, 4), 8_000);
    // Zero stays zero.
    assert_eq!(aligned_start_ms(0, 4), 0);
}

#[test]
fn aligned_start_respects_clamped_segment() {
    // A segment duration below the minimum is clamped to 2 seconds.
    assert_eq!(clamped_segment(0), 2);
    assert_eq!(clamped_segment(1), 2);
    assert_eq!(clamped_segment(7), 7);
    // 5s with a clamped 2s segment floors to 4s.
    assert_eq!(aligned_start_ms(5_000, 0), 4_000);
}

#[test]
fn aligned_start_bounds_hold_on_samples() {
    for &(start, seg) in &[(0u64, 1u32), (999, 2), (123_456, 4), (30_000, 10), (7, 3)] {
        let a = aligned_start_ms(start, seg);
        let m = clamped_segment(seg) as u64 * 1000;
        assert!(a <= start);
        assert_eq!(a % m, 0);
    }
}

#[test]
fn window_defaults_and_clamps() {
    // Absent: defaults to 600 seconds.
    assert_eq!(clamped_window(None, 4), 600);
    // Too small: at least three segments.
    assert_eq!(clamped_window(Some(5), 4), 12);
    // Large enough: kept.
    assert_eq!(clamped_window(Some(100), 4), 100);
    // The clamp uses the clamped segment duration.
    assert_eq!(clamped_window(Some(1), 0), 6);
}

#[test]
fn start_clamps_to_zero() {
    assert_eq!(clamped_start_ms(None), 0);
    assert_eq!(clamped_start_ms(Some(-5)), 0);
    assert_eq!(clamped_start_ms(Some(7)), 7);
}

#[test]
fn same_aligned_start_gives_same_key() {
    // 8.0s and 9.999s both floor to 8s under 4-second segments.
    let a = derive_key("/videos/a.mp4", 1_000_000, 1_700_000_000, 123, 4, Some(600), Some(8_000));
    let b = derive_key("/videos/a.mp4", 1_000_000, 1_700_000_000, 123, 4, Some(600), Some(9_999));
    assert_eq!(a.value, b.value);
}

#[test]
fn different_aligned_start_gives_different_key() {
    let a = derive_key("/videos/a.mp4", 1_000_000, 1_700_000_000, 123, 4, Some(600), Some(8_000));
    let b = derive_key("/videos/a.mp4", 1_000_000, 1_700_000_000, 123, 4, Some(600), Some(12_000));
    assert_ne!(a.value, b.value);
}

#[test]
fn key_is_deterministic() {
    let a = derive_key("/videos/a.mp4", 42, 99, 7, 4, None, None);
    let b = derive_key("/videos/a.mp4", 42, 99, 7, 4, None, None);
    assert_eq!(a.value, b.value);
}

#[test]
fn mtime_change_changes_key() {
    let a = derive_key("/videos/a.mp4", 42, 1_700_000_000, 0, 4, None, None);
    let b = derive_key("/videos/a.mp4", 42, 1_700_000_001, 0, 4, None, None);
    let c = derive_key("/videos/a.mp4", 42, 1_700_000_000, 1, 4, None, None);
    assert_ne!(a.value, b.value);
    assert_ne!(a.value, c.value);
}

#[test]
fn path_and_size_participate_in_key() {
    let a = derive_key("/videos/a.mp4", 42, 99, 7, 4, None, None);
    let b = derive_key("/videos/b.mp4", 42, 99, 7, 4, None, None);
    let c = derive_key("/videos/a.mp4", 43, 99, 7, 4, None, None);
    assert_ne!(a.value, b.value);
    assert_ne!(a.value, c.value);
}

#[test]
fn id_string_is_fixed_width_hex() {
    let k = derive_key("/videos/a.mp4", 42, 99, 7, 4, None, None);
    let id = k.id_string();
    assert_eq!(id.len(), 32);
    assert!(id.chars().all(|c| c.is_ascii_hexdigit() && !c.is_ascii_uppercase()));
}
