use oled_panel::clock::{clock_lines, LocalTime};
use oled_panel::framebuffer::Framebuffer;

#[test]
fn clock_lines_for_a_known_time() {
    let t = LocalTime::new(2026, 1, 5, 12, 0, 7).unwrap();
    assert_eq!(clock_lines(&t), vec!["Monday", " 5 Jan 2026", "12:00:07"]);
}

#[test]
fn clock_lines_double_digit_day() {
    let t = LocalTime::new(2024, 2, 29, 23, 59, 59).unwrap();
    assert_eq!(clock_lines(&t), vec!["Thursday", "29 Feb 2024", "23:59:59"]);
}

#[test]
fn local_time_rejects_impossible_readings() {
    assert!(LocalTime::new(2025, 2, 29, 0, 0, 0).is_none());
    assert!(LocalTime::new(1900, 2, 29, 0, 0, 0).is_none());
    assert!(LocalTime::new(2000, 2, 29, 0, 0, 0).is_some());
    assert!(LocalTime::new(2025, 4, 31, 0, 0, 0).is_none());
    assert!(LocalTime::new(2025, 13, 1, 0, 0, 0).is_none());
    assert!(LocalTime::new(2025, 0, 1, 0, 0, 0).is_none());
    assert!(LocalTime::new(2025, 1, 0, 0, 0, 0).is_none());
    assert!(LocalTime::new(2025, 1, 1, 24, 0, 0).is_none());
    assert!(LocalTime::new(2025, 1, 1, 0, 60, 0).is_none());
    assert!(LocalTime::new(2025, 1, 1, 0, 0, 60).is_none());
    assert!(LocalTime::new(262143, 1, 1, 0, 0, 0).is_none());
    assert!(LocalTime::new(-262143, 1, 1, 0, 0, 0).is_some());
}

#[test]
fn from_luma_thresholds_gray_levels() {
    let luma = vec![0, 127, 128, 255, 200, 10];
    let fb = Framebuffer::from_luma(3, 2, &luma).unwrap();
    assert!(!fb.get_pixel(0, 0));
    assert!(!fb.get_pixel(1, 0));
    assert!(fb.get_pixel(2, 0));
    assert!(fb.get_pixel(0, 1));
    assert!(fb.get_pixel(1, 1));
    assert!(!fb.get_pixel(2, 1));
}

#[test]
fn from_luma_rejects_wrong_size() {
    assert!(Framebuffer::from_luma(3, 2, &vec![0; 5]).is_none());
    assert!(Framebuffer::from_luma(3, 2, &vec![0; 7]).is_none());
}
