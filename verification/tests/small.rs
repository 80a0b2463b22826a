use goxlr_volume_wheel::autostart::{
    disable, enable, is_enabled, paths_equivalent, removed, RegistryStep, RemovalNext,
};
use goxlr_volume_wheel::draw::{divide, in_rect, make_font, Font, Rect};
use goxlr_volume_wheel::icon::{build_icon, put, COLOR_CONNECTED, COLOR_DISCONNECTED};
use goxlr_volume_wheel::log::{error, info, starts_over, timestamp, LocalTime, LAUNCH_LINE};

const MOMENT: LocalTime = LocalTime {
    year: 2024,
    month: 3,
    day: 7,
    hour: 9,
    minute: 5,
    second: 59,
};

#[test]
fn log_lines_carry_time_and_level() {
    assert_eq!(timestamp(MOMENT), "2024-03-07 09:05:59");
    assert_eq!(info(MOMENT, LAUNCH_LINE), "2024-03-07 09:05:59 [INFO] --- launch ---\n");
    assert_eq!(error(MOMENT, "x"), "2024-03-07 09:05:59 [ERROR] x\n");
}

#[test]
fn early_years_are_padded() {
    let t = LocalTime { year: 42, month: 12, ..MOMENT };
    assert_eq!(timestamp(t), "0042-12-07 09:05:59");
}

#[test]
fn log_starts_over_beyond_a_mebibyte() {
    assert!(!starts_over(None));
    assert!(!starts_over(Some(1024 * 1024)));
    assert!(starts_over(Some(1024 * 1024 + 1)));
}

#[test]
fn autostart_value_is_quoted() {
    assert_eq!(enable(r"C:\Program Files\x.exe"), "\"C:\\Program Files\\x.exe\"");
}

#[test]
fn autostart_value_is_recognized() {
    let exe = r"C:\Program Files\x.exe";
    assert!(is_enabled(Some(exe), Some(&enable(exe))));
    assert!(is_enabled(Some(exe), Some(r"  C:\PROGRAM files\X.EXE ")));
    assert!(!is_enabled(Some(exe), Some(r"C:\other.exe")));
    assert!(!is_enabled(None, Some(exe)));
    assert!(!is_enabled(Some(exe), None));
    assert!(paths_equivalent("\"\"a\"\"", "A"));
    assert!(!paths_equivalent("é", "É"));
    assert!(!paths_equivalent(&enable("\"a"), "\"a"));
}

#[test]
fn a_missing_value_counts_as_removed() {
    assert_eq!(disable(RegistryStep::Done), RemovalNext::Delete);
    assert_eq!(disable(RegistryStep::NotFound), RemovalNext::Finished);
    assert_eq!(disable(RegistryStep::Failed), RemovalNext::Fail);
    assert!(removed(RegistryStep::Done));
    assert!(removed(RegistryStep::NotFound));
    assert!(!removed(RegistryStep::Failed));
}

#[test]
fn icon_shows_the_speaker_in_its_color() {
    let icon = build_icon(&COLOR_CONNECTED);
    assert_eq!(icon.len(), 32 * 32 * 4);
    let pixel = |x: usize, y: usize| icon[(y * 32 + x) * 4..(y * 32 + x) * 4 + 4].to_vec();
    let on = COLOR_CONNECTED.to_vec();
    let off = vec![0u8; 4];
    for (x, y) in [(4, 12), (10, 20), (11, 10), (11, 21), (17, 4), (17, 27), (20, 13), (23, 21), (26, 9)] {
        assert_eq!(pixel(x, y), on);
    }
    for (x, y) in [(3, 12), (4, 11), (10, 21), (11, 9), (11, 22), (17, 3), (17, 28), (18, 16), (20, 12), (26, 24), (0, 0)] {
        assert_eq!(pixel(x, y), off);
    }
    let lit = icon.chunks(4).filter(|p| p[3] != 0).count();
    let cone: usize = (0..7).map(|h| 12 + 2 * h).sum();
    assert_eq!(lit, 7 * 9 + cone + 7 + 11 + 15);
    assert_eq!(build_icon(&COLOR_DISCONNECTED)[(12 * 32 + 4) * 4], 0x80);
}

#[test]
fn pixels_outside_are_left_alone() {
    let mut image = vec![0u8; 16];
    put(&mut image, 2, 2, 0, &[1, 2, 3, 4]);
    put(&mut image, 2, 0, -1, &[1, 2, 3, 4]);
    assert_eq!(image, vec![0u8; 16]);
    put(&mut image, 2, 1, 1, &[1, 2, 3, 4]);
    assert_eq!(image[12..], [1, 2, 3, 4]);
}

#[test]
fn rectangles_exclude_their_far_edges() {
    let r = Rect { left: 1, top: 2, right: 4, bottom: 6 };
    assert!(in_rect(&r, 1, 2));
    assert!(in_rect(&r, 3, 5));
    assert!(!in_rect(&r, 4, 5));
    assert!(!in_rect(&r, 3, 6));
    assert!(!in_rect(&r, 0, 2));
}

#[test]
fn division_rounds_towards_zero() {
    assert_eq!(divide(7, 2), 3);
    assert_eq!(divide(-7, 2), -3);
}

#[test]
fn fonts_have_their_sizes() {
    assert_eq!(make_font(Font::Title).pixels, 24);
    assert!(make_font(Font::Title).semibold);
    assert!(make_font(Font::IconLarge).icons);
    assert_eq!(make_font(Font::Osd).pixels, 16);
    assert!(!make_font(Font::Name).semibold);
}
