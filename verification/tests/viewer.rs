use tixel::error::ImgToTerminalError as Error;
use tixel::frame::Frame;
use tixel::geometry::proportional_size;
use tixel::media::{ext_lower, is_image_file, is_video_file};
use tixel::render::render_frame;

// ── proportional_size ────────────────────────────────────────────────

#[test]
fn test_size_normal() {
    // 1920×1080, 80 cols wide, 120 rows tall (∞) → width‑constrained
    let (w, h) = proportional_size(1920, 1080, 80, 9999);
    assert_eq!(w, 80);
    // 80 * 1080 / 1920 = 45.0 → rounded up to even = 46
    assert_eq!(h, 46);
}

#[test]
fn test_size_height_constrained() {
    // 100×500 in 80 cols but only 40 px tall → height‑constrained
    let (w, h) = proportional_size(100, 500, 80, 40);
    // Uses max_height=40 → 40*100/500 = 8
    assert_eq!(w, 8);
    assert_eq!(h, 40);
}

#[test]
fn test_size_height_constrained_odd() {
    // max_height has an odd value which gets rounded down to even
    let (w, h) = proportional_size(100, 200, 80, 41);
    assert_eq!(h, 40); // 41 & !1 = 40
    assert_eq!(w, 20); // 40*100/200 = 20
}

#[test]
fn test_size_min_width_clamp() {
    let (w, h) = proportional_size(100, 100, 1, 9999);
    assert_eq!(w, 4); // clamped to minimum
    assert_eq!(h, 4);
}

#[test]
fn test_size_odd_height_rounded() {
    // 80 * 51 / 100 = 40.8 → 41 → round up to even = 42
    let (_, h) = proportional_size(100, 51, 80, 9999);
    assert_eq!(h % 2, 0);
}

#[test]
fn test_size_zero_input_width() {
    let (w, h) = proportional_size(0, 100, 80, 9999);
    assert_eq!(w, 80);
    assert_eq!(h, 2); // fallback minimum
}

#[test]
fn test_size_tall_image() {
    let (_, h) = proportional_size(100, 500, 80, 9999);
    assert_eq!(h % 2, 0);
    assert!(h > 80);
}

#[test]
fn test_size_wide_image() {
    let (_, h) = proportional_size(500, 100, 80, 9999);
    assert_eq!(h, 16); // 80 * 100 / 500 = 16
}

// ── File-type detection ──────────────────────────────────────────────

#[test]
fn test_ext_lower_upper() {
    assert_eq!(ext_lower("video.MP4").as_deref(), Some("mp4"));
    assert_eq!(ext_lower("Photo.JPEG").as_deref(), Some("jpeg"));
}

#[test]
fn test_ext_lower_no_ext() {
    assert_eq!(ext_lower("Makefile"), None);
}

#[test]
fn test_is_video_true() {
    for ext in &["mp4", "mov", "avi", "webm", "mkv", "m4v"] {
        assert!(is_video_file(&format!("f.{ext}")), "{ext}");
    }
}

#[test]
fn test_is_video_upper() {
    assert!(is_video_file("f.MP4"));
    assert!(is_video_file("f.MOV"));
}

#[test]
fn test_is_video_false() {
    assert!(!is_video_file("f.png"));
    assert!(!is_video_file("f.jpg"));
}

#[test]
fn test_is_image_true() {
    for ext in &["png", "jpg", "jpeg", "bmp", "gif", "webp"] {
        assert!(is_image_file(&format!("f.{ext}")), "{ext}");
    }
}

#[test]
fn test_is_image_false() {
    assert!(!is_image_file("f.mp4"));
    assert!(!is_image_file("f.txt"));
}

// ── render_frame ─────────────────────────────────────────────────────

#[test]
fn test_render_frame_starts_and_ends() {
    let img = Frame::from_raw(4, 4, vec![
        255, 0, 0, 255,   0, 255, 0, 255,   0, 0, 255, 255,   255, 255, 0, 255,
        0, 255, 255, 255, 255, 0, 255, 255, 128, 128, 128, 255, 64, 64, 64, 255,
        100, 50, 0, 255,   50, 100, 0, 255,   0, 100, 50, 255,   50, 0, 100, 255,
        200, 150, 100, 255, 150, 200, 100, 255, 100, 150, 200, 255, 150, 100, 200, 255,
    ]).unwrap();

    let out = render_frame(&img);
    assert!(out.starts_with("\x1b[?2026h"), "should start with sync begin");
    assert!(out.contains("\x1b[H"), "should contain cursor home");
    assert!(out.ends_with("\x1b[0J\x1b[?2026l"), "should end with clear-to-EOS + sync end");
    assert_eq!(out.matches('\n').count(), 2, "4 rows → 2 char rows");
}

#[test]
fn test_render_frame_too_short() {
    let img = Frame::from_raw(1, 1, vec![255, 0, 0, 255]).unwrap();
    assert_eq!(render_frame(&img), "\x1b[?2026h\x1b[H\x1b[0J\x1b[?2026l");
}

#[test]
fn test_render_frame_pixel_colors() {
    // 2×2 image → 1 row with 2 half-block chars.
    // Upper row = [255,0,0], [0,255,0]
    // Lower row = [0,0,255], [255,255,0]
    let img = Frame::from_raw(2, 2, vec![
        255, 0, 0, 255,   0, 255, 0, 255,
        0, 0, 255, 255, 255, 255, 0, 255,
    ]).unwrap();

    let out = render_frame(&img);
    assert_eq!(out.matches('\u{2584}').count(), 2, "two half-block chars");

    // First pixel: lower=[0,0,255] → fg blue, upper=[255,0,0] → bg red
    assert!(out.contains("38;2;0;0;255"), "fg = blue");
    assert!(out.contains("48;2;255;0;0"), "bg = red");

    // Third pixel: lower=[255,255,0] → fg yellow, upper=[0,255,0] → bg green
    // (second half of the line)
    assert!(out.contains("38;2;255;255;0"), "fg = yellow");
    assert!(out.contains("48;2;0;255;0"), "bg = green");
}

#[test]
fn test_render_frame_odd_height() {
    // 2×3 image → only 1 char row (rows 0+1), row 2 is dropped
    let img = Frame::from_raw(2, 3, vec![
        255, 0, 0, 255,   0, 255, 0, 255,
        0, 0, 255, 255, 255, 255, 0, 255,
        128, 128, 128, 255, 64, 64, 64, 255,
    ]).unwrap();

    let out = render_frame(&img);
    assert_eq!(out.matches('\n').count(), 1, "3 rows → 1 char row");
}

// ── Error display ────────────────────────────────────────────────────

#[test]
fn test_error_file_not_found() {
    let e = Error::FileNotFound("x.mp4".into());
    let s = e.message();
    assert!(s.contains("x.mp4") && s.contains("non trovato"));
}

#[test]
fn test_error_unknown_format() {
    let e = Error::UnknownFormat("xyz".into());
    let s = e.message();
    assert!(s.contains("xyz") && s.contains("non supportato"));
}

#[test]
fn test_error_no_frames() {
    let e = Error::NoFrames("x.mp4".into());
    let s = e.message();
    assert!(s.contains("x.mp4") && s.contains("Nessun frame"));
}

#[test]
fn test_error_terminal_too_small() {
    let e = Error::TerminalTooSmall(5, 3);
    let s = e.message();
    assert!(s.contains("5") && s.contains("3") && s.contains("piccolo"));
}

#[test]
fn test_error_io_conversion() {
    let io = std::io::Error::new(std::io::ErrorKind::NotFound, "test");
    let e: Error = io.into();
    assert!(matches!(e, Error::IoError(_)));
}
