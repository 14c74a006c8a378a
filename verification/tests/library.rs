use tixel::error::{image_load_error, ImgToTerminalError};
use tixel::frame::{fit_frame, pack_rows, rgb_frame, Frame, VideoFrames};
use tixel::geometry::{proportional_size, screen_limits};
use tixel::media::{
    detect_file_type, ext_lower, is_image_extension, is_video_extension, media_kind,
    to_ascii_lowercase, MediaKind,
};
use tixel::playback::{PlaybackAction, Player};
use tixel::render::render_frame;
use tixel::text::push_decimal;

// ── sizes ────────────────────────────────────────────────────────────

#[test]
fn size_rounds_halves_away_from_zero() {
    // 80 * 3 / 16 = 15.0 and 80 * 9 / 16 = 45.0 are exact; 4 * 1 / 8 = 0.5 rounds up to 1 → min 2
    assert_eq!(proportional_size(16, 9, 80, 9999), (80, 46));
    assert_eq!(proportional_size(8, 1, 4, 9999), (4, 2));
    // 80 * 1 / 32 = 2.5 → 3 → even 4
    assert_eq!(proportional_size(32, 1, 80, 9999), (80, 4));
}

#[test]
fn size_fits_limits() {
    for &(w, h) in &[(1920u32, 1080u32), (100, 500), (500, 100), (3, 7), (7, 3), (1, 1000), (100, 51)] {
        for &mw in &[1u32, 4, 20, 80, 300] {
            for &mh in &[2u32, 3, 10, 40, 41, 46, 99, 100] {
                let (ow, oh) = proportional_size(w, h, mw, mh);
                assert!(ow <= mw.max(4), "{w}x{h} in {mw}x{mh}");
                assert!(oh <= mh, "{w}x{h} in {mw}x{mh}");
                assert_eq!(oh % 2, 0);
                assert!(ow >= 4 && oh >= 2);
            }
        }
    }
}

#[test]
fn size_odd_limit_rounds_down() {
    // 80 * 51 / 100 = 40.8 → 41 fits under 41; 42 would not, so 40
    assert_eq!(proportional_size(100, 51, 80, 41), (80, 40));
    // under a higher limit it still rounds up
    assert_eq!(proportional_size(100, 51, 80, 43), (80, 42));
}

#[test]
fn size_at_the_top_of_the_range() {
    assert_eq!(proportional_size(1, u32::MAX, 4, u32::MAX), (4, u32::MAX - 1));
}

#[test]
fn size_zero_height_input() {
    assert_eq!(proportional_size(100, 0, 2, 9999), (4, 2));
}

#[test]
fn size_keeps_aspect_when_height_decides() {
    let (w, h) = proportional_size(1000, 1000, 80, 30);
    assert_eq!((w, h), (30, 30));
}

#[test]
fn screen_limits_auto_and_explicit() {
    assert_eq!(screen_limits(0, 100, 40).ok(), Some((98, 78)));
    assert_eq!(screen_limits(0, 21, 1).ok(), Some((19, 0)));
    assert_eq!(screen_limits(0, 20, 0).ok(), Some((18, 0)));
    assert_eq!(screen_limits(50, 5, 10).ok(), Some((50, 18)));
}

#[test]
fn screen_limits_too_small() {
    match screen_limits(0, 19, 7) {
        Err(ImgToTerminalError::TerminalTooSmall(c, r)) => assert_eq!((c, r), (19, 7)),
        other => panic!("unexpected {:?}", other),
    }
    match screen_limits(0, 10, 40000) {
        Err(ImgToTerminalError::TerminalTooSmall(c, r)) => assert_eq!((c, r), (10, 40000)),
        other => panic!("unexpected {:?}", other),
    }
}

// ── file types ───────────────────────────────────────────────────────

#[test]
fn ext_lower_keeps_non_letters_and_takes_last_dot() {
    assert_eq!(ext_lower("archive.tar.GZ").as_deref(), Some("gz"));
    assert_eq!(ext_lower("dir.d/clip.M4V").as_deref(), Some("m4v"));
    assert_eq!(ext_lower(".hidden"), None);
    assert_eq!(ext_lower("name.Ü1X").as_deref(), Some("Ü1x"));
}

#[test]
fn lowercase_only_ascii() {
    assert_eq!(to_ascii_lowercase("AbC-Zé9"), "abc-zé9");
    assert_eq!(to_ascii_lowercase(""), "");
}

#[test]
fn extension_tables() {
    assert!(is_video_extension("webm"));
    assert!(!is_video_extension("webp"));
    assert!(is_image_extension("webp"));
    assert!(!is_image_extension("WEBP"));
    assert!(!is_image_extension("jpe"));
}

#[test]
fn detect_accepts_supported() {
    assert!(detect_file_type("movie.MKV").is_ok());
    assert!(detect_file_type("pic.bmp").is_ok());
}

#[test]
fn detect_rejects_unknown_extension() {
    match detect_file_type("notes.TXT") {
        Err(ImgToTerminalError::UnknownFormat(e)) => assert_eq!(e, "txt"),
        other => panic!("unexpected {:?}", other),
    }
}

#[test]
fn detect_rejects_missing_extension() {
    match detect_file_type("Makefile") {
        Err(ImgToTerminalError::UnknownFormat(e)) => assert_eq!(e, "(nessuna estensione)"),
        other => panic!("unexpected {:?}", other),
    }
}

#[test]
fn media_kind_picks_loader() {
    assert_eq!(media_kind("a.mov").ok(), Some(MediaKind::Video));
    assert_eq!(media_kind("a.GIF").ok(), Some(MediaKind::Image));
    assert!(media_kind("a.doc").is_err());
}

// ── errors ───────────────────────────────────────────────────────────

#[test]
fn message_terminal_too_small_exact() {
    assert_eq!(
        ImgToTerminalError::TerminalTooSmall(5, 300).message(),
        "Terminale troppo piccolo (5col x 300righe).\nServono almeno 20 colonne per visualizzare qualcosa."
    );
}

#[test]
fn message_unknown_format_names_every_format() {
    let s = ImgToTerminalError::UnknownFormat("xyz".into()).message();
    for ext in ["mp4", "mov", "avi", "webm", "mkv", "m4v", "png", "jpg", "jpeg", "bmp", "gif", "webp"] {
        assert!(s.contains(ext), "{ext}");
    }
}

#[test]
fn message_every_variant() {
    assert_eq!(
        ImgToTerminalError::VideoDecode("boom".into()).message(),
        "Errore durante la decodifica del video: boom."
    );
    assert!(ImgToTerminalError::VideoOpen("v".into()).message().starts_with("Impossibile aprire il video: v."));
    assert!(ImgToTerminalError::VideoInit("i".into()).message().contains("motore video: i."));
    assert!(ImgToTerminalError::ImageLoad("bad".into()).message().starts_with("Impossibile caricare l'immagine: bad."));
}

#[test]
fn message_io_error_carries_text() {
    let e: ImgToTerminalError = std::io::Error::new(std::io::ErrorKind::Other, "disk gone").into();
    assert_eq!(e.message(), "Errore di I/O: disk gone.");
    assert!(e.source().is_some());
    assert!(ImgToTerminalError::NoFrames("x".into()).source().is_none());
}

#[test]
fn image_error_becomes_image_load() {
    let err = image::ImageError::IoError(std::io::Error::new(std::io::ErrorKind::Other, "unreadable pixels"));
    match image_load_error(&err) {
        ImgToTerminalError::ImageLoad(s) => assert!(s.contains("unreadable pixels")),
        other => panic!("unexpected {:?}", other),
    }
}

#[test]
fn decimal_text() {
    let mut s = String::from("n=");
    push_decimal(&mut s, 0);
    s.push(',');
    push_decimal(&mut s, 255);
    s.push(',');
    push_decimal(&mut s, 18446744073709551615);
    assert_eq!(s, "n=0,255,18446744073709551615");
}

// ── frames ───────────────────────────────────────────────────────────

#[test]
fn frame_from_raw_size_check() {
    assert!(Frame::from_raw(2, 2, vec![0; 15]).is_none());
    assert!(Frame::from_raw(2, 2, vec![0; 16]).is_some());
    let f = Frame::from_raw(1, 1, vec![1, 2, 3, 4, 5]).unwrap();
    assert_eq!(f.dimensions(), (1, 1));
    assert_eq!(f.rgb(0, 0), (1, 2, 3));
    assert_eq!(f.into_raw(), vec![1, 2, 3, 4, 5]);
    assert!(Frame::from_raw(u32::MAX, u32::MAX, vec![]).is_none());
}

#[test]
fn pack_rows_removes_padding() {
    // 2 pixels per row (6 bytes), rows 8 bytes apart, last row cut short
    let src = [1, 2, 3, 4, 5, 6, 0, 0, 7, 8, 9, 10, 11, 12, 0, 0, 13, 14, 15];
    assert_eq!(pack_rows(&src, 2, 3, 8), vec![1, 2, 3, 4, 5, 6, 7, 8, 9, 10, 11, 12]);
    // unpadded rows: the leading bytes, at most width * height * 3
    assert_eq!(pack_rows(&src, 2, 1, 6), vec![1, 2, 3, 4, 5, 6]);
    assert_eq!(pack_rows(&src[..4], 2, 1, 6), vec![1, 2, 3, 4]);
}

#[test]
fn rgb_frame_resizes_and_adds_alpha() {
    // 4x2 frame of a single colour, rows padded to 16 bytes
    let mut src = Vec::new();
    for _ in 0..2 {
        for _ in 0..4 {
            src.extend_from_slice(&[10, 20, 30]);
        }
        src.extend_from_slice(&[0, 0, 0, 0]);
    }
    let rgb = pack_rows(&src, 4, 2, 16);
    assert_eq!(rgb.len(), 24);
    let f = rgb_frame(rgb, 4, 2, 2, 2).unwrap();
    assert_eq!(f.dimensions(), (2, 2));
    assert_eq!(f.into_raw(), vec![10, 20, 30, 255, 10, 20, 30, 255, 10, 20, 30, 255, 10, 20, 30, 255]);
}

#[test]
fn rgb_frame_too_short_is_decode_error() {
    match rgb_frame(vec![1, 2, 3], 4, 2, 4, 2) {
        Err(ImgToTerminalError::VideoDecode(s)) => assert_eq!(s, "dimensioni frame non valide"),
        other => panic!("unexpected {:?}", other.map(|f| f.dimensions())),
    }
}

#[test]
fn video_frames_share_one_size() {
    let mut v = VideoFrames::new(8, 4, 4, 100);
    assert_eq!(v.frame_size(), (4, 2));
    v.push_rgb(vec![50; 8 * 4 * 3], 8, 4).unwrap();
    // a frame of another size is scaled to the same size
    v.push_rgb(vec![60; 2 * 2 * 3], 2, 2).unwrap();
    assert!(v.push_rgb(vec![1, 2], 2, 2).is_err());
    let frames = v.into_frames("clip.mp4".to_string()).unwrap();
    assert_eq!(frames.len(), 2);
    for f in &frames {
        assert_eq!(f.dimensions(), (4, 2));
    }
    assert_eq!(frames[1].rgb(3, 1), (60, 60, 60));
}

#[test]
fn video_stream_stops_at_first_gap() {
    let mut v = VideoFrames::new(2, 2, 4, 100);
    assert_eq!(v.accept(Some((vec![1; 12], 2, 2))).unwrap(), true);
    assert_eq!(v.accept(Some((vec![2; 12], 2, 2))).unwrap(), true);
    assert_eq!(v.accept(None).unwrap(), false);
    // items after the end are not taken
    assert_eq!(v.accept(Some((vec![3; 12], 2, 2))).unwrap(), false);
    let frames = v.into_frames("clip.mkv".to_string()).unwrap();
    assert_eq!(frames.len(), 2);
    assert_eq!(frames[0].rgb(0, 0), (1, 1, 1));
    assert_eq!(frames[1].rgb(3, 1), (2, 2, 2));
}

#[test]
fn video_stream_short_frame_is_decode_error() {
    let mut v = VideoFrames::new(2, 2, 4, 100);
    match v.accept(Some((vec![1; 5], 2, 2))) {
        Err(ImgToTerminalError::VideoDecode(s)) => assert_eq!(s, "dimensioni frame non valide"),
        other => panic!("unexpected {:?}", other),
    }
}

#[test]
fn video_frames_none_collected() {
    let mut v = VideoFrames::new(8, 4, 4, 100);
    assert_eq!(v.accept(None).unwrap(), false);
    match v.into_frames("empty.mp4".to_string()) {
        Err(ImgToTerminalError::NoFrames(p)) => assert_eq!(p, "empty.mp4"),
        other => panic!("unexpected {:?}", other.map(|f| f.len())),
    }
}

#[test]
fn fit_frame_scales_to_screen() {
    let src = Frame::from_raw(8, 4, vec![200; 8 * 4 * 4]).unwrap();
    let f = fit_frame(&src, 4, 100);
    assert_eq!(f.dimensions(), (4, 2));
    assert_eq!(f.into_raw(), vec![200; 4 * 2 * 4]);
}

// ── rendering ────────────────────────────────────────────────────────

#[test]
fn render_exact_output() {
    let img = Frame::from_raw(1, 3, vec![1, 2, 3, 255, 40, 50, 60, 255, 7, 8, 9, 255]).unwrap();
    assert_eq!(
        render_frame(&img),
        "\x1b[?2026h\x1b[H\x1b[38;2;40;50;60m\x1b[48;2;1;2;3m\u{2584}\x1b[0m\n\x1b[0J\x1b[?2026l"
    );
}

#[test]
fn render_counts_lines_and_cells() {
    let img = Frame::from_raw(3, 7, vec![9; 3 * 7 * 4]).unwrap();
    let out = render_frame(&img);
    assert_eq!(out.matches('\n').count(), 3);
    assert_eq!(out.matches('\u{2584}').count(), 9);
}

#[test]
fn render_ignores_alpha_and_last_odd_row() {
    let a = Frame::from_raw(1, 3, vec![1, 2, 3, 255, 4, 5, 6, 255, 7, 8, 9, 255]).unwrap();
    let b = Frame::from_raw(1, 3, vec![1, 2, 3, 0, 4, 5, 6, 17, 70, 80, 90, 1]).unwrap();
    assert_eq!(render_frame(&a), render_frame(&b));
}

#[test]
fn render_empty_width() {
    let img = Frame::from_raw(0, 4, vec![]).unwrap();
    assert_eq!(render_frame(&img), "\x1b[?2026h\x1b[H\x1b[0m\n\x1b[0m\n\x1b[0J\x1b[?2026l");
}

// ── playback ─────────────────────────────────────────────────────────

#[test]
fn playback_sequence_in_order() {
    let mut p = Player::new(3);
    assert_eq!(p.step(true), PlaybackAction::Show(0));
    assert_eq!(p.step(true), PlaybackAction::Show(1));
    assert_eq!(p.step(true), PlaybackAction::Show(2));
    assert_eq!(p.step(true), PlaybackAction::Finish);
    assert_eq!(p.step(true), PlaybackAction::Finish);
}

#[test]
fn playback_sequence_interrupted() {
    let mut p = Player::new(5);
    assert_eq!(p.step(true), PlaybackAction::Show(0));
    assert_eq!(p.step(false), PlaybackAction::Finish);
    assert_eq!(p.step(true), PlaybackAction::Finish);
}

#[test]
fn playback_still_waits_until_interrupted() {
    let mut p = Player::new(1);
    assert_eq!(p.step(false), PlaybackAction::Show(0));
    assert_eq!(p.step(true), PlaybackAction::Wait);
    assert_eq!(p.step(true), PlaybackAction::Wait);
    assert_eq!(p.step(false), PlaybackAction::Finish);
    assert_eq!(p.step(true), PlaybackAction::Finish);
}

#[test]
fn playback_nothing_to_show() {
    let mut p = Player::new(0);
    assert_eq!(p.step(true), PlaybackAction::Finish);
}

#[test]
fn plain_names_follow_the_documented_rule() {
    assert_eq!(ext_lower("foo.").as_deref(), Some(""));
    assert_eq!(ext_lower("..X").as_deref(), Some("x"));
    assert_eq!(ext_lower(".x"), None);
    assert_eq!(ext_lower("a.b.C"), Some("c".to_string()));
}
