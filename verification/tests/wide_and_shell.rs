use hdr_game_switcher::shell::{
    create_task_arguments, delete_task_arguments, image_path, relaunch_arguments, relaunch_granted,
    shortcut_target, starts_hidden, startup_action, tray_action, tray_icon_pixels, ShortcutError,
    TrayAction, TrayInput,
};
use hdr_game_switcher::wide::{
    decode_utf16, decode_utf16_lossy, is_valid_utf16, nul_position, to_wide_nul, units_until_nul,
    utf16_units,
};

#[test]
fn encode_ascii_with_nul() {
    assert_eq!(to_wide_nul("AB"), vec![65, 66, 0]);
    assert_eq!(to_wide_nul(""), vec![0]);
    assert_eq!(to_wide_nul("runas"), "runas".encode_utf16().chain(std::iter::once(0)).collect::<Vec<u16>>());
}

#[test]
fn encode_beyond_basic_plane() {
    assert_eq!(utf16_units("😀"), vec![0xD83D, 0xDE00]);
    assert_eq!(utf16_units("é😀x"), "é😀x".encode_utf16().collect::<Vec<u16>>());
}

#[test]
fn lossy_decoding() {
    assert_eq!(decode_utf16_lossy(&[0xD800, 65]), "\u{FFFD}A");
    assert_eq!(decode_utf16_lossy(&[0xDE00]), "\u{FFFD}");
    assert_eq!(decode_utf16_lossy(&[0xD83D, 0xDE00, 0xE9]), "😀é");
    assert_eq!(decode_utf16_lossy(&[]), "");
}

#[test]
fn strict_decoding() {
    assert_eq!(decode_utf16(&[0xD83D, 0xDE00]).as_deref(), Some("😀"));
    assert_eq!(decode_utf16(&[0xD83D]), None);
    assert_eq!(decode_utf16(&[0xDE00, 0xD83D]), None);
    assert!(is_valid_utf16(&[]));
    assert!(!is_valid_utf16(&[65, 0xDC00]));
}

#[test]
fn decoding_undoes_encoding() {
    for s in ["", "C:\\Spiele\\Größe.exe", "😀😀", "\u{FFFF}\u{10000}\u{10FFFF}"] {
        let units = utf16_units(s);
        assert_eq!(decode_utf16(&units).as_deref(), Some(s));
        assert_eq!(decode_utf16_lossy(&units), s);
    }
}

#[test]
fn nul_terminated_buffers() {
    assert_eq!(nul_position(&[1, 2, 0, 3]), 2);
    assert_eq!(nul_position(&[1, 2]), 2);
    assert_eq!(units_until_nul(&[65, 0, 66]), vec![65]);
}

#[test]
fn shortcut_targets() {
    let mut buf = vec![0u16; 8];
    assert!(matches!(shortcut_target(&buf), Err(ShortcutError::NoTarget)));
    buf[0] = 'C' as u16;
    buf[1] = ':' as u16;
    assert_eq!(shortcut_target(&buf).ok().as_deref(), Some("C:"));
    let bad = [0xDC00u16, 0];
    assert!(matches!(shortcut_target(&bad), Err(ShortcutError::InvalidText)));
    assert_eq!(ShortcutError::NoTarget.message(), "shortcut has no target");
    assert_eq!(ShortcutError::InvalidText.message(), "invalid utf-16: lone surrogate found");
    assert_eq!(ShortcutError::System("boom".to_string()).message(), "boom");
}

#[test]
fn image_paths() {
    let mut buf = vec![0u16; 32];
    let text: Vec<u16> = "C:\\g.exe".encode_utf16().collect();
    buf[..text.len()].copy_from_slice(&text);
    assert_eq!(image_path(&buf, text.len() as u32), "C:\\g.exe");
    assert_eq!(image_path(&buf, 2), "C:");
    assert_eq!(image_path(&[0xD800, 65], 2), "\u{FFFD}A");
}

#[test]
fn startup_task() {
    assert_eq!(startup_action("C:\\Apps\\switch.exe"), "\"C:\\Apps\\switch.exe\" --minimized");
    let args = create_task_arguments("\"x.exe\" --minimized");
    assert_eq!(
        args,
        vec![
            "/Create", "/TN", "HDR Game Switcher", "/SC", "ONLOGON", "/TR", "\"x.exe\" --minimized", "/RL",
            "HIGHEST", "/IT", "/F"
        ]
    );
    assert_eq!(delete_task_arguments(), vec!["/Delete", "/TN", "HDR Game Switcher", "/F"]);
}

#[test]
fn relaunch_lines() {
    let args = vec![utf16_units("prog.exe"), utf16_units("--minimized"), utf16_units("x")];
    let mut expected: Vec<u16> = "--minimized x ".encode_utf16().collect();
    expected.push(0);
    assert_eq!(relaunch_arguments(&args), expected);
    assert_eq!(relaunch_arguments(&vec![utf16_units("prog.exe")]), vec![0]);
    assert_eq!(relaunch_arguments(&vec![]), vec![0]);
    assert!(!relaunch_granted(32));
    assert!(relaunch_granted(33));
    assert!(!relaunch_granted(0));
}

#[test]
fn hidden_start_flag() {
    let a = vec!["prog.exe".to_string(), "--minimized".to_string()];
    assert!(starts_hidden(&a));
    let b = vec!["prog.exe".to_string(), "--MINIMIZED".to_string()];
    assert!(!starts_hidden(&b));
    assert!(!starts_hidden(&[]));
}

#[test]
fn tray_pixels() {
    let p = tray_icon_pixels();
    assert_eq!(p.len(), 16 * 16 * 4);
    for px in p.chunks_exact(4) {
        assert_eq!(px, &[40, 180, 210, 255]);
    }
}

#[test]
fn tray_responses() {
    assert!(matches!(tray_action(TrayInput::IconClicked), TrayAction::ShowWindow));
    assert!(matches!(tray_action(TrayInput::ShowChosen), TrayAction::ShowWindow));
    assert!(matches!(tray_action(TrayInput::ExitChosen), TrayAction::Exit));
    assert!(matches!(tray_action(TrayInput::OtherIconEvent), TrayAction::Ignore));
    assert!(matches!(tray_action(TrayInput::OtherChosen), TrayAction::Ignore));
}
