use hdr_game_switcher::path::{path_file_name, path_has_extension};
use hdr_game_switcher::text::{chars_of, decimal_text, eq_ignore_ascii_case, upper_case_contains};

fn name(p: &str) -> Option<String> {
    path_file_name(p)
}

#[test]
fn ascii_case_is_ignored() {
    assert!(eq_ignore_ascii_case("Game.EXE", "game.exe"));
    assert!(eq_ignore_ascii_case("", ""));
    assert!(!eq_ignore_ascii_case("game.exe", "game.ex"));
    assert!(!eq_ignore_ascii_case("a", "b"));
}

#[test]
fn case_insensitive_equality_is_an_equivalence() {
    let (a, b, c) = ("C:\\Games\\X.exe", "c:\\GAMES\\x.EXE", "C:\\games\\x.exe");
    assert!(eq_ignore_ascii_case(a, a));
    assert_eq!(eq_ignore_ascii_case(a, b), eq_ignore_ascii_case(b, a));
    assert!(eq_ignore_ascii_case(a, b) && eq_ignore_ascii_case(b, c) && eq_ignore_ascii_case(a, c));
}

#[test]
fn non_ascii_case_is_not_folded() {
    assert!(!eq_ignore_ascii_case("É", "é"));
    assert!(eq_ignore_ascii_case("Ünïcode", "üNïCODE") == false);
    assert!(eq_ignore_ascii_case("Ünïcode", "ÜNïCODE"));
}

#[test]
fn upper_case_search() {
    let hay = chars_of("Dell aw2725d Monitor");
    let needle = chars_of("AW2725D");
    assert!(upper_case_contains(&hay, &needle));
    let other = chars_of("Dell AW2724D");
    assert!(!upper_case_contains(&other, &needle));
    let short = chars_of("AW27");
    assert!(!upper_case_contains(&short, &needle));
    assert!(upper_case_contains(&hay, &[]));
}

#[test]
fn decimal_texts() {
    assert_eq!(decimal_text(0), "0");
    assert_eq!(decimal_text(7), "7");
    assert_eq!(decimal_text(10), "10");
    assert_eq!(decimal_text(113), "113");
    assert_eq!(decimal_text(u32::MAX), "4294967295");
}

#[test]
fn file_names_of_drive_paths() {
    assert_eq!(name("C:\\Games\\Foo.exe").as_deref(), Some("Foo.exe"));
    assert_eq!(name("C:/Games/foo.exe").as_deref(), Some("foo.exe"));
    assert_eq!(name("C:\\Games\\").as_deref(), Some("Games"));
    assert_eq!(name("C:foo.exe").as_deref(), Some("foo.exe"));
    assert_eq!(name("C:\\"), None);
    assert_eq!(name("C:"), None);
}

#[test]
fn file_names_skip_dot_components() {
    assert_eq!(name("foo.txt/.").as_deref(), Some("foo.txt"));
    assert_eq!(name("foo.txt/.//").as_deref(), Some("foo.txt"));
    assert_eq!(name("./game.exe").as_deref(), Some("game.exe"));
    assert_eq!(name("foo/.."), None);
    assert_eq!(name("."), None);
    assert_eq!(name(""), None);
    assert_eq!(name("/"), None);
    assert_eq!(name("game.exe").as_deref(), Some("game.exe"));
}

#[test]
fn file_names_of_share_paths() {
    assert_eq!(name("\\\\server\\share"), None);
    assert_eq!(name("\\\\server\\share\\"), None);
    assert_eq!(name("\\\\server\\share\\g.exe").as_deref(), Some("g.exe"));
    assert_eq!(name("//server/share/g.exe").as_deref(), Some("g.exe"));
    assert_eq!(name("\\\\server").as_deref(), Some("server"));
    assert_eq!(name("\\\\.\\COM1"), None);
}

#[test]
fn file_names_of_verbatim_paths() {
    assert_eq!(name("\\\\?\\C:\\x\\y.exe").as_deref(), Some("y.exe"));
    assert_eq!(name("\\\\?\\C:\\a/b.exe").as_deref(), Some("a/b.exe"));
    assert_eq!(name("\\\\?\\C:\\x\\."), None);
    assert_eq!(name("\\\\?\\C:\\x\\\\y.exe\\").as_deref(), Some("y.exe"));
    assert_eq!(name("\\\\?\\C:\\"), None);
    assert_eq!(name("\\\\?\\UNC\\srv\\sh"), None);
    assert_eq!(name("\\\\?\\UNC\\srv\\sh\\g.exe").as_deref(), Some("g.exe"));
    assert_eq!(name("\\\\?\\unc\\srv\\sh").as_deref(), Some("sh"));
    assert_eq!(name("\\\\?\\pipe").as_deref(), None);
    assert_eq!(name("\\\\?\\C:x").as_deref(), None);
}

#[test]
fn extensions() {
    assert!(path_has_extension("C:\\Games\\a.EXE", "exe"));
    assert!(path_has_extension("C:\\Links\\a.lnk", "LNK"));
    assert!(path_has_extension("archive.tar.gz", "gz"));
    assert!(!path_has_extension("archive.tar.gz", "tar"));
    assert!(!path_has_extension("C:\\Games\\.exe", "exe"));
    assert!(!path_has_extension("C:\\Games\\game", "exe"));
    assert!(!path_has_extension("C:\\Games.exe\\", "lnk"));
    assert!(path_has_extension("C:\\Games.exe\\", "exe"));
    assert!(path_has_extension("foo.", ""));
    assert!(!path_has_extension("C:\\", "exe"));
}

#[test]
fn file_names_follow_case_insensitive_paths() {
    assert_eq!(name("C:\\GAMES\\A.EXE").as_deref(), Some("A.EXE"));
    assert_eq!(name("c:\\games\\a.exe").as_deref(), Some("a.exe"));
    assert_eq!(name("C:\\GAMES\\.."), None);
    assert_eq!(name("c:\\games\\.."), None);
}

#[test]
fn file_names_are_single_components() {
    for p in ["C:\\a\\b.exe", "a/b/", "\\\\srv\\share\\dir\\x", "x", "C:y\\z\\", "\\\\?\\C:\\d\\e"] {
        let n = name(p).unwrap();
        assert!(!n.is_empty());
        assert!(!n.contains('\\') && !n.contains('/'));
        assert!(n != "." && n != "..");
    }
}
