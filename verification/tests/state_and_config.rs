use hdr_game_switcher::config::{
    add_game, add_picked_game, apply_startup_choice, tray_choice_renews_task, configured_path, game_label, hides_on_close, is_shortcut, remove_game,
    Config, PickOutcome,
};
use hdr_game_switcher::display::DisplayError;
use hdr_game_switcher::shell::ShortcutError;
use hdr_game_switcher::state::{
    add_process, admit_process, configured, finish_mode_change, mode_label, relevant, remove_process,
    resync, same_path, State,
};

fn config_with(games: &[&str]) -> Config {
    Config {
        games: games.iter().map(|g| g.to_string()).collect(),
        start_with_windows: false,
        minimize_to_tray: false,
    }
}

fn games() -> Vec<String> {
    vec!["C:\\Games\\Alpha\\alpha.exe".to_string(), "D:/Steam/beta.EXE".to_string()]
}

#[test]
fn default_config_is_empty() {
    let c = Config::default();
    assert!(c.games.is_empty());
    assert!(!c.start_with_windows);
    assert!(!c.minimize_to_tray);
}

#[test]
fn new_state() {
    let s = State::new(config_with(&["C:\\a.exe"]));
    assert_eq!(s.config.games, vec!["C:\\a.exe"]);
    assert!(s.active.is_empty());
    assert!(!s.mode_on);
    assert!(!s.watcher_started);
    assert_eq!(s.status, "Waiting for configured games");
}

#[test]
fn configured_copies_games() {
    let s = State::new(config_with(&["C:\\a.exe", "C:\\b.exe"]));
    assert_eq!(configured(&s), vec!["C:\\a.exe", "C:\\b.exe"]);
}

#[test]
fn relevant_names() {
    let g = games();
    assert!(relevant("ALPHA.exe", &g));
    assert!(relevant("beta.exe", &g));
    assert!(!relevant("gamma.exe", &g));
    assert!(!relevant("alpha", &g));
    assert!(!relevant("alpha.exe", &[]));
}

#[test]
fn same_paths() {
    assert!(same_path("C:\\Games\\A.exe", "c:\\games\\a.EXE"));
    assert!(!same_path("C:\\Games\\A.exe", "C:/Games/A.exe"));
    assert!(configured_path(&games(), "d:/steam/BETA.exe"));
    assert!(!configured_path(&games(), "E:\\beta.exe"));
}

#[test]
fn first_game_switches_on() {
    let mut s = State::new(config_with(&[]));
    assert!(add_process(&mut s, 10, "C:\\Games\\Alpha\\alpha.exe".to_string()));
    assert_eq!(s.status, "alpha.exe detected");
    assert_eq!(s.active.get(&10).map(|p| p.as_str()), Some("C:\\Games\\Alpha\\alpha.exe"));
    assert!(!add_process(&mut s, 11, "D:/Steam/beta.EXE".to_string()));
    assert_eq!(s.status, "beta.EXE detected");
    assert_eq!(s.active.len(), 2);
}

#[test]
fn known_process_changes_nothing() {
    let mut s = State::new(config_with(&[]));
    assert!(add_process(&mut s, 10, "C:\\a.exe".to_string()));
    s.status = "kept".to_string();
    assert!(!add_process(&mut s, 10, "C:\\other.exe".to_string()));
    assert_eq!(s.status, "kept");
    assert_eq!(s.active.get(&10).map(|p| p.as_str()), Some("C:\\a.exe"));
}

#[test]
fn status_without_file_name() {
    let mut s = State::new(config_with(&[]));
    assert!(add_process(&mut s, 1, "C:\\".to_string()));
    assert_eq!(s.status, " detected");
}

#[test]
fn last_game_switches_off() {
    let mut s = State::new(config_with(&[]));
    assert!(add_process(&mut s, 1, "C:\\a.exe".to_string()));
    assert!(!add_process(&mut s, 2, "C:\\b.exe".to_string()));
    assert!(!remove_process(&mut s, 3));
    assert!(!remove_process(&mut s, 1));
    assert!(remove_process(&mut s, 2));
    assert!(s.active.is_empty());
    assert!(!remove_process(&mut s, 2));
}

#[test]
fn mode_follows_running_games() {
    let mut s = State::new(config_with(&[]));
    let events: Vec<(bool, u32)> = vec![(true, 1), (true, 2), (false, 1), (true, 1), (false, 2), (false, 1), (false, 1)];
    for (start, pid) in events {
        if start {
            if add_process(&mut s, pid, format!("C:\\g{pid}.exe")) {
                finish_mode_change(&mut s, true, &Ok(()));
            }
        } else if remove_process(&mut s, pid) {
            finish_mode_change(&mut s, false, &Err(DisplayError::MonitorNotFound));
        }
        assert_eq!(s.mode_on, !s.active.is_empty());
    }
}

#[test]
fn admitted_only_when_configured() {
    let mut s = State::new(config_with(&[]));
    let g = games();
    assert!(!admit_process(&mut s, &g, 5, "C:\\Other\\alpha.exe".to_string()));
    assert!(s.active.is_empty());
    assert_eq!(s.status, "Waiting for configured games");
    assert!(admit_process(&mut s, &g, 5, "c:\\games\\alpha\\ALPHA.EXE".to_string()));
    assert_eq!(s.status, "ALPHA.EXE detected");
}

#[test]
fn mode_change_messages() {
    let mut s = State::new(config_with(&[]));
    finish_mode_change(&mut s, true, &Ok(()));
    assert!(s.mode_on);
    assert_eq!(s.status, "Game detected. HDR and Console Mode enabled.");
    finish_mode_change(&mut s, false, &Ok(()));
    assert!(!s.mode_on);
    assert_eq!(s.status, "No configured games running.");
    finish_mode_change(&mut s, true, &Err(DisplayError::ReadFailed(87)));
    assert!(s.mode_on);
    assert_eq!(s.status, "Display change failed: could not read display configuration (87)");
    assert_eq!(mode_label(true), "HDR + Console Mode ON");
    assert_eq!(mode_label(false), "HDR + Console Mode OFF");
}

#[test]
fn resync_plans() {
    let mut s = State::new(config_with(&[]));
    assert!(resync(&mut s).is_none());
    assert!(!s.watcher_started);
    let mut s = State::new(config_with(&["C:\\a.exe"]));
    let p = resync(&mut s).unwrap();
    assert_eq!(p.games, vec!["C:\\a.exe"]);
    assert!(p.start_watchers);
    assert!(s.watcher_started);
    let q = resync(&mut s).unwrap();
    assert!(!q.start_watchers);
}

#[test]
fn adding_games() {
    let mut c = config_with(&["C:\\Games\\a.exe"]);
    assert!(add_game(&mut c, "C:\\Games\\b.EXE".to_string()));
    assert_eq!(c.games, vec!["C:\\Games\\a.exe", "C:\\Games\\b.EXE"]);
    assert!(add_game(&mut c, "c:\\games\\A.EXE".to_string()));
    assert_eq!(c.games.len(), 2);
    assert!(!add_game(&mut c, "C:\\Games\\readme.txt".to_string()));
    assert_eq!(c.games.len(), 2);
}

#[test]
fn picked_files() {
    let mut c = config_with(&[]);
    assert!(is_shortcut("C:\\Users\\me\\Desktop\\Game.LNK"));
    assert!(!is_shortcut("C:\\Games\\game.exe"));
    assert!(matches!(add_picked_game(&mut c, Ok("C:\\g.exe".to_string())), PickOutcome::Added));
    match add_picked_game(&mut c, Ok("C:\\g.bat".to_string())) {
        PickOutcome::Rejected(m) => assert_eq!(m, "Shortcut target is not an .exe"),
        PickOutcome::Added => panic!("a batch file was added"),
    }
    match add_picked_game(&mut c, Err(ShortcutError::NoTarget)) {
        PickOutcome::Rejected(m) => assert_eq!(m, "Could not resolve shortcut: shortcut has no target"),
        PickOutcome::Added => panic!("an error was added"),
    }
    assert_eq!(c.games, vec!["C:\\g.exe"]);
}

#[test]
fn removing_games() {
    let mut c = config_with(&["a.exe", "b.exe", "c.exe"]);
    remove_game(&mut c, 1);
    assert_eq!(c.games, vec!["a.exe", "c.exe"]);
}

#[test]
fn labels_and_closing() {
    assert_eq!(game_label("C:\\Games\\x.exe"), "x.exe");
    assert_eq!(game_label("C:\\"), "C:\\");
    let mut c = config_with(&[]);
    assert!(!hides_on_close(&c, true));
    c.minimize_to_tray = true;
    assert!(hides_on_close(&c, true));
    assert!(!hides_on_close(&c, false));
}

#[test]
fn stop_after_start_restores_running_games() {
    let mut s = State::new(config_with(&[]));
    assert!(add_process(&mut s, 1, "C:\\a.exe".to_string()));
    let before: Vec<u32> = s.active.keys().copied().collect();
    assert!(!add_process(&mut s, 2, "C:\\b.exe".to_string()));
    assert!(!remove_process(&mut s, 2));
    let after: Vec<u32> = s.active.keys().copied().collect();
    assert_eq!(before, after);
    assert_eq!(s.active.get(&1).map(|p| p.as_str()), Some("C:\\a.exe"));
}

#[test]
fn configured_paths_pass_the_name_check() {
    let g = games();
    for path in ["c:\\GAMES\\alpha\\Alpha.Exe", "D:/STEAM/beta.exe"] {
        assert!(configured_path(&g, path));
        let name = hdr_game_switcher::path::path_file_name(path).unwrap();
        assert!(relevant(&name, &g));
        assert!(relevant(&name.to_uppercase(), &g));
    }
}

#[test]
fn startup_choices() {
    let mut c = config_with(&["a.exe"]);
    assert_eq!(apply_startup_choice(&mut c, true, Ok(())), None);
    assert!(c.start_with_windows);
    assert_eq!(
        apply_startup_choice(&mut c, false, Err("access denied".to_string())).as_deref(),
        Some("Startup setting failed: access denied")
    );
    assert!(c.start_with_windows);
    assert_eq!(c.games, vec!["a.exe"]);
}

#[test]
fn tray_choice_and_logon_task() {
    let mut c = config_with(&[]);
    assert!(!tray_choice_renews_task(&c));
    c.start_with_windows = true;
    assert!(tray_choice_renews_task(&c));
}
