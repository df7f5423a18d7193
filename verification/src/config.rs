//! The saved settings: the configured games and the startup and tray choices.
use vstd::prelude::*;
use vstd::string::*;
use crate::path::{file_name, has_extension, path_file_name, path_has_extension};
use crate::text::{eq_ignoring_case, eq_ignore_ascii_case, lemma_eq_ignoring_case_symmetric};
use crate::shell::{ShortcutError, shortcut_error_text};

verus! {

/// The settings the application keeps between runs.
#[derive(Clone)]
pub struct Config {
    /// Full paths of the configured game executables.
    pub games: Vec<String>,
    /// Whether the application starts when the user logs on.
    pub start_with_windows: bool,
    /// Whether closing the window hides it in the tray.
    pub minimize_to_tray: bool,
}

/// The settings as plain values.
pub struct ConfigView {
    pub games: Seq<Seq<char>>,
    pub start_with_windows: bool,
    pub minimize_to_tray: bool,
}

/// The texts of a list of strings.
pub open spec fn texts(v: Seq<String>) -> Seq<Seq<char>> {
    v.map_values(|s: String| s@)
}

impl View for Config {
    type V = ConfigView;

    open spec fn view(&self) -> ConfigView {
        ConfigView {
            games: texts(self.games@),
            start_with_windows: self.start_with_windows,
            minimize_to_tray: self.minimize_to_tray,
        }
    }
}

impl Default for Config {
    /// No games, and neither startup nor tray behaviour.
    fn default() -> (r: Config)
        ensures
            r@.games.len() == 0,
            !r.start_with_windows,
            !r.minimize_to_tray,
    {
        Config { games: Vec::new(), start_with_windows: false, minimize_to_tray: false }
    }
}

/// Copies of the strings in `v`.
pub fn clone_texts(v: &Vec<String>) -> (r: Vec<String>)
    ensures
        texts(r@) == texts(v@),
{
    let mut r: Vec<String> = Vec::new();
    let mut i: usize = 0;
    while i < v.len()
        invariant
            i <= v.len(),
            texts(r@) =~= texts(v@.take(i as int)),
        decreases v.len() - i,
    {
        let ghost prev = r@;
        let c = v[i].clone();
        r.push(c);
        proof {
            assert(v@.take(i + 1) =~= v@.take(i as int).push(v@[i as int]));
            assert(texts(r@) =~= texts(prev).push(c@));
            assert(texts(v@.take(i + 1)) =~= texts(v@.take(i as int)).push(v@[i as int]@));
        }
        i = i + 1;
    }
    proof {
        assert(v@.take(v.len() as int) =~= v@);
    }
    r
}

/// Whether `path` names one of `games`, without regard to ASCII case.
pub open spec fn is_configured_path(games: Seq<Seq<char>>, path: Seq<char>) -> bool {
    exists|i: int| 0 <= i < games.len() && eq_ignoring_case(#[trigger] games[i], path)
}

/// Whether `path` is one of `games`, without regard to ASCII case.
pub fn configured_path(games: &[String], path: &str) -> (r: bool)
    ensures
        r == is_configured_path(texts(games@), path@),
{
    let mut i: usize = 0;
    while i < games.len()
        invariant
            i <= games.len(),
            forall|k: int| 0 <= k < i ==> !eq_ignoring_case(#[trigger] texts(games@)[k], path@),
        decreases games.len() - i,
    {
        if eq_ignore_ascii_case(games[i].as_str(), path) {
            assert(eq_ignoring_case(texts(games@)[i as int], path@));
            return true;
        }
        i = i + 1;
    }
    false
}

/// No two games are the same path without regard to ASCII case.
pub open spec fn distinct_ignoring_case(games: Seq<Seq<char>>) -> bool {
    forall|i: int, j: int|
        0 <= i < games.len() && 0 <= j < games.len() && i != j ==> !eq_ignoring_case(
            #[trigger] games[i],
            #[trigger] games[j],
        )
}

/// The games after `path` was added: unchanged when it is already there
/// without regard to ASCII case, otherwise with `path` at the end.
pub open spec fn with_game(games: Seq<Seq<char>>, path: Seq<char>) -> Seq<Seq<char>> {
    if is_configured_path(games, path) {
        games
    } else {
        games.push(path)
    }
}

/// Whether a picked file is a shortcut to be resolved first.
pub fn is_shortcut(path: &str) -> (r: bool)
    ensures
        r == has_extension(path@, "lnk"@),
{
    path_has_extension(path, "lnk")
}

/// Adds the game at `path` when it is an executable (its extension is `exe`
/// without regard to ASCII case) and not configured yet; says whether it was
/// an executable.
pub fn add_game(config: &mut Config, path: String) -> (r: bool)
    ensures
        r == has_extension(path@, "exe"@),
        r ==> final(config)@ == (ConfigView { games: with_game(old(config)@.games, path@), ..old(config)@ }),
        !r ==> *final(config) == *old(config),
{
    if !path_has_extension(path.as_str(), "exe") {
        return false;
    }
    if !configured_path(config.games.as_slice(), path.as_str()) {
        let ghost p = path@;
        config.games.push(path);
        assert(texts(config.games@) =~= texts(old(config).games@).push(p));
    }
    true
}

/// What became of a picked file.
pub enum PickOutcome {
    /// It was an executable, now configured; the settings must be saved and
    /// the running processes scanned again.
    Added,
    /// Nothing was added; this message is shown.
    Rejected(String),
}

/// Adds the game that a picked file resolved to, or says why not.
pub fn add_picked_game(config: &mut Config, resolved: Result<String, ShortcutError>) -> (r: PickOutcome)
    ensures
        match resolved {
            Ok(path) => if has_extension(path@, "exe"@) {
                &&& r is Added
                &&& final(config)@ == (ConfigView { games: with_game(old(config)@.games, path@), ..old(config)@ })
            } else {
                &&& r matches PickOutcome::Rejected(m) && m@ == "Shortcut target is not an .exe"@
                &&& *final(config) == *old(config)
            },
            Err(e) => {
                &&& r matches PickOutcome::Rejected(m) && m@ == "Could not resolve shortcut: "@ + shortcut_error_text(e)
                &&& *final(config) == *old(config)
            },
        },
{
    match resolved {
        Ok(path) => {
            if add_game(config, path) {
                PickOutcome::Added
            } else {
                PickOutcome::Rejected(String::from_str("Shortcut target is not an .exe"))
            }
        },
        Err(e) => {
            let mut m = String::from_str("Could not resolve shortcut: ");
            let t = e.message();
            m.append(t.as_str());
            PickOutcome::Rejected(m)
        },
    }
}

/// Removes the game at `index`.
pub fn remove_game(config: &mut Config, index: usize)
    requires
        index < old(config).games.len(),
    ensures
        final(config)@ == (ConfigView { games: old(config)@.games.remove(index as int), ..old(config)@ }),
{
    let ghost before = config.games@;
    config.games.remove(index);
    assert(texts(config.games@) =~= texts(before).remove(index as int));
}

/// The name under which a game is listed: its file name, or the whole path
/// when it has none.
pub open spec fn label_of(game: Seq<char>) -> Seq<char> {
    match file_name(game) {
        Some(name) => name,
        None => game,
    }
}

/// The name under which a game is listed.
pub fn game_label(game: &str) -> (r: String)
    ensures
        r@ == label_of(game@),
{
    match path_file_name(game) {
        Some(name) => name,
        None => game.to_owned(),
    }
}

/// Applies the user's choice of starting with Windows, given what came of
/// changing the logon task: on success the setting takes the new value (and
/// must then be saved), and nothing is returned; on failure the setting stays
/// and the message to show is returned.
pub fn apply_startup_choice(config: &mut Config, requested: bool, outcome: Result<(), String>) -> (r: Option<String>)
    ensures
        match outcome {
            Ok(()) => {
                &&& r is None
                &&& final(config)@ == (ConfigView { start_with_windows: requested, ..old(config)@ })
            },
            Err(e) => {
                &&& r matches Some(m) && m@ == "Startup setting failed: "@ + e@
                &&& *final(config) == *old(config)
            },
        },
{
    match outcome {
        Ok(()) => {
            config.start_with_windows = requested;
            None
        },
        Err(e) => {
            let mut m = String::from_str("Startup setting failed: ");
            m.append(e.as_str());
            Some(m)
        },
    }
}

/// Whether the logon task must be written again after the tray choice
/// changed: only when the application starts with Windows.
pub fn tray_choice_renews_task(config: &Config) -> (r: bool)
    ensures
        r == config.start_with_windows,
{
    config.start_with_windows
}

/// Whether a request to close the window hides it in the tray instead.
pub fn hides_on_close(config: &Config, close_requested: bool) -> (r: bool)
    ensures
        r == (close_requested && config.minimize_to_tray),
{
    close_requested && config.minimize_to_tray
}

/// Every configured game is an executable: its extension is `exe` without
/// regard to ASCII case.
pub open spec fn all_executables(games: Seq<Seq<char>>) -> bool {
    forall|i: int| 0 <= i < games.len() ==> has_extension(#[trigger] games[i], "exe"@)
}

/// Only executables are ever configured: a shortcut or any other file that a
/// pick resolves to is stored only when it is an executable.
pub proof fn law_only_executables_are_configured(games: Seq<Seq<char>>, path: Seq<char>)
    requires
        all_executables(games),
        has_extension(path, "exe"@),
    ensures
        all_executables(with_game(games, path)),
{
    let g = with_game(games, path);
    assert forall|i: int| 0 <= i < g.len() implies has_extension(#[trigger] g[i], "exe"@) by {
        if i < games.len() {
            assert(g[i] == games[i]);
        }
    }
}

/// Adding a game keeps the configured games distinct without regard to ASCII
/// case, and the added path is then configured.
pub proof fn law_add_game_keeps_games_distinct(games: Seq<Seq<char>>, path: Seq<char>)
    requires
        distinct_ignoring_case(games),
    ensures
        distinct_ignoring_case(with_game(games, path)),
        is_configured_path(with_game(games, path), path),
{
    let g = with_game(games, path);
    if !is_configured_path(games, path) {
        assert forall|i: int, j: int|
            0 <= i < g.len() && 0 <= j < g.len() && i != j implies !eq_ignoring_case(
            #[trigger] g[i],
            #[trigger] g[j],
        ) by {
            if i == games.len() {
                lemma_eq_ignoring_case_symmetric(g[i], g[j]);
                assert(!eq_ignoring_case(games[j], path));
            } else if j == games.len() {
                assert(!eq_ignoring_case(games[i], path));
            } else {
                assert(g[i] == games[i] && g[j] == games[j]);
            }
        }
        assert(eq_ignoring_case(g[games.len() as int], path));
    } else {
        let k = choose|k: int| 0 <= k < games.len() && eq_ignoring_case(#[trigger] games[k], path);
        assert(eq_ignoring_case(g[k], path));
    }
}

} // verus!
