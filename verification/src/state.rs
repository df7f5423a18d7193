//! The shared state of the watcher: which configured games are running, and
//! the decisions taken when a process starts or stops.
//!
//! The display is switched on when the number of running configured games
//! goes from zero to one, and off when it goes back to zero; processes that
//! start or stop in between change nothing on the display.
use vstd::prelude::*;
use vstd::string::*;
use std::collections::HashMap;
use crate::config::{Config, ConfigView, texts, clone_texts, is_configured_path, configured_path};
use crate::display::{DisplayError, error_text};
use crate::path::{file_name, path_file_name, law_file_name_ignores_case, is_verbatim_unc, law_file_name_of_drive_path};
use crate::text::{eq_ignoring_case, eq_ignore_ascii_case, lemma_eq_ignoring_case_transitive};

verus! {

broadcast use vstd::std_specs::hash::group_hash_axioms;

/// What the watcher and the window share.
pub struct State {
    /// The saved settings.
    pub config: Config,
    /// The running configured games, by process id, with their executable paths.
    pub active: HashMap<u32, String>,
    /// Whether HDR and console mode were last switched on.
    pub mode_on: bool,
    /// The last message shown to the user.
    pub status: String,
    /// Whether the process watchers have been started.
    pub watcher_started: bool,
}

/// The shared state as plain values.
pub struct StateView {
    pub config: ConfigView,
    pub active: Map<u32, Seq<char>>,
    pub mode_on: bool,
    pub status: Seq<char>,
    pub watcher_started: bool,
}

impl View for State {
    type V = StateView;

    open spec fn view(&self) -> StateView {
        StateView {
            config: self.config@,
            active: self.active@.map_values(|p: String| p@),
            mode_on: self.mode_on,
            status: self.status@,
            watcher_started: self.watcher_started,
        }
    }
}

/// Whether at least one configured game is running.
pub open spec fn has_active_game(s: StateView) -> bool {
    !s.active.dom().is_empty()
}

/// The file name of a path, or nothing.
pub open spec fn file_name_or_empty(path: Seq<char>) -> Seq<char> {
    match file_name(path) {
        Some(name) => name,
        None => Seq::empty(),
    }
}

/// The message shown when a configured game starts.
pub open spec fn detected_status(path: Seq<char>) -> Seq<char> {
    file_name_or_empty(path) + " detected"@
}

/// The state after process `pid`, running the configured game at `path`, was
/// seen to start, and whether the display must now be switched on. A process
/// that is already known changes nothing.
pub open spec fn process_started(s: StateView, pid: u32, path: Seq<char>) -> (StateView, bool) {
    if s.active.contains_key(pid) {
        (s, false)
    } else {
        (
            StateView { active: s.active.insert(pid, path), status: detected_status(path), ..s },
            s.active.dom().is_empty(),
        )
    }
}

/// The state after process `pid` was seen to stop, and whether the display
/// must now be switched off: only when a known game stopped and none is left.
pub open spec fn process_stopped(s: StateView, pid: u32) -> (StateView, bool) {
    let active = s.active.remove(pid);
    (StateView { active, ..s }, s.active.contains_key(pid) && active.dom().is_empty())
}

/// The message shown after the display was switched.
pub open spec fn mode_status(on: bool, outcome: Result<(), DisplayError>) -> Seq<char> {
    match outcome {
        Ok(()) => if on {
            "Game detected. HDR and Console Mode enabled."@
        } else {
            "No configured games running."@
        },
        Err(e) => "Display change failed: "@ + error_text(e),
    }
}

/// The state after the display was switched on or off, with that outcome.
pub open spec fn mode_changed(s: StateView, on: bool, outcome: Result<(), DisplayError>) -> StateView {
    StateView { mode_on: on, status: mode_status(on, outcome), ..s }
}

/// Whether a process with the executable name `name` may be one of `games`:
/// some game's file name equals it without regard to ASCII case.
pub open spec fn is_relevant_name(name: Seq<char>, games: Seq<Seq<char>>) -> bool {
    exists|i: int|
        0 <= i < games.len() && (#[trigger] file_name(games[i]) matches Some(f) && eq_ignoring_case(
            f,
            name,
        ))
}

/// A starting process asks for the display to be switched on exactly when it
/// takes the number of running configured games from zero to one.
pub proof fn law_switch_on_at_first_game(s: StateView, pid: u32, path: Seq<char>)
    ensures
        process_started(s, pid, path).1 == (!has_active_game(s) && has_active_game(
            process_started(s, pid, path).0,
        )),
{
    if !s.active.contains_key(pid) {
        assert(s.active.insert(pid, path).dom().contains(pid));
    }
}

/// A stopping process asks for the display to be switched off exactly when
/// it takes the number of running configured games from one to zero.
pub proof fn law_switch_off_after_last_game(s: StateView, pid: u32)
    ensures
        process_stopped(s, pid).1 == (has_active_game(s) && !has_active_game(
            process_stopped(s, pid).0,
        )),
{
    if !s.active.contains_key(pid) {
        assert(s.active.remove(pid) =~= s.active);
    } else {
        assert(s.active.dom().contains(pid));
    }
}

/// The name check that precedes the look-up of a process's path never turns
/// away a process whose path is configured, when its name is the file name
/// of that path (without regard to ASCII case). Left out are paths that
/// differ from their configured game in the case of a `\\?\UNC\` marker,
/// which is recognised in upper case alone.
pub proof fn law_configured_paths_pass_name_check(games: Seq<Seq<char>>, path: Seq<char>, name: Seq<char>)
    requires
        is_configured_path(games, path),
        forall|i: int|
            0 <= i < games.len() && eq_ignoring_case(#[trigger] games[i], path) ==> is_verbatim_unc(games[i])
                == is_verbatim_unc(path),
        file_name(path) is Some,
        eq_ignoring_case(file_name(path)->0, name),
    ensures
        is_relevant_name(name, games),
{
    let k = choose|k: int| 0 <= k < games.len() && eq_ignoring_case(#[trigger] games[k], path);
    law_file_name_ignores_case(games[k], path);
    let f = file_name(games[k])->0;
    lemma_eq_ignoring_case_transitive(f, file_name(path)->0, name);
    assert(file_name(games[k]) matches Some(g) && eq_ignoring_case(g, name));
}

/// A process passes the name check when its name equals, without regard to
/// ASCII case, the name at the end of a configured game on a drive
/// (`X:` + directories + `\\` + name), whatever characters that name holds
/// besides `\\` and `/`.
pub proof fn law_drive_games_are_recognised(
    games: Seq<Seq<char>>,
    k: int,
    drive: char,
    dirs: Seq<char>,
    name: Seq<char>,
    process_name: Seq<char>,
)
    requires
        0 <= k < games.len(),
        games[k] == seq![drive, ':'] + dirs + seq!['\\'] + name,
        ('a' <= drive && drive <= 'z') || ('A' <= drive && drive <= 'Z'),
        name.len() > 0,
        forall|i: int| 0 <= i < name.len() ==> #[trigger] name[i] != '\\' && name[i] != '/',
        name != seq!['.'],
        name != seq!['.', '.'],
        eq_ignoring_case(name, process_name),
    ensures
        is_relevant_name(process_name, games),
{
    law_file_name_of_drive_path(drive, dirs, name);
    assert(file_name(games[k]) matches Some(f) && eq_ignoring_case(f, process_name));
}

/// The state after a process started and, when that asked for it, the
/// display was switched on with `outcome`.
pub open spec fn after_start(s: StateView, pid: u32, path: Seq<char>, outcome: Result<(), DisplayError>) -> StateView {
    let (t, on) = process_started(s, pid, path);
    if on {
        mode_changed(t, true, outcome)
    } else {
        t
    }
}

/// The state after a process stopped and, when that asked for it, the
/// display was switched off with `outcome`.
pub open spec fn after_stop(s: StateView, pid: u32, outcome: Result<(), DisplayError>) -> StateView {
    let (t, off) = process_stopped(s, pid);
    if off {
        mode_changed(t, false, outcome)
    } else {
        t
    }
}

/// While the mode flag says whether some configured game runs, it keeps
/// saying so after any process starts and the requested switch is made.
pub proof fn law_mode_follows_games_on_start(
    s: StateView,
    pid: u32,
    path: Seq<char>,
    outcome: Result<(), DisplayError>,
)
    requires
        s.mode_on == has_active_game(s),
    ensures
        after_start(s, pid, path, outcome).mode_on == has_active_game(after_start(s, pid, path, outcome)),
{
    law_switch_on_at_first_game(s, pid, path);
}

/// While the mode flag says whether some configured game runs, it keeps
/// saying so after any process stops and the requested switch is made.
pub proof fn law_mode_follows_games_on_stop(s: StateView, pid: u32, outcome: Result<(), DisplayError>)
    requires
        s.mode_on == has_active_game(s),
    ensures
        after_stop(s, pid, outcome).mode_on == has_active_game(after_stop(s, pid, outcome)),
{
    law_switch_off_after_last_game(s, pid);
}

/// A new process that starts and then stops leaves the running games as they were.
pub proof fn law_stop_undoes_start(s: StateView, pid: u32, path: Seq<char>)
    requires
        !s.active.contains_key(pid),
    ensures
        process_stopped(process_started(s, pid, path).0, pid).0.active == s.active,
{
    assert(s.active.insert(pid, path).remove(pid) =~= s.active);
}

impl State {
    /// The state at launch: the loaded settings, no running game, the display
    /// mode off and a waiting message.
    pub fn new(config: Config) -> (r: State)
        ensures
            r@.config == config@,
            r@.active == Map::<u32, Seq<char>>::empty(),
            !r.mode_on,
            !r.watcher_started,
            r.status@ == "Waiting for configured games"@,
    {
        let r = State {
            config,
            active: HashMap::new(),
            mode_on: false,
            status: String::from_str("Waiting for configured games"),
            watcher_started: false,
        };
        proof {
            assert(r@.active =~= Map::<u32, Seq<char>>::empty());
        }
        r
    }
}

/// How the window names the display mode.
pub open spec fn mode_label_text(on: bool) -> Seq<char> {
    if on {
        "HDR + Console Mode ON"@
    } else {
        "HDR + Console Mode OFF"@
    }
}

/// How the window names the display mode.
pub fn mode_label(on: bool) -> (r: String)
    ensures
        r@ == mode_label_text(on),
{
    if on {
        String::from_str("HDR + Console Mode ON")
    } else {
        String::from_str("HDR + Console Mode OFF")
    }
}

/// The configured game paths.
pub fn configured(state: &State) -> (r: Vec<String>)
    ensures
        texts(r@) == state@.config.games,
{
    clone_texts(&state.config.games)
}

/// Whether a process named `name` may be a configured game: some configured
/// path has that file name, without regard to ASCII case.
pub fn relevant(name: &str, games: &[String]) -> (r: bool)
    ensures
        r == is_relevant_name(name@, texts(games@)),
{
    let mut i: usize = 0;
    while i < games.len()
        invariant
            i <= games.len(),
            forall|k: int|
                0 <= k < i ==> !(#[trigger] file_name(texts(games@)[k]) matches Some(f)
                    && eq_ignoring_case(f, name@)),
        decreases games.len() - i,
    {
        match path_file_name(games[i].as_str()) {
            Some(f) => {
                if eq_ignore_ascii_case(f.as_str(), name) {
                    assert(file_name(texts(games@)[i as int]) matches Some(g) && eq_ignoring_case(
                        g,
                        name@,
                    ));
                    return true;
                }
            },
            None => {},
        }
        i = i + 1;
    }
    false
}

/// Whether two paths are the same without regard to ASCII case.
pub fn same_path(a: &str, b: &str) -> (r: bool)
    ensures
        r == eq_ignoring_case(a@, b@),
{
    eq_ignore_ascii_case(a, b)
}

/// The message shown when the game at `path` starts.
fn detected_message(path: &str) -> (r: String)
    ensures
        r@ == detected_status(path@),
{
    let mut s = match path_file_name(path) {
        Some(name) => name,
        None => String::new(),
    };
    s.append(" detected");
    s
}

/// Records that process `pid` runs the configured game at `path`, and says
/// whether the display must now be switched on.
pub fn add_process(state: &mut State, pid: u32, path: String) -> (transition: bool)
    ensures
        (final(state)@, transition) == process_started(old(state)@, pid, path@),
{
    if state.active.contains_key(&pid) {
        return false;
    }
    let was_empty = state.active.is_empty();
    let status = detected_message(path.as_str());
    let ghost p = path@;
    state.active.insert(pid, path);
    state.status = status;
    proof {
        assert(state@.active =~= old(state)@.active.insert(pid, p));
    }
    was_empty
}

/// Records that process `pid` stopped, and says whether the display must now
/// be switched off.
pub fn remove_process(state: &mut State, pid: u32) -> (transition: bool)
    ensures
        (final(state)@, transition) == process_stopped(old(state)@, pid),
{
    let removed = state.active.remove(&pid);
    let empty = state.active.is_empty();
    proof {
        assert(state@.active =~= old(state)@.active.remove(pid));
    }
    removed.is_some() && empty
}

/// Admits a process whose executable lies at `path`: when that is one of
/// `games`, records it as `add_process` does; says whether the display must
/// now be switched on.
pub fn admit_process(state: &mut State, games: &[String], pid: u32, path: String) -> (transition: bool)
    ensures
        is_configured_path(texts(games@), path@) ==> (final(state)@, transition) == process_started(
            old(state)@,
            pid,
            path@,
        ),
        !is_configured_path(texts(games@), path@) ==> *final(state) == *old(state) && !transition,
{
    if configured_path(games, path.as_str()) {
        add_process(state, pid, path)
    } else {
        false
    }
}

/// Records that the display was switched on or off, with that outcome.
pub fn finish_mode_change(state: &mut State, on: bool, outcome: &Result<(), DisplayError>)
    ensures
        final(state)@ == mode_changed(old(state)@, on, *outcome),
{
    state.mode_on = on;
    state.status = match outcome {
        Ok(()) => if on {
            String::from_str("Game detected. HDR and Console Mode enabled.")
        } else {
            String::from_str("No configured games running.")
        },
        Err(e) => {
            let mut s = String::from_str("Display change failed: ");
            let m = e.message();
            s.append(m.as_str());
            s
        },
    };
}

/// What a scan of the running processes works with.
pub struct ResyncPlan {
    /// The configured game paths when the scan began.
    pub games: Vec<String>,
    /// Whether the process watchers must be started first.
    pub start_watchers: bool,
}

/// Prepares a scan of the running processes for configured games: nothing
/// when no game is configured; otherwise the configured paths, and whether
/// the watchers still have to be started, which the state then records.
pub fn resync(state: &mut State) -> (r: Option<ResyncPlan>)
    ensures
        old(state)@.config.games.len() == 0 ==> r is None && *final(state) == *old(state),
        old(state)@.config.games.len() > 0 ==> r is Some,
        r matches Some(p) ==> {
            &&& texts(p.games@) == old(state)@.config.games
            &&& p.start_watchers == !old(state).watcher_started
            &&& final(state)@ == (StateView { watcher_started: true, ..old(state)@ })
        },
{
    let games = configured(state);
    if games.len() == 0 {
        return None;
    }
    let start_watchers = !state.watcher_started;
    state.watcher_started = true;
    Some(ResyncPlan { games, start_watchers })
}

} // verus!
