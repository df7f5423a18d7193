//! Values exchanged with the Windows shell and task scheduler: resolved
//! shortcut targets, process image paths, the logon task's command line and
//! the relaunch with administrator rights.
use vstd::prelude::*;
use vstd::string::*;
use crate::config::texts;
use crate::wide::{decode_lossy, valid_utf16, until_nul, units_until_nul, decode_utf16, decode_utf16_lossy};

verus! {

/// Why a shortcut could not be resolved.
pub enum ShortcutError {
    /// The shortcut has an empty target.
    NoTarget,
    /// The target is not valid UTF-16.
    InvalidText,
    /// A system call failed with this message.
    System(String),
}

/// The text that describes a shortcut error.
pub open spec fn shortcut_error_text(e: ShortcutError) -> Seq<char> {
    match e {
        ShortcutError::NoTarget => "shortcut has no target"@,
        ShortcutError::InvalidText => "invalid utf-16: lone surrogate found"@,
        ShortcutError::System(m) => m@,
    }
}

impl ShortcutError {
    /// The text that describes this error.
    pub fn message(&self) -> (r: String)
        ensures
            r@ == shortcut_error_text(*self),
    {
        match self {
            ShortcutError::NoTarget => String::from_str("shortcut has no target"),
            ShortcutError::InvalidText => String::from_str("invalid utf-16: lone surrogate found"),
            ShortcutError::System(m) => m.clone(),
        }
    }
}

/// The target path of a shortcut from the buffer the shell filled: the text
/// before the first zero unit; an error when that is empty or not valid UTF-16.
pub fn shortcut_target(buffer: &[u16]) -> (r: Result<String, ShortcutError>)
    ensures
        until_nul(buffer@).len() == 0 ==> r == Err::<String, ShortcutError>(ShortcutError::NoTarget),
        until_nul(buffer@).len() > 0 && !valid_utf16(until_nul(buffer@)) ==> r == Err::<
            String,
            ShortcutError,
        >(ShortcutError::InvalidText),
        until_nul(buffer@).len() > 0 && valid_utf16(until_nul(buffer@)) ==> r is Ok,
        r matches Ok(s) ==> s@ == decode_lossy(until_nul(buffer@)),
{
    let units = units_until_nul(buffer);
    if units.len() == 0 {
        return Err(ShortcutError::NoTarget);
    }
    match decode_utf16(units.as_slice()) {
        Some(s) => Ok(s),
        None => Err(ShortcutError::InvalidText),
    }
}

/// The executable path of a process from the buffer the system filled with
/// `len` units.
pub fn image_path(buffer: &[u16], len: u32) -> (r: String)
    requires
        len <= buffer.len(),
    ensures
        r@ == decode_lossy(buffer@.take(len as int)),
{
    let mut units: Vec<u16> = Vec::new();
    let mut i: usize = 0;
    let n = len as usize;
    while i < n
        invariant
            n == len,
            i <= n <= buffer.len(),
            units@ == buffer@.take(i as int),
        decreases n - i,
    {
        units.push(buffer[i]);
        assert(buffer@.take(i + 1) =~= buffer@.take(i as int).push(buffer@[i as int]));
        i = i + 1;
    }
    decode_utf16_lossy(units.as_slice())
}

/// The name of the scheduled task that starts the application at logon.
pub open spec fn task_name() -> Seq<char> {
    "HDR Game Switcher"@
}

/// The command the logon task runs: the quoted executable path, asking for a hidden start.
pub open spec fn startup_command(exe: Seq<char>) -> Seq<char> {
    "\""@ + exe + "\" --minimized"@
}

/// The command the logon task runs for the executable at `exe`.
pub fn startup_action(exe: &str) -> (r: String)
    ensures
        r@ == startup_command(exe@),
{
    let mut s = String::from_str("\"");
    s.append(exe);
    s.append("\" --minimized");
    s
}

/// The arguments that create the logon task running `action` with the
/// highest privileges, replacing any task of the same name.
pub open spec fn create_task_args(action: Seq<char>) -> Seq<Seq<char>> {
    seq![
        "/Create"@,
        "/TN"@,
        task_name(),
        "/SC"@,
        "ONLOGON"@,
        "/TR"@,
        action,
        "/RL"@,
        "HIGHEST"@,
        "/IT"@,
        "/F"@,
    ]
}

/// The arguments that delete the logon task.
pub open spec fn delete_task_args() -> Seq<Seq<char>> {
    seq!["/Delete"@, "/TN"@, task_name(), "/F"@]
}

/// The task scheduler arguments that create the logon task for `action`.
pub fn create_task_arguments(action: &str) -> (r: Vec<String>)
    ensures
        texts(r@) == create_task_args(action@),
{
    let mut r: Vec<String> = Vec::new();
    r.push(String::from_str("/Create"));
    r.push(String::from_str("/TN"));
    r.push(String::from_str("HDR Game Switcher"));
    r.push(String::from_str("/SC"));
    r.push(String::from_str("ONLOGON"));
    r.push(String::from_str("/TR"));
    r.push(String::from_str(action));
    r.push(String::from_str("/RL"));
    r.push(String::from_str("HIGHEST"));
    r.push(String::from_str("/IT"));
    r.push(String::from_str("/F"));
    assert(texts(r@) =~= create_task_args(action@));
    r
}

/// The task scheduler arguments that delete the logon task.
pub fn delete_task_arguments() -> (r: Vec<String>)
    ensures
        texts(r@) == delete_task_args(),
{
    let mut r: Vec<String> = Vec::new();
    r.push(String::from_str("/Delete"));
    r.push(String::from_str("/TN"));
    r.push(String::from_str("HDR Game Switcher"));
    r.push(String::from_str("/F"));
    assert(texts(r@) =~= delete_task_args());
    r
}

/// Each argument followed by a space, all in a row.
pub open spec fn spaced(args: Seq<Seq<u16>>) -> Seq<u16>
    decreases args.len(),
{
    if args.len() == 0 {
        Seq::empty()
    } else {
        spaced(args.drop_last()) + args.last() + seq![0x20u16]
    }
}

/// The wide command line for a relaunch: every argument after the program
/// name, each followed by a space, then a terminating zero.
pub open spec fn relaunch_line(args: Seq<Seq<u16>>) -> Seq<u16> {
    let rest = if args.len() == 0 {
        args
    } else {
        args.drop_first()
    };
    spaced(rest).push(0)
}

/// The wide command line for relaunching with administrator rights, from
/// the program's arguments (program name first) in UTF-16.
pub fn relaunch_arguments(args: &Vec<Vec<u16>>) -> (r: Vec<u16>)
    ensures
        r@ == relaunch_line(args@.map_values(|a: Vec<u16>| a@)),
{
    let ghost all = args@.map_values(|a: Vec<u16>| a@);
    let ghost rest = if all.len() == 0 { all } else { all.drop_first() };
    let mut r: Vec<u16> = Vec::new();
    let mut i: usize = if args.len() == 0 { 0 } else { 1 };
    let start = i;
    assert(rest =~= all.subrange(start as int, all.len() as int));
    assert(all.subrange(start as int, start as int) =~= Seq::<Seq<u16>>::empty());
    while i < args.len()
        invariant
            start <= i <= args.len(),
            all == args@.map_values(|a: Vec<u16>| a@),
            r@ == spaced(all.subrange(start as int, i as int)),
        decreases args.len() - i,
    {
        let a = &args[i];
        let mut j: usize = 0;
        let ghost before = r@;
        while j < a.len()
            invariant
                j <= a.len(),
                r@ == before + a@.take(j as int),
            decreases a.len() - j,
        {
            r.push(a[j]);
            assert(a@.take(j + 1) =~= a@.take(j as int).push(a@[j as int]));
            j = j + 1;
        }
        r.push(0x20);
        proof {
            let done = all.subrange(start as int, i + 1);
            assert(done.drop_last() =~= all.subrange(start as int, i as int));
            assert(done.last() == a@);
            assert(a@.take(a.len() as int) =~= a@);
            assert(r@ =~= spaced(done));
        }
        i = i + 1;
    }
    assert(all.subrange(start as int, args.len() as int) =~= rest);
    r.push(0);
    r
}

/// Whether the shell granted the relaunch: it reports success with a value above 32.
pub fn relaunch_granted(code: usize) -> (r: bool)
    ensures
        r == (code > 32),
{
    code > 32
}

/// Whether the arguments ask for a hidden start: one of them is `--minimized`.
pub fn starts_hidden(args: &[String]) -> (r: bool)
    ensures
        r == exists|i: int| 0 <= i < args.len() && (#[trigger] args@[i])@ == "--minimized"@,
{
    let flag = String::from_str("--minimized");
    let mut i: usize = 0;
    while i < args.len()
        invariant
            i <= args.len(),
            flag@ == "--minimized"@,
            forall|k: int| 0 <= k < i ==> (#[trigger] args@[k])@ != "--minimized"@,
        decreases args.len() - i,
    {
        if args[i] == flag {
            return true;
        }
        i = i + 1;
    }
    false
}

/// What the user did with the tray icon or its menu.
pub enum TrayInput {
    /// Clicked the icon.
    IconClicked,
    /// Any other event on the icon (hovering, moving, leaving).
    OtherIconEvent,
    /// Chose the menu item "Show".
    ShowChosen,
    /// Chose the menu item "Exit".
    ExitChosen,
    /// Chose any other menu item.
    OtherChosen,
}

/// What the application does in answer.
pub enum TrayAction {
    /// Brings the main window back and shows it.
    ShowWindow,
    /// Ends the application.
    Exit,
    /// Nothing.
    Ignore,
}

/// A click on the icon or "Show" brings the window back, "Exit" ends the
/// application, and anything else is ignored.
pub open spec fn tray_response(input: TrayInput) -> TrayAction {
    match input {
        TrayInput::IconClicked | TrayInput::ShowChosen => TrayAction::ShowWindow,
        TrayInput::ExitChosen => TrayAction::Exit,
        TrayInput::OtherIconEvent | TrayInput::OtherChosen => TrayAction::Ignore,
    }
}

/// What the application does when the user acts on the tray icon or its menu.
pub fn tray_action(input: TrayInput) -> (r: TrayAction)
    ensures
        r == tray_response(input),
{
    match input {
        TrayInput::IconClicked | TrayInput::ShowChosen => TrayAction::ShowWindow,
        TrayInput::ExitChosen => TrayAction::Exit,
        TrayInput::OtherIconEvent | TrayInput::OtherChosen => TrayAction::Ignore,
    }
}

/// The color of the tray icon, as red, green, blue and alpha.
pub open spec fn icon_color() -> Seq<u8> {
    seq![40u8, 180u8, 210u8, 255u8]
}

/// The side of the square tray icon, in pixels.
pub const ICON_SIDE: u32 = 16;

/// The pixels of the tray icon: `ICON_SIDE` by `ICON_SIDE` pixels of one color, as RGBA bytes.
pub fn tray_icon_pixels() -> (r: Vec<u8>)
    ensures
        r@.len() == 16 * 16 * 4,
        forall|i: int| 0 <= i < r@.len() ==> #[trigger] r@[i] == icon_color()[i % 4],
{
    let color: [u8; 4] = [40, 180, 210, 255];
    let mut r: Vec<u8> = Vec::new();
    let mut i: usize = 0;
    while i < 16 * 16 * 4
        invariant
            i <= 16 * 16 * 4,
            color@ == icon_color(),
            r@.len() == i,
            forall|k: int| 0 <= k < i ==> #[trigger] r@[k] == icon_color()[k % 4],
        decreases 16 * 16 * 4 - i,
    {
        r.push(color[i % 4]);
        i = i + 1;
    }
    r
}

} // verus!
