//! Decisions behind switching a display's HDR state and its console mode,
//! and the errors those switches report.
use vstd::prelude::*;
use vstd::string::*;
use crate::text::{decimal, decimal_text, upper_contains, upper_occurs_at, upper_case, upper_case_contains, chars_of};
use crate::wide::{decode_lossy, until_nul, units_until_nul, decode_utf16_lossy};

verus! {

/// Why a display change failed.
pub enum DisplayError {
    /// The sizes of the display configuration could not be read.
    QueryFailed,
    /// The display configuration could not be read; the system returned this code.
    ReadFailed(u32),
    /// A display refused the new HDR state.
    HdrChangeFailed,
    /// The monitor refused the console-mode value.
    ConsoleWriteFailed,
    /// The value was written but could not be read back.
    ReadBackFailed,
    /// The monitor reported another value than the one written.
    ConsoleRejected { desired: u32, read_back: u32 },
    /// No suitable monitor answered.
    MonitorNotFound,
    /// A system call failed with this message.
    System(String),
}

/// The text that describes a display error.
pub open spec fn error_text(e: DisplayError) -> Seq<char> {
    match e {
        DisplayError::QueryFailed => "could not query display configuration"@,
        DisplayError::ReadFailed(code) => "could not read display configuration ("@ + decimal(
            code as nat,
        ) + ")"@,
        DisplayError::HdrChangeFailed => "could not change HDR state"@,
        DisplayError::ConsoleWriteFailed => "could not set AW2725D Console Mode"@,
        DisplayError::ReadBackFailed => "VCP F4 write succeeded, but read-back failed"@,
        DisplayError::ConsoleRejected { desired, read_back } => "AW2725D rejected Console Mode value "@
            + decimal(desired as nat) + " (read back "@ + decimal(read_back as nat) + ")"@,
        DisplayError::MonitorNotFound => "AW2725D was not found through DDC/CI"@,
        DisplayError::System(msg) => msg@,
    }
}

impl DisplayError {
    /// The text that describes this error.
    pub fn message(&self) -> (r: String)
        ensures
            r@ == error_text(*self),
    {
        match self {
            DisplayError::QueryFailed => String::from_str("could not query display configuration"),
            DisplayError::ReadFailed(code) => {
                let mut s = String::from_str("could not read display configuration (");
                let d = decimal_text(*code);
                s.append(d.as_str());
                s.append(")");
                s
            },
            DisplayError::HdrChangeFailed => String::from_str("could not change HDR state"),
            DisplayError::ConsoleWriteFailed => String::from_str("could not set AW2725D Console Mode"),
            DisplayError::ReadBackFailed => String::from_str(
                "VCP F4 write succeeded, but read-back failed",
            ),
            DisplayError::ConsoleRejected { desired, read_back } => {
                let mut s = String::from_str("AW2725D rejected Console Mode value ");
                let d = decimal_text(*desired);
                s.append(d.as_str());
                s.append(" (read back ");
                let b = decimal_text(*read_back);
                s.append(b.as_str());
                s.append(")");
                s
            },
            DisplayError::MonitorNotFound => String::from_str("AW2725D was not found through DDC/CI"),
            DisplayError::System(msg) => msg.clone(),
        }
    }
}

/// The console-mode value that turns console mode on.
pub const CONSOLE_MODE_ON: u32 = 113;

/// The console-mode value that turns console mode off.
pub const CONSOLE_MODE_OFF: u32 = 112;

/// The monitor control code of console mode.
pub const CONSOLE_MODE_CODE: u8 = 0xF4;

/// How many times the console-mode value is written before giving up on reading it back.
pub const CONSOLE_ATTEMPTS: u32 = 3;

/// The pause after a write before the value is read back, and between attempts.
pub const CONSOLE_PAUSE_MS: u64 = 150;

/// The console-mode value to write.
pub open spec fn console_value(enabled: bool) -> u32 {
    if enabled {
        CONSOLE_MODE_ON
    } else {
        CONSOLE_MODE_OFF
    }
}

/// Console mode is switched on with the value 113 and off with 112, and the
/// two values differ.
pub proof fn law_console_values(enabled: bool)
    ensures
        enabled ==> console_value(enabled) == 113,
        !enabled ==> console_value(enabled) == 112,
        console_value(true) != console_value(false),
{
}

/// The console-mode value to write: on or off.
pub fn console_mode_value(enabled: bool) -> (r: u32)
    ensures
        r == console_value(enabled),
{
    if enabled {
        CONSOLE_MODE_ON
    } else {
        CONSOLE_MODE_OFF
    }
}

/// Chooses the display monitor whose console mode is switched: the primary
/// monitor when it is among `monitors`, otherwise the first one.
pub fn choose_monitor(monitors: &[usize], primary: Option<usize>) -> (r: Option<usize>)
    ensures
        (primary matches Some(p) && monitors@.contains(p)) ==> r == primary,
        !(primary matches Some(p) && monitors@.contains(p)) ==> r == (if monitors.len() > 0 {
            Some(monitors@[0])
        } else {
            None
        }),
{
    if let Some(p) = primary {
        let mut i: usize = 0;
        while i < monitors.len()
            invariant
                i <= monitors.len(),
                primary == Some(p),
                forall|k: int| 0 <= k < i ==> monitors@[k] != p,
            decreases monitors.len() - i,
        {
            if monitors[i] == p {
                assert(monitors@.contains(p));
                return Some(p);
            }
            i = i + 1;
        }
    }
    if monitors.len() > 0 {
        Some(monitors[0])
    } else {
        None
    }
}

/// What was read from one physical monitor behind a display monitor.
pub struct PhysicalMonitor {
    /// Its description, in UTF-16, up to a zero unit.
    pub description: Vec<u16>,
}

/// The model name that the description of a supported monitor contains.
pub open spec fn model_name() -> Seq<char> {
    seq!['A', 'W', '2', '7', '2', '5', 'D']
}

/// The text of a monitor description.
pub open spec fn description_text(units: Seq<u16>) -> Seq<char> {
    decode_lossy(until_nul(units))
}

/// Whether the monitor's description, upper-cased, names the supported model.
pub open spec fn is_supported_model(m: PhysicalMonitor) -> bool {
    upper_contains(description_text(m.description@), model_name())
}

/// The text of a monitor description, up to its first zero unit.
pub fn monitor_description(units: &[u16]) -> (r: String)
    ensures
        r@ == description_text(units@),
{
    let u = units_until_nul(units);
    decode_utf16_lossy(u.as_slice())
}

/// Whether the monitor's description names the supported model.
pub fn names_supported_model(m: &PhysicalMonitor) -> (r: bool)
    ensures
        r == is_supported_model(*m),
{
    let text = monitor_description(m.description.as_slice());
    let hay = chars_of(text.as_str());
    let needle: Vec<char> = vec!['A', 'W', '2', '7', '2', '5', 'D'];
    assert(needle@ =~= model_name());
    upper_case_contains(hay.as_slice(), needle.as_slice())
}

/// Whether the text, upper-cased in ASCII, spells `AW2725D` from position `at`.
pub open spec fn spells_aw2725d_at(t: Seq<char>, at: int) -> bool {
    &&& 0 <= at
    &&& at + 7 <= t.len()
    &&& upper_case(t[at]) == 'A' as int
    &&& upper_case(t[at + 1]) == 'W' as int
    &&& upper_case(t[at + 2]) == '2' as int
    &&& upper_case(t[at + 3]) == '7' as int
    &&& upper_case(t[at + 4]) == '2' as int
    &&& upper_case(t[at + 5]) == '5' as int
    &&& upper_case(t[at + 6]) == 'D' as int
}

/// A monitor counts as the supported model exactly when its description,
/// upper-cased in ASCII, holds the seven characters `AW2725D` in a row.
pub proof fn law_supported_model_names_aw2725d(m: PhysicalMonitor)
    ensures
        is_supported_model(m) <==> exists|at: int|
            #[trigger] spells_aw2725d_at(description_text(m.description@), at),
{
    let t = description_text(m.description@);
    let n = seq!['A', 'W', '2', '7', '2', '5', 'D'];
    assert(model_name() == n);
    if is_supported_model(m) {
        let at = choose|at: int| upper_occurs_at(t, n, at);
        assert(upper_case(t[at + 0]) == n[0] as int);
        assert(upper_case(t[at + 1]) == n[1] as int);
        assert(upper_case(t[at + 2]) == n[2] as int);
        assert(upper_case(t[at + 3]) == n[3] as int);
        assert(upper_case(t[at + 4]) == n[4] as int);
        assert(upper_case(t[at + 5]) == n[5] as int);
        assert(upper_case(t[at + 6]) == n[6] as int);
        assert(t[at + 0] == t[at]);
        assert(spells_aw2725d_at(t, at));
    }
    if exists|at: int| #[trigger] spells_aw2725d_at(t, at) {
        let at = choose|at: int| #[trigger] spells_aw2725d_at(t, at);
        assert forall|j: int| 0 <= j < n.len() implies #[trigger] upper_case(t[at + j]) == n[j] as int by {
            if j == 0 {
                assert(t[at + j] == t[at]);
            }
        }
        assert(upper_occurs_at(t, n, at));
    }
}

/// The physical monitor chosen for the console-mode command has a
/// description that spells `AW2725D`, and no earlier one does; when none is
/// chosen, no description does.
pub proof fn law_chosen_monitor_is_aw2725d(monitors: Seq<PhysicalMonitor>, chosen: Option<usize>)
    requires
        chosen matches Some(i) ==> i < monitors.len() && is_supported_model(monitors[i as int])
            && forall|j: int| 0 <= j < i ==> !is_supported_model(#[trigger] monitors[j]),
        chosen is None ==> forall|j: int| 0 <= j < monitors.len() ==> !is_supported_model(#[trigger] monitors[j]),
    ensures
        chosen matches Some(i) ==> exists|at: int|
            #[trigger] spells_aw2725d_at(description_text(monitors[i as int].description@), at),
        forall|j: int, at: int|
            0 <= j < monitors.len() && (chosen is None || j < chosen->0) ==> !#[trigger] spells_aw2725d_at(
                description_text(monitors[j].description@),
                at,
            ),
{
    if chosen is Some {
        law_supported_model_names_aw2725d(monitors[chosen->0 as int]);
    }
    assert forall|j: int, at: int|
        0 <= j < monitors.len() && (chosen is None || j < chosen->0) implies !#[trigger] spells_aw2725d_at(
            description_text(monitors[j].description@),
            at,
        ) by {
        law_supported_model_names_aw2725d(monitors[j]);
        assert(!is_supported_model(monitors[j]));
    }
}

/// Chooses the physical monitor to switch: the first whose description names
/// the supported model, or none, so that the manufacturer-specific command
/// only ever goes to that model.
pub fn select_physical_monitor(monitors: &[PhysicalMonitor]) -> (r: Option<usize>)
    ensures
        r matches Some(i) ==> i < monitors.len() && is_supported_model(monitors@[i as int]) && forall|
            j: int,
        | 0 <= j < i ==> !is_supported_model(#[trigger] monitors@[j]),
        r is None ==> forall|j: int|
            0 <= j < monitors.len() ==> !is_supported_model(#[trigger] monitors@[j]),
        r matches Some(i) ==> exists|at: int|
            #[trigger] spells_aw2725d_at(description_text(monitors@[i as int].description@), at),
        r is None ==> forall|j: int, at: int|
            0 <= j < monitors.len() ==> !#[trigger] spells_aw2725d_at(
                description_text(monitors@[j].description@),
                at,
            ),
{
    let mut i: usize = 0;
    while i < monitors.len()
        invariant
            i <= monitors.len(),
            forall|j: int| 0 <= j < i ==> !is_supported_model(#[trigger] monitors@[j]),
        decreases monitors.len() - i,
    {
        if names_supported_model(&monitors[i]) {
            proof {
                law_chosen_monitor_is_aw2725d(monitors@, Some(i));
            }
            return Some(i);
        }
        i = i + 1;
    }
    proof {
        law_chosen_monitor_is_aw2725d(monitors@, None);
    }
    None
}

/// What happened in one attempt at writing the console-mode value.
pub enum ConsoleEvent {
    /// The monitor refused the write.
    WriteRefused,
    /// The write went through but the value could not be read back.
    ReadBackFailed,
    /// The write went through and this value was read back.
    ReadBack(u32),
}

/// What to do after an attempt at writing the console-mode value.
pub enum ConsoleAction {
    /// Pause, then write again.
    RetryAfterPause,
    /// Stop with this outcome.
    Finish(Result<(), DisplayError>),
}

/// The decision after attempt number `attempt` (from zero) at writing
/// `desired`: a refused write fails at once; a value read back ends the
/// attempts, successfully exactly when it is `desired`; a failed read is
/// retried until the last attempt.
pub open spec fn console_step(desired: u32, attempt: u32, event: ConsoleEvent) -> ConsoleAction {
    match event {
        ConsoleEvent::WriteRefused => ConsoleAction::Finish(Err(DisplayError::ConsoleWriteFailed)),
        ConsoleEvent::ReadBackFailed => if attempt + 1 < CONSOLE_ATTEMPTS {
            ConsoleAction::RetryAfterPause
        } else {
            ConsoleAction::Finish(Err(DisplayError::ReadBackFailed))
        },
        ConsoleEvent::ReadBack(v) => if v == desired {
            ConsoleAction::Finish(Ok(()))
        } else {
            ConsoleAction::Finish(Err(DisplayError::ConsoleRejected { desired, read_back: v }))
        },
    }
}

/// Decides what follows attempt number `attempt` at writing `desired`.
pub fn console_write_step(desired: u32, attempt: u32, event: ConsoleEvent) -> (r: ConsoleAction)
    ensures
        r == console_step(desired, attempt, event),
{
    match event {
        ConsoleEvent::WriteRefused => ConsoleAction::Finish(Err(DisplayError::ConsoleWriteFailed)),
        ConsoleEvent::ReadBackFailed => if attempt < CONSOLE_ATTEMPTS - 1 {
            ConsoleAction::RetryAfterPause
        } else {
            ConsoleAction::Finish(Err(DisplayError::ReadBackFailed))
        },
        ConsoleEvent::ReadBack(v) => if v == desired {
            ConsoleAction::Finish(Ok(()))
        } else {
            ConsoleAction::Finish(Err(DisplayError::ConsoleRejected { desired, read_back: v }))
        },
    }
}

/// The last attempt at writing console mode never asks for another one, so
/// the value is written at most `CONSOLE_ATTEMPTS` times.
pub proof fn law_console_attempts_end(desired: u32, event: ConsoleEvent)
    ensures
        console_step(desired, (CONSOLE_ATTEMPTS - 1) as u32, event) is Finish,
{
}

/// Console mode is reported switched exactly when the value read back is the one written.
pub proof fn law_console_success_is_read_back(desired: u32, attempt: u32, event: ConsoleEvent)
    ensures
        console_step(desired, attempt, event) == ConsoleAction::Finish(Ok(())) <==> event
            == ConsoleEvent::ReadBack(desired),
{
}

/// A value read back that differs from the one written ends the attempts at
/// once, at any attempt, with a rejection that names both values; a refused
/// write ends them at once too.
pub proof fn law_console_wrong_value_is_rejected(desired: u32, attempt: u32, read_back: u32)
    requires
        read_back != desired,
    ensures
        console_step(desired, attempt, ConsoleEvent::ReadBack(read_back)) == ConsoleAction::Finish(
            Err(DisplayError::ConsoleRejected { desired: desired, read_back: read_back }),
        ),
        console_step(desired, attempt, ConsoleEvent::WriteRefused) == ConsoleAction::Finish(
            Err(DisplayError::ConsoleWriteFailed),
        ),
{
}

/// Only a failed read-back asks for another write, and only before the third
/// attempt: attempts 0 and 1 retry, later ones give up.
pub proof fn law_console_retry_only_after_failed_read(desired: u32, attempt: u32, event: ConsoleEvent)
    ensures
        console_step(desired, attempt, event) is RetryAfterPause <==> (event is ReadBackFailed
            && attempt < 2),
        (event is ReadBackFailed && attempt >= 2) ==> console_step(desired, attempt, event)
            == ConsoleAction::Finish(Err(DisplayError::ReadBackFailed)),
{
}

/// Whether a display that answered the color query with `status` and
/// `color_info` supports HDR: the query succeeded and the lowest bit is set.
pub open spec fn supports_hdr(status: i32, color_info: u32) -> bool {
    status == 0 && color_info % 2 == 1
}

/// The HDR state to send to one display path: nothing when the display does
/// not support HDR, otherwise 1 to enable and 0 to disable.
pub fn hdr_request(enabled: bool, status: i32, color_info: u32) -> (r: Option<u32>)
    ensures
        r is Some <==> (status == 0 && color_info & 1 == 1),
        r matches Some(v) ==> (v == 1 <==> enabled) && (v == 0 <==> !enabled),
        !supports_hdr(status, color_info) ==> r is None,
        supports_hdr(status, color_info) ==> r == Some(if enabled { 1u32 } else { 0u32 }),
{
    if status != 0 {
        return None;
    }
    assert((color_info & 1 == 0) == (color_info % 2 == 0)) by (bit_vector);
    assert((color_info & 1 == 1) == (color_info % 2 == 1)) by (bit_vector);
    if (color_info & 1) == 0 {
        return None;
    }
    Some(if enabled { 1 } else { 0 })
}

/// A display supports HDR exactly when its color query succeeded and the
/// lowest bit of its color information is set; a display whose color
/// information is even never gets an HDR state.
pub proof fn law_hdr_needs_lowest_bit(status: i32, color_info: u32)
    ensures
        supports_hdr(status, color_info) <==> (status == 0 && color_info & 1 == 1),
        color_info % 2 == 0 ==> !supports_hdr(status, color_info),
        status != 0 ==> !supports_hdr(status, color_info),
{
    assert((color_info & 1 == 1) == (color_info % 2 == 1)) by (bit_vector);
}

/// One of the two display settings that a mode change switches.
pub enum DisplaySwitch {
    Hdr,
    ConsoleMode,
}

/// How a mode change is carried out: the two settings in order, the pause
/// between them, and whether the second is still switched when the first
/// failed.
pub struct ModePlan {
    pub first: DisplaySwitch,
    pub pause_ms: u64,
    pub second: DisplaySwitch,
    pub second_despite_failure: bool,
}

/// Switching on enables HDR first and console mode 350 ms later, and leaves
/// console mode alone when HDR could not be enabled; switching off disables
/// console mode first and HDR 100 ms later, whether or not console mode could
/// be switched off, so HDR is switched off on any hardware.
pub open spec fn plan_for(on: bool) -> ModePlan {
    if on {
        ModePlan {
            first: DisplaySwitch::Hdr,
            pause_ms: 350,
            second: DisplaySwitch::ConsoleMode,
            second_despite_failure: false,
        }
    } else {
        ModePlan {
            first: DisplaySwitch::ConsoleMode,
            pause_ms: 100,
            second: DisplaySwitch::Hdr,
            second_despite_failure: true,
        }
    }
}

/// How a mode change is carried out.
pub fn mode_plan(on: bool) -> (r: ModePlan)
    ensures
        r == plan_for(on),
{
    if on {
        ModePlan {
            first: DisplaySwitch::Hdr,
            pause_ms: 350,
            second: DisplaySwitch::ConsoleMode,
            second_despite_failure: false,
        }
    } else {
        ModePlan {
            first: DisplaySwitch::ConsoleMode,
            pause_ms: 100,
            second: DisplaySwitch::Hdr,
            second_despite_failure: true,
        }
    }
}

/// Whether the second setting is switched after the first gave `first`.
pub open spec fn second_follows(plan: ModePlan, first: Result<(), DisplayError>) -> bool {
    first is Ok || plan.second_despite_failure
}

/// Whether the second setting is switched (after the pause) once the first gave `first`.
pub fn second_switch_follows(plan: &ModePlan, first: &Result<(), DisplayError>) -> (r: bool)
    ensures
        r == second_follows(*plan, *first),
{
    match first {
        Ok(()) => true,
        Err(_) => plan.second_despite_failure,
    }
}

/// The outcome of a mode change: the failure of the first setting if it
/// failed, otherwise that of the second when it was switched.
pub open spec fn mode_outcome(first: Result<(), DisplayError>, second: Option<Result<(), DisplayError>>) -> Result<(), DisplayError> {
    match first {
        Err(e) => Err(e),
        Ok(()) => match second {
            Some(r) => r,
            None => Ok(()),
        },
    }
}

/// The outcome of a mode change from the outcomes of its switches.
pub fn mode_change_outcome(
    first: Result<(), DisplayError>,
    second: Option<Result<(), DisplayError>>,
) -> (r: Result<(), DisplayError>)
    ensures
        r == mode_outcome(first, second),
{
    match first {
        Err(e) => Err(e),
        Ok(()) => match second {
            Some(r) => r,
            None => Ok(()),
        },
    }
}

/// A mode change succeeds exactly when every switch that was made succeeded;
/// when the first switch succeeded and the second was made, the outcome is
/// the second's, and a failed first switch is what is reported.
pub proof fn law_mode_outcome_reports_failures(
    first: Result<(), DisplayError>,
    second: Option<Result<(), DisplayError>>,
)
    ensures
        mode_outcome(first, second) is Ok <==> (first is Ok && (second is None || second->0 is Ok)),
        first is Err ==> mode_outcome(first, second) == first,
        first is Ok && second is Some ==> mode_outcome(first, second) == second->0,
{
}

/// Switching off turns console mode off first and then always turns HDR off,
/// whatever came of the console step.
pub proof fn law_switching_off_always_disables_hdr(console_step: Result<(), DisplayError>)
    ensures
        plan_for(false).first == DisplaySwitch::ConsoleMode,
        plan_for(false).second == DisplaySwitch::Hdr,
        second_follows(plan_for(false), console_step),
{
}

/// Switching on touches console mode only after HDR was enabled.
pub proof fn law_switching_on_needs_hdr(hdr_step: Result<(), DisplayError>)
    ensures
        plan_for(true).first == DisplaySwitch::Hdr,
        plan_for(true).second == DisplaySwitch::ConsoleMode,
        second_follows(plan_for(true), hdr_step) <==> hdr_step is Ok,
{
}

} // verus!
