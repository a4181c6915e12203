//! The decisions of the tray icon's event loop.
use vstd::prelude::*;
use vstd::arithmetic::div_mod::{lemma_fundamental_div_mod, lemma_fundamental_div_mod_converse};

verus! {

/// What the tray icon reports.
#[derive(Debug, PartialEq, Eq, Structural, Clone, Copy)]
pub enum TrayEvent {
    DoubleClickTrayIcon,
    StopService,
    StartService,
    MaxSize,
}

/// What the event loop does about a tray event.
#[derive(Debug, PartialEq, Eq, Structural, Clone, Copy)]
pub enum TrayAction {
    /// Read the state file and pass its content to `state_after_click`.
    CheckStateFile,
    /// Write `maxsize` to the state file.
    RequestMaximize,
    /// Write `exit` to the state file and end the process.
    WriteExitAndQuit,
    /// Clear the `stop-service` option.
    ClearStopService,
}

/// What one turn of the event loop does before it looks at the event.
pub struct TickOutcome {
    /// Leave the event loop: the IPC channel is closed.
    pub exit: bool,
    /// Rebuild the tray menu.
    pub rebuild_menu: bool,
    /// Start the main program.
    pub run_main: bool,
    /// Read the state file and quit if it asks for it.
    pub check_quit_file: bool,
}

/// The event loop's state as plain values: the service state the menu was
/// last built for (`0` before the first build) and the turn counter.
pub struct TrayStateView {
    pub menu_state: i32,
    pub count: i32,
}

/// The service state that the options give: `2` when `stop-service` is set
/// to a non-empty value, else `1`.
pub open spec fn service_state(stop_service: Option<Seq<char>>) -> i32 {
    match stop_service {
        Some(v) => if v.len() != 0 { 2 } else { 1 },
        None => 1,
    }
}

/// The counter after a turn in which the loop was not left.
pub open spec fn next_count(count: i32) -> int {
    let c1: int = if count == 0 { 1 } else { count as int };
    let c2: int = if c1 == 100 { 1 } else { c1 };
    c2 + 1
}

/// The state after one turn of the loop.
pub open spec fn next_tray_state(s: TrayStateView, ipc_closed: bool, stop_service: Option<Seq<char>>) -> TrayStateView {
    if ipc_closed {
        s
    } else {
        TrayStateView { menu_state: service_state(stop_service), count: next_count(s.count) as i32 }
    }
}

/// The event loop's state.
pub struct TrayState {
    menu_state: i32,
    count: i32,
}

impl View for TrayState {
    type V = TrayStateView;

    closed spec fn view(&self) -> TrayStateView {
        TrayStateView { menu_state: self.menu_state, count: self.count }
    }
}

impl TrayState {
    /// The counter stays between 0 and 100.
    pub open spec fn wf(self) -> bool {
        0 <= self@.count <= 100
    }

    /// The state before the first turn.
    pub fn new() -> (s: Self)
        ensures
            s.wf(),
            s@ == (TrayStateView { menu_state: 0, count: 0 }),
    {
        TrayState { menu_state: 0, count: 0 }
    }

    /// One turn of the event loop, given whether the IPC channel is closed
    /// and the value of the `stop-service` option.
    pub fn tick(&mut self, ipc_closed: bool, stop_service: Option<&str>) -> (r: TickOutcome)
        requires
            old(self).wf(),
        ensures
            final(self).wf(),
            !ipc_closed ==> 2 <= final(self)@.count <= 100,
            final(self)@ == next_tray_state(
                old(self)@,
                ipc_closed,
                match stop_service {
                    Some(v) => Some(v@),
                    None => None,
                },
            ),
            r.exit == ipc_closed,
            r.rebuild_menu == (!ipc_closed && service_state(
                match stop_service {
                    Some(v) => Some(v@),
                    None => None,
                },
            ) != old(self)@.menu_state),
            r.run_main == (!ipc_closed && old(self)@.count == 0),
            r.check_quit_file == (!ipc_closed && old(self)@.count == 100),
    {
        if ipc_closed {
            return TickOutcome { exit: true, rebuild_menu: false, run_main: false, check_quit_file: false };
        }
        let stopped: i32 = match stop_service {
            Some(v) => if !v.is_empty() { 2 } else { 1 },
            None => 1,
        };
        let rebuild_menu = stopped != self.menu_state;
        if rebuild_menu {
            self.menu_state = stopped;
        }
        let run_main = self.count == 0;
        if run_main {
            self.count = 1;
        }
        let check_quit_file = self.count == 100;
        if check_quit_file {
            self.count = 1;
        }
        self.count = self.count + 1;
        TickOutcome { exit: false, rebuild_menu, run_main, check_quit_file }
    }
}

/// What to do about a tray event.
pub fn event_action(e: TrayEvent) -> (r: TrayAction)
    ensures
        e == TrayEvent::MaxSize ==> r == TrayAction::CheckStateFile,
        e == TrayEvent::DoubleClickTrayIcon ==> r == TrayAction::RequestMaximize,
        e == TrayEvent::StopService ==> r == TrayAction::WriteExitAndQuit,
        e == TrayEvent::StartService ==> r == TrayAction::ClearStopService,
{
    match e {
        TrayEvent::MaxSize => TrayAction::CheckStateFile,
        TrayEvent::DoubleClickTrayIcon => TrayAction::RequestMaximize,
        TrayEvent::StopService => TrayAction::WriteExitAndQuit,
        TrayEvent::StartService => TrayAction::ClearStopService,
    }
}

/// What to write to the state file after a click, given its content: an
/// empty file gets `minsize`; any other content is left alone.
pub fn state_after_click(contents: &str) -> (r: Option<String>)
    ensures
        contents@.len() == 0 ==> r is Some && r->0@ == "minsize"@,
        contents@.len() != 0 ==> r is None,
{
    if contents.is_empty() {
        Some(String::from_str("minsize"))
    } else {
        None
    }
}

/// Whether the state file asks the tray to quit: its whole content is
/// `app_quit`.
pub fn quit_requested(contents: &str) -> (r: bool)
    ensures
        r == (contents@ == "app_quit"@),
{
    let c: String = contents.to_owned();
    c == String::from_str("app_quit")
}


/// The main program is started on the first turn only: after any turn that
/// does not leave the loop the counter is between 2 and 100, never 0 again;
/// it goes up by one each turn until 100, and the turn at 100 (the one that
/// checks the state file) brings it back to 2.
pub proof fn law_tray_counter(count: i32)
    requires
        0 <= count <= 100,
    ensures
        2 <= next_count(count) <= 100,
        2 <= count < 100 ==> next_count(count) == count + 1,
        count == 100 ==> next_count(count) == 2,
        count == 0 ==> next_count(count) == 2,
{
}

/// The menu is rebuilt at most once for a given service state: after a turn
/// that did not leave the loop, a turn with the same options does not
/// rebuild it.
pub proof fn law_menu_rebuilt_on_change(s: TrayStateView, stop_service: Option<Seq<char>>)
    ensures
        next_tray_state(s, false, stop_service).menu_state == service_state(stop_service),
        next_tray_state(next_tray_state(s, false, stop_service), false, stop_service).menu_state
            == next_tray_state(s, false, stop_service).menu_state,
{
}

/// One turn of the loop: whether the IPC channel was closed, and the value
/// of the `stop-service` option.
pub type Turn = (bool, Option<Seq<char>>);

/// The state after a run of turns.
pub open spec fn after_turns(s: TrayStateView, turns: Seq<Turn>) -> TrayStateView
    decreases turns.len(),
{
    if turns.len() == 0 {
        s
    } else {
        next_tray_state(after_turns(s, turns.drop_last()), turns.last().0, turns.last().1)
    }
}

/// The number of turns in which the IPC channel was open.
pub open spec fn handled_turns(turns: Seq<Turn>) -> nat
    decreases turns.len(),
{
    if turns.len() == 0 {
        0
    } else {
        handled_turns(turns.drop_last()) + if turns.last().0 { 0nat } else { 1nat }
    }
}

/// The counter after `m` handled turns.
pub open spec fn handled_count(m: nat) -> int {
    if m == 0 {
        0
    } else {
        2 + (m - 1) % 99
    }
}

proof fn lemma_handled_count_step(m: nat)
    ensures
        next_count(handled_count(m) as i32) == handled_count(m + 1),
        0 <= handled_count(m) <= 100,
{
    if m > 0 {
        let k: int = (m - 1) / 99;
        let r: int = (m - 1) % 99;
        lemma_fundamental_div_mod((m - 1) as int, 99);
        if r < 98 {
            lemma_fundamental_div_mod_converse(m as int, 99, k, r + 1);
        } else {
            lemma_fundamental_div_mod_converse(m as int, 99, k + 1, 0);
        }
    }
}

/// Over any run of turns from a new tray, the counter only depends on the
/// number `m` of handled turns: it is 0 only before the first one, so the
/// main program is started on the first handled turn and never again; and it
/// is 100, so that the next handled turn checks the state file, exactly when
/// `m` is 99, 198, 297, ...: the state file is checked on handled turns 100,
/// 199, 298, ...
pub proof fn law_tray_turns(turns: Seq<Turn>)
    ensures
        after_turns(TrayStateView { menu_state: 0, count: 0 }, turns).count == handled_count(
            handled_turns(turns),
        ),
        (after_turns(TrayStateView { menu_state: 0, count: 0 }, turns).count == 0) == (
        handled_turns(turns) == 0),
        (after_turns(TrayStateView { menu_state: 0, count: 0 }, turns).count == 100) == (
        handled_turns(turns) >= 99 && (handled_turns(turns) - 99) % 99 == 0),
    decreases turns.len(),
{
    let m: nat = handled_turns(turns);
    if turns.len() > 0 {
        law_tray_turns(turns.drop_last());
        lemma_handled_count_step(handled_turns(turns.drop_last()));
    }
    if m > 0 {
        let k: int = (m - 1) / 99;
        lemma_fundamental_div_mod((m - 1) as int, 99);
        if (m - 1) % 99 == 98 {
            lemma_fundamental_div_mod_converse((m - 99) as int, 99, k, 0);
        } else if m >= 99 {
            lemma_fundamental_div_mod((m - 99) as int, 99);
            assert((m - 99) % 99 != 0) by {
                if (m - 99) % 99 == 0 {
                    lemma_fundamental_div_mod_converse((m - 1) as int, 99, (m - 99) / 99, 98);
                }
            }
        }
    }
}


/// The service counts as stopped (state 2) exactly when `stop-service` is
/// set to a non-empty value; otherwise it runs (state 1).
pub proof fn law_service_state(stop_service: Option<Seq<char>>)
    ensures
        (service_state(stop_service) == 2) == (stop_service matches Some(v) && v.len() != 0),
        (service_state(stop_service) == 1) == !(stop_service matches Some(v) && v.len() != 0),
{
}

} // verus!
