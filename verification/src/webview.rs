//! The decisions of the web view windows: what a page asks for over IPC, and
//! how the window commands move the set of windows and the visible one.
use vstd::prelude::*;
use crate::text::{chars_of, remove_pattern, starts_with, without_pattern};

verus! {

/// What a page asks for over IPC.
pub enum IpcAction {
    /// Open another window.
    NewWindow,
    /// Close the window the page is in.
    Close,
    /// Change the title to the given text.
    ChangeTitle(String),
    /// Nothing.
    Ignore,
}

/// Reads an IPC request: `new-window`, `close`, or any request starting with
/// `change-title` (whose title is the request with each `change-title:`
/// taken out); anything else is ignored.
pub fn ipc_action(req: &str) -> (r: IpcAction)
    ensures
        req@ == "new-window"@ ==> r is NewWindow,
        req@ != "new-window"@ && req@ == "close"@ ==> r is Close,
        req@ != "new-window"@ && req@ != "close"@ && "change-title"@.len() <= req@.len()
            && req@.take("change-title"@.len() as int) == "change-title"@ ==> (r matches IpcAction::ChangeTitle(t)
            && t@ == without_pattern(req@, "change-title:"@)),
        req@ != "new-window"@ && req@ != "close"@ && !("change-title"@.len() <= req@.len()
            && req@.take("change-title"@.len() as int) == "change-title"@) ==> r is Ignore,
{
    let r: String = req.to_owned();
    if r == String::from_str("new-window") {
        IpcAction::NewWindow
    } else if r == String::from_str("close") {
        IpcAction::Close
    } else if starts_with(req, "change-title") {
        IpcAction::ChangeTitle(remove_pattern(req, "change-title:"))
    } else {
        IpcAction::Ignore
    }
}

/// A command sent to the window thread: an event number, a position and a
/// size, and an address.
pub struct WindowCommand {
    pub event: i32,
    pub x: i32,
    pub y: i32,
    pub w: i32,
    pub h: i32,
    pub url: String,
}

/// What the window thread does with its windows, as plain values.
pub enum WindowActionView {
    Place { key: i32, x: i32, y: i32, width: u32, height: u32 },
    Create { key: i32, url: Seq<char> },
    Show { key: i32 },
    Hide { key: i32 },
    OpenMaximized { url: Seq<char> },
    CloseMaximized,
}

/// What the window thread does with its windows.
pub enum WindowAction {
    /// Move the window to `(x, y)` and give it the inner size
    /// `width` by `height`.
    Place { key: i32, x: i32, y: i32, width: u32, height: u32 },
    /// Create a hidden window on `url` under `key`, in place of any window
    /// already under it.
    Create { key: i32, url: String },
    /// Make the window under `key` visible.
    Show { key: i32 },
    /// Hide the window under `key`.
    Hide { key: i32 },
    /// Open a maximized, visible window on `url`, in place of any such
    /// window already open.
    OpenMaximized { url: String },
    /// Drop the maximized window.
    CloseMaximized,
}

impl View for WindowAction {
    type V = WindowActionView;

    open spec fn view(&self) -> WindowActionView {
        match self {
            WindowAction::Place { key, x, y, width, height } => WindowActionView::Place {
                key: *key,
                x: *x,
                y: *y,
                width: *width,
                height: *height,
            },
            WindowAction::Create { key, url } => WindowActionView::Create { key: *key, url: url@ },
            WindowAction::Show { key } => WindowActionView::Show { key: *key },
            WindowAction::Hide { key } => WindowActionView::Hide { key: *key },
            WindowAction::OpenMaximized { url } => WindowActionView::OpenMaximized { url: url@ },
            WindowAction::CloseMaximized => WindowActionView::CloseMaximized,
        }
    }
}

/// The views of a list of actions.
pub open spec fn actions_view(v: Seq<WindowAction>) -> Seq<WindowActionView> {
    v.map_values(|a: WindowAction| a@)
}

/// The window thread's state, as plain values: the key of the visible
/// window (`-1` for none), the margins taken off placed windows, the keys of
/// the windows, and whether a maximized window is open.
pub struct WindowStateView {
    pub visible: i32,
    pub left: i32,
    pub top: i32,
    pub right: i32,
    pub bottom: i32,
    pub keys: Set<i32>,
    pub maximized: bool,
}

/// Whether the visible window, when there is one, is one of the windows.
pub open spec fn consistent(s: WindowStateView) -> bool {
    s.visible != -1 ==> s.keys.contains(s.visible)
}

/// Whether the arithmetic of placing the visible window stays within `i32`.
pub open spec fn command_fits(s: WindowStateView, c: WindowCommand) -> bool {
    c.event == 0 && s.visible != -1 ==> {
        &&& i32::MIN <= c.x + s.left <= i32::MAX
        &&& i32::MIN <= c.y + s.top <= i32::MAX
        &&& i32::MIN <= c.w - s.left <= i32::MAX
        &&& i32::MIN <= c.w - s.left - s.right <= i32::MAX
        &&& i32::MIN <= c.h - s.top <= i32::MAX
        &&& i32::MIN <= c.h - s.top - s.bottom <= i32::MAX
    }
}

/// The state after a command.
pub open spec fn next_window_state(s: WindowStateView, c: WindowCommand) -> WindowStateView {
    if c.event == 1 {
        WindowStateView { keys: s.keys.insert(c.x), ..s }
    } else if c.event == 2 {
        if s.keys.contains(c.x) {
            WindowStateView { visible: c.x, ..s }
        } else {
            s
        }
    } else if c.event == 3 {
        WindowStateView { visible: -1i32, ..s }
    } else if c.event == 4 {
        if c.url@.len() != 0 {
            WindowStateView { maximized: true, ..s }
        } else {
            s
        }
    } else if c.event == 7 {
        WindowStateView { left: c.x, top: c.y, right: c.w, bottom: c.h, ..s }
    } else {
        s
    }
}

/// What a command makes the window thread do.
pub open spec fn command_actions(s: WindowStateView, c: WindowCommand) -> Seq<WindowActionView> {
    let shown = s.visible != -1;
    if c.event == 0 {
        if shown {
            seq![WindowActionView::Place {
                key: s.visible,
                x: (c.x + s.left) as i32,
                y: (c.y + s.top) as i32,
                width: (c.w - s.left - s.right) as u32,
                height: (c.h - s.top - s.bottom) as u32,
            }]
        } else {
            Seq::empty()
        }
    } else if c.event == 1 {
        seq![WindowActionView::Create { key: c.x, url: c.url@ }]
    } else if c.event == 2 {
        let hiding: Seq<WindowActionView> = if shown {
            seq![WindowActionView::Hide { key: s.visible }]
        } else {
            Seq::empty()
        };
        if s.keys.contains(c.x) {
            hiding.push(WindowActionView::Show { key: c.x })
        } else {
            hiding
        }
    } else if c.event == 3 || c.event == 6 {
        if shown {
            seq![WindowActionView::Hide { key: s.visible }]
        } else {
            Seq::empty()
        }
    } else if c.event == 4 {
        if c.url@.len() != 0 {
            seq![WindowActionView::OpenMaximized { url: c.url@ }]
        } else {
            Seq::empty()
        }
    } else if c.event == 5 {
        if shown {
            seq![WindowActionView::Show { key: s.visible }]
        } else {
            Seq::empty()
        }
    } else {
        Seq::empty()
    }
}

/// The window thread's state.
pub struct WindowState {
    visible: i32,
    left: i32,
    top: i32,
    right: i32,
    bottom: i32,
    keys: Vec<i32>,
    maximized: bool,
}

impl View for WindowState {
    type V = WindowStateView;

    closed spec fn view(&self) -> WindowStateView {
        WindowStateView {
            visible: self.visible,
            left: self.left,
            top: self.top,
            right: self.right,
            bottom: self.bottom,
            keys: self.keys@.to_set(),
            maximized: self.maximized,
        }
    }
}

impl WindowState {
    /// The visible window, when there is one, is one of the windows.
    pub open spec fn wf(self) -> bool {
        consistent(self@)
    }

    /// No window open, none visible, no margins.
    pub fn new() -> (s: Self)
        ensures
            s.wf(),
            s@ == (WindowStateView {
                visible: -1i32,
                left: 0,
                top: 0,
                right: 0,
                bottom: 0,
                keys: Set::empty(),
                maximized: false,
            }),
    {
        let s = WindowState {
            visible: -1,
            left: 0,
            top: 0,
            right: 0,
            bottom: 0,
            keys: Vec::new(),
            maximized: false,
        };
        assert(s.keys@.to_set() =~= Set::<i32>::empty());
        s
    }

    /// Whether a window is open under `key`.
    fn has_key(&self, key: i32) -> (r: bool)
        ensures
            r == self@.keys.contains(key),
    {
        let mut i: usize = 0;
        while i < self.keys.len()
            invariant
                i <= self.keys.len(),
                forall|j: int| 0 <= j < i ==> self.keys@[j] != key,
            decreases self.keys.len() - i,
        {
            if self.keys[i] == key {
                assert(self.keys@.contains(key));
                return true;
            }
            i = i + 1;
        }
        false
    }

    /// Whether placing the visible window for this command stays within
    /// `i32`, which `handle_command` needs.
    pub fn fits(&self, c: &WindowCommand) -> (r: bool)
        ensures
            r == command_fits(self@, *c),
    {
        if c.event != 0 || self.visible == -1 {
            return true;
        }
        let lo: i64 = i32::MIN as i64;
        let hi: i64 = i32::MAX as i64;
        let x: i64 = c.x as i64 + self.left as i64;
        let y: i64 = c.y as i64 + self.top as i64;
        let w1: i64 = c.w as i64 - self.left as i64;
        let w2: i64 = w1 - self.right as i64;
        let h1: i64 = c.h as i64 - self.top as i64;
        let h2: i64 = h1 - self.bottom as i64;
        lo <= x && x <= hi && lo <= y && y <= hi && lo <= w1 && w1 <= hi && lo <= w2 && w2 <= hi
            && lo <= h1 && h1 <= hi && lo <= h2 && h2 <= hi
    }

    /// Applies a command from the page host, and says what to do with the
    /// windows.
    pub fn handle_command(&mut self, c: &WindowCommand) -> (actions: Vec<WindowAction>)
        requires
            old(self).wf(),
            command_fits(old(self)@, *c),
        ensures
            final(self).wf(),
            final(self)@ == next_window_state(old(self)@, *c),
            actions_view(actions@) == command_actions(old(self)@, *c),
            final(self)@.visible != -1 ==> final(self)@.keys.contains(final(self)@.visible),
    {
        let mut actions: Vec<WindowAction> = Vec::new();
        if c.event == 0 {
            if self.visible != -1 {
                let width: i32 = c.w - self.left - self.right;
                let height: i32 = c.h - self.top - self.bottom;
                actions.push(WindowAction::Place {
                    key: self.visible,
                    x: c.x + self.left,
                    y: c.y + self.top,
                    width: #[verifier::truncate] (width as u32),
                    height: #[verifier::truncate] (height as u32),
                });
            }
        } else if c.event == 1 {
            let ghost before = self.keys@;
            if !self.has_key(c.x) {
                self.keys.push(c.x);
                assert(self.keys@ == before.push(c.x));
                assert forall|k: i32| #[trigger] before.contains(k) implies self.keys@.contains(k) by {
                    let j: int = choose|j: int| 0 <= j < before.len() && before[j] == k;
                    assert(self.keys@[j] == k);
                }
                assert(self.keys@[before.len() as int] == c.x);
            }
            actions.push(WindowAction::Create { key: c.x, url: c.url.clone() });
            assert forall|k: i32| #[trigger] self.keys@.contains(k) implies before.contains(k) || k == c.x by {
                let j: int = choose|j: int| 0 <= j < self.keys@.len() && self.keys@[j] == k;
                if j < before.len() {
                    assert(before[j] == k);
                }
            }
            assert(self.keys@.contains(c.x));
            assert(self.keys@.to_set() =~= old(self)@.keys.insert(c.x));
        } else if c.event == 2 {
            if self.visible != -1 {
                actions.push(WindowAction::Hide { key: self.visible });
            }
            if self.has_key(c.x) {
                self.visible = c.x;
                actions.push(WindowAction::Show { key: c.x });
            }
        } else if c.event == 3 {
            if self.visible != -1 {
                actions.push(WindowAction::Hide { key: self.visible });
                self.visible = -1;
            }
        } else if c.event == 4 {
            if !c.url.as_str().is_empty() {
                actions.push(WindowAction::OpenMaximized { url: c.url.clone() });
                self.maximized = true;
            }
        } else if c.event == 5 {
            if self.visible != -1 {
                actions.push(WindowAction::Show { key: self.visible });
            }
        } else if c.event == 6 {
            if self.visible != -1 {
                actions.push(WindowAction::Hide { key: self.visible });
            }
        } else if c.event == 7 {
            self.left = c.x;
            self.top = c.y;
            self.right = c.w;
            self.bottom = c.h;
        }
        assert(actions_view(actions@) =~= command_actions(old(self)@, *c));
        actions
    }

    /// Handles the Escape key: the maximized window, if any, is dropped.
    pub fn handle_escape(&mut self) -> (action: Option<WindowAction>)
        requires
            old(self).wf(),
        ensures
            final(self).wf(),
            final(self)@ == (WindowStateView { maximized: false, ..old(self)@ }),
            old(self)@.maximized ==> action == Some(WindowAction::CloseMaximized),
            !old(self)@.maximized ==> action is None,
    {
        if self.maximized {
            self.maximized = false;
            Some(WindowAction::CloseMaximized)
        } else {
            None
        }
    }
}


/// Commands keep the visible window among the windows: if it was one of them
/// before a command, it is one of them after it.
pub proof fn law_visible_window_exists(s: WindowStateView, c: WindowCommand)
    requires
        s.visible != -1 ==> s.keys.contains(s.visible),
    ensures
        next_window_state(s, c).visible != -1 ==> next_window_state(s, c).keys.contains(
            next_window_state(s, c).visible,
        ),
{
}

/// Hiding all (event 3) leaves no window visible; showing a known window
/// (event 2) makes it the visible one after hiding the previous one;
/// showing an unknown window changes nothing but hides the visible one.
pub proof fn law_show_and_hide(s: WindowStateView, c: WindowCommand)
    ensures
        c.event == 3 ==> next_window_state(s, c).visible == -1,
        c.event == 2 && s.keys.contains(c.x) ==> next_window_state(s, c).visible == c.x,
        c.event == 2 && !s.keys.contains(c.x) ==> next_window_state(s, c) == s,
        c.event == 2 && s.visible != -1 ==> command_actions(s, c)[0] == (WindowActionView::Hide {
            key: s.visible,
        }),
{
}

/// Once the margins are set (event 7), placing the visible window (event 0)
/// offsets it by the left and top margins and shrinks it by both margins.
pub proof fn law_place_uses_margins(s: WindowStateView, m: WindowCommand, c: WindowCommand)
    requires
        m.event == 7,
        c.event == 0,
        s.visible != -1,
    ensures
        command_actions(next_window_state(s, m), c) == seq![WindowActionView::Place {
            key: s.visible,
            x: (c.x + m.x) as i32,
            y: (c.y + m.y) as i32,
            width: (c.w - m.x - m.w) as u32,
            height: (c.h - m.y - m.h) as u32,
        }],
{
}

/// The state after a run of commands.
pub open spec fn after_commands(s: WindowStateView, cmds: Seq<WindowCommand>) -> WindowStateView
    decreases cmds.len(),
{
    if cmds.len() == 0 {
        s
    } else {
        next_window_state(after_commands(s, cmds.drop_last()), cmds.last())
    }
}

/// Over any run of commands, windows are never removed, and the visible
/// window stays one of the windows; so each command that shows, hides or
/// places the visible window finds it.
pub proof fn law_windows_stay_consistent(s: WindowStateView, cmds: Seq<WindowCommand>)
    requires
        consistent(s),
    ensures
        consistent(after_commands(s, cmds)),
        s.keys.subset_of(after_commands(s, cmds).keys),
    decreases cmds.len(),
{
    if cmds.len() > 0 {
        law_windows_stay_consistent(s, cmds.drop_last());
        let before = after_commands(s, cmds.drop_last());
        law_visible_window_exists(before, cmds.last());
        assert(before.keys.subset_of(after_commands(s, cmds).keys));
    }
}


/// What each command does, event by event, in terms of the state before it:
/// switching (event 2) to a known window hides the visible one, if any, and
/// always ends by showing the new one; hiding all (3) hides the visible one
/// and forgets it; showing (5) and hiding (6) the visible one leave the state
/// as it is; creating (1) adds the key and only creates; a maximized window
/// (4) needs an address; margins (7) are only recorded; other events do
/// nothing.
pub proof fn law_command_effects(s: WindowStateView, c: WindowCommand)
    ensures
        c.event == 2 && s.keys.contains(c.x) ==> {
            &&& command_actions(s, c).last() == (WindowActionView::Show { key: c.x })
            &&& command_actions(s, c) == if s.visible != -1 {
                seq![WindowActionView::Hide { key: s.visible }, WindowActionView::Show { key: c.x }]
            } else {
                seq![WindowActionView::Show { key: c.x }]
            }
            &&& next_window_state(s, c).visible == c.x
        },
        c.event == 2 && !s.keys.contains(c.x) ==> command_actions(s, c) == if s.visible != -1 {
            seq![WindowActionView::Hide { key: s.visible }]
        } else {
            Seq::<WindowActionView>::empty()
        },
        c.event == 1 ==> command_actions(s, c) == seq![WindowActionView::Create { key: c.x, url: c.url@ }]
            && next_window_state(s, c).keys == s.keys.insert(c.x) && next_window_state(s, c).visible
            == s.visible,
        c.event == 3 ==> next_window_state(s, c).visible == -1 && next_window_state(s, c).keys == s.keys
            && command_actions(s, c) == if s.visible != -1 {
            seq![WindowActionView::Hide { key: s.visible }]
        } else {
            Seq::<WindowActionView>::empty()
        },
        c.event == 5 ==> next_window_state(s, c) == s && command_actions(s, c) == if s.visible != -1 {
            seq![WindowActionView::Show { key: s.visible }]
        } else {
            Seq::<WindowActionView>::empty()
        },
        c.event == 6 ==> next_window_state(s, c) == s && command_actions(s, c) == if s.visible != -1 {
            seq![WindowActionView::Hide { key: s.visible }]
        } else {
            Seq::<WindowActionView>::empty()
        },
        c.event == 4 && c.url@.len() != 0 ==> command_actions(s, c) == seq![
            WindowActionView::OpenMaximized { url: c.url@ },
        ] && next_window_state(s, c).maximized && next_window_state(s, c).keys == s.keys,
        c.event == 4 && c.url@.len() == 0 ==> command_actions(s, c).len() == 0 && next_window_state(s, c)
            == s,
        c.event == 7 ==> command_actions(s, c).len() == 0 && next_window_state(s, c).left == c.x
            && next_window_state(s, c).top == c.y && next_window_state(s, c).right == c.w
            && next_window_state(s, c).bottom == c.h && next_window_state(s, c).keys == s.keys
            && next_window_state(s, c).visible == s.visible,
        c.event == 0 ==> next_window_state(s, c) == s,
        c.event == 0 && s.visible == -1 ==> command_actions(s, c).len() == 0,
        !(0 <= c.event <= 7) ==> command_actions(s, c).len() == 0 && next_window_state(s, c) == s,
{
}

} // verus!
