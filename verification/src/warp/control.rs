//! The control centre of the frame generator: which window it works on, and what its
//! hotkeys do.

use vstd::prelude::*;
use vstd::string::*;

use crate::text;
use crate::text::{contains, is_empty, lower_case, same, starts_with};

verus! {

/// Least time between two looks at the windows (3 s).
pub const REFRESH_INTERVAL_NS: u64 = 3_000_000_000;

/// A window that frames can be generated for.
#[derive(Debug)]
pub struct ProcessInfo {
    pub pid: u32,
    pub name: String,
    pub window_title: String,
    pub hwnd: usize,
}

/// Is a title one of the desktop's own?
pub open spec fn is_desktop_title(title: Seq<char>) -> bool {
    title == "Program Manager"@ || title == "Default IME"@
}

/// Is a window on offer: a visible one with a process and a title of its own?
pub fn is_offered(visible: bool, pid: u32, title: &str) -> (offered: bool)
    ensures
        offered == (visible && pid != 0 && title@.len() > 0 && !is_desktop_title(title@) && title@
            != "All In Frame"@),
{
    visible && pid != 0 && !is_empty(title) && !same(title, "Program Manager") && !same(
        title,
        "Default IME",
    ) && !same(title, "All In Frame")
}

/// The name of a process, or "Unknown".
pub fn name_or_unknown(name: Option<String>) -> (s: String)
    ensures
        s@ == match name {
            Some(n) => n@,
            None => "Unknown"@,
        },
{
    match name {
        Some(n) => n,
        None => String::from_str("Unknown"),
    }
}

/// Where a text that ends in a zero ends.
pub fn text_length(units: &Vec<u16>) -> (n: usize)
    ensures
        n <= units@.len(),
        forall|i: int| 0 <= i < n ==> units@[i] != 0,
        n < units@.len() ==> units@[n as int] == 0,
{
    let mut i: usize = 0;
    while i < units.len() && units[i] != 0
        invariant
            i <= units@.len(),
            forall|j: int| 0 <= j < i ==> units@[j] != 0,
        decreases units@.len() - i,
    {
        i = i + 1;
    }
    i
}

/// A path without the marker that canonical paths start with.
pub fn plain_path(path: &str) -> (p: &str)
    ensures
        p@ == if text::stands_at(path@, "\\\\?\\"@, 0) {
            path@.skip(4)
        } else {
            path@
        },
{
    proof {
        reveal_strlit("\\\\?\\");
        assert("\\\\?\\"@.len() == 4);
    }
    if starts_with(path, "\\\\?\\") {
        let n: usize = path.unicode_len();
        proof {
            assert(path@.skip(4) =~= path@.subrange(4, n as int));
        }
        path.substring_char(4, n)
    } else {
        path
    }
}

/// Is a window shown for a search? All texts are in lower case.
pub fn is_found(query: &str, name: &str, title: &str) -> (found: bool)
    ensures
        found == (query@.len() == 0 || text::has_part(name@, query@) || text::has_part(
            title@,
            query@,
        )),
{
    is_empty(query) || contains(name, query) || contains(title, query)
}

/// Is a window shown for what the user typed?
pub fn is_listed(p: &ProcessInfo, query: &str) -> (listed: bool)
    ensures
        listed == ({
            let q = text::lower_case_of(query@);
            q.len() == 0 || text::has_part(text::lower_case_of(p.name@), q) || text::has_part(
                text::lower_case_of(p.window_title@),
                q,
            )
        }),
{
    let q = lower_case(query);
    let name = lower_case(p.name.as_str());
    let title = lower_case(p.window_title.as_str());
    is_found(q.as_str(), name.as_str(), title.as_str())
}

/// How the window is chosen.
#[derive(Debug, Clone, Copy, PartialEq, Eq, Structural)]
pub enum TargetMode {
    /// The window in front.
    AutoForeground,
    /// The window picked from the list.
    ManualSelection,
}

/// The window in front.
#[derive(Debug)]
pub struct Foreground {
    pub hwnd: usize,
    pub title: String,
}

/// What the hotkeys ask for.
#[derive(Debug, Clone, Copy, PartialEq, Eq, Structural)]
pub struct HotkeyActions {
    /// Start or stop generating frames.
    pub toggle: bool,
    /// Bring the window back.
    pub restore: bool,
}

/// The keys that are down.
#[derive(Debug, Clone, Copy, PartialEq, Eq, Structural)]
pub struct KeysDown {
    pub ctrl: bool,
    pub alt: bool,
    pub f: bool,
    pub a: bool,
    pub f11: bool,
}

/// What a request to start or stop comes to.
#[derive(Debug, Clone, Copy, PartialEq, Eq, Structural)]
pub enum Toggle {
    Stop,
    Start(usize),
    /// No window was found.
    NoTarget,
}

/// The control centre.
#[derive(Debug)]
pub struct ControlCenter {
    pub processes: Vec<ProcessInfo>,
    pub selected_pid: Option<u32>,
    pub target_mode: TargetMode,
    pub last_refresh_ns: u64,
    pub minimize_to_tray: bool,
    pub is_minimized: bool,
    pub hotkey_down: bool,
    pub restore_down: bool,
}

/// The first of the windows of a process.
pub open spec fn window_of(processes: Seq<ProcessInfo>, pid: u32) -> Option<usize>
    decreases processes.len(),
{
    if processes.len() == 0 {
        None
    } else if processes[0].pid == pid {
        Some(processes[0].hwnd)
    } else {
        window_of(processes.drop_first(), pid)
    }
}

/// Can the window in front be worked on?
pub open spec fn is_game_title(title: Seq<char>) -> bool {
    title.len() > 0 && !text::has_part(title, "All In Frame"@) && !is_desktop_title(title)
}

/// The window that frames are generated for.
pub open spec fn target_of(
    processes: Seq<ProcessInfo>,
    selected: Option<u32>,
    mode: TargetMode,
    front: Option<Foreground>,
) -> Option<usize> {
    if mode == TargetMode::AutoForeground && front is Some && is_game_title((front->0).title@) {
        Some((front->0).hwnd)
    } else {
        match selected {
            Some(pid) => window_of(processes, pid),
            None => None,
        }
    }
}

/// Are the keys to start and stop down?
pub open spec fn toggles(k: KeysDown) -> bool {
    (k.ctrl && k.alt && k.f) || k.f11
}

/// Are the keys to bring the window back down?
pub open spec fn restores(k: KeysDown) -> bool {
    k.ctrl && k.alt && k.a
}

impl ControlCenter {
    pub fn new(now_ns: u64) -> (c: ControlCenter)
        ensures
            c.processes@.len() == 0,
            c.selected_pid is None,
            c.target_mode == TargetMode::AutoForeground,
            c.last_refresh_ns == now_ns,
            c.minimize_to_tray,
            !c.is_minimized,
            !c.hotkey_down,
            !c.restore_down,
    {
        ControlCenter {
            processes: Vec::new(),
            selected_pid: None,
            target_mode: TargetMode::AutoForeground,
            last_refresh_ns: now_ns,
            minimize_to_tray: true,
            is_minimized: false,
            hotkey_down: false,
            restore_down: false,
        }
    }

    /// Is a look at the windows due?
    pub fn is_refresh_due(&self, now_ns: u64) -> (due: bool)
        ensures
            due == (now_ns - self.last_refresh_ns >= REFRESH_INTERVAL_NS),
    {
        now_ns >= self.last_refresh_ns && now_ns - self.last_refresh_ns >= REFRESH_INTERVAL_NS
    }

    /// Takes over a new list of windows. Without a pick, the first one is picked.
    pub fn refresh(&mut self, processes: Vec<ProcessInfo>, now_ns: u64)
        ensures
            *final(self) == (ControlCenter {
                processes,
                selected_pid: if old(self).selected_pid is None && processes@.len() > 0 {
                    Some(processes@[0].pid)
                } else {
                    old(self).selected_pid
                },
                last_refresh_ns: now_ns,
                ..*old(self)
            }),
    {
        if self.selected_pid.is_none() && processes.len() > 0 {
            self.selected_pid = Some(processes[0].pid);
        }
        self.processes = processes;
        self.last_refresh_ns = now_ns;
    }

    /// The window that frames are generated for: the one in front, where that is asked
    /// for and it is a game's, and else the one that was picked.
    pub fn resolve_target(&self, front: &Option<Foreground>) -> (hwnd: Option<usize>)
        ensures
            hwnd == target_of(self.processes@, self.selected_pid, self.target_mode, *front),
    {
        if self.target_mode == TargetMode::AutoForeground {
            if let Some(w) = front {
                let title = w.title.as_str();
                if !is_empty(title) && !contains(title, "All In Frame") && !same(
                    title,
                    "Program Manager",
                ) && !same(title, "Default IME") {
                    return Some(w.hwnd);
                }
            }
        }
        match self.selected_pid {
            None => None,
            Some(pid) => {
                let mut i: usize = 0;
                assert(self.processes@.skip(0) =~= self.processes@);
                while i < self.processes.len()
                    invariant
                        i <= self.processes@.len(),
                        window_of(self.processes@, pid) == window_of(
                            self.processes@.skip(i as int),
                            pid,
                        ),
                        target_of(self.processes@, self.selected_pid, self.target_mode, *front)
                            == window_of(self.processes@, pid),
                    decreases self.processes@.len() - i,
                {
                    assert(self.processes@.skip(i as int)[0] == self.processes@[i as int]);
                    if self.processes[i].pid == pid {
                        return Some(self.processes[i].hwnd);
                    }
                    assert(self.processes@.skip(i as int).drop_first() =~= self.processes@.skip(
                        i + 1,
                    ));
                    i = i + 1;
                }
                None
            },
        }
    }

    /// What a request to start or stop comes to.
    pub fn toggle(&self, running: bool, front: &Option<Foreground>) -> (t: Toggle)
        ensures
            t == if running {
                Toggle::Stop
            } else {
                match target_of(self.processes@, self.selected_pid, self.target_mode, *front) {
                    Some(hwnd) => Toggle::Start(hwnd),
                    None => Toggle::NoTarget,
                }
            },
    {
        if running {
            return Toggle::Stop;
        }
        match self.resolve_target(front) {
            Some(hwnd) => Toggle::Start(hwnd),
            None => Toggle::NoTarget,
        }
    }

    /// Takes the keys that are down. An action is due when its keys go down, not while
    /// they stay down.
    pub fn keys(&mut self, k: KeysDown) -> (a: HotkeyActions)
        ensures
            a.toggle == (toggles(k) && !old(self).hotkey_down),
            a.restore == (restores(k) && !old(self).restore_down),
            *final(self) == (ControlCenter {
                hotkey_down: toggles(k),
                restore_down: restores(k),
                is_minimized: old(self).is_minimized && !a.restore,
                ..*old(self)
            }),
    {
        let toggle_keys = (k.ctrl && k.alt && k.f) || k.f11;
        let restore_keys = k.ctrl && k.alt && k.a;
        let toggle = toggle_keys && !self.hotkey_down;
        let restore = restore_keys && !self.restore_down;
        self.hotkey_down = toggle_keys;
        self.restore_down = restore_keys;
        if restore {
            self.is_minimized = false;
        }
        HotkeyActions { toggle, restore }
    }

    /// The user closes the window. When the result is true it goes to the tray instead.
    pub fn close_requested(&mut self) -> (hide: bool)
        ensures
            hide == old(self).minimize_to_tray,
            *final(self) == (ControlCenter {
                is_minimized: old(self).is_minimized || hide,
                ..*old(self)
            }),
    {
        if self.minimize_to_tray {
            self.is_minimized = true;
        }
        self.minimize_to_tray
    }
}

/// The control centre never works on its own window: one in front falls back to the pick.
pub proof fn law_own_window_is_no_target(
    processes: Seq<ProcessInfo>,
    selected: Option<u32>,
    front: Foreground,
)
    requires
        text::has_part(front.title@, "All In Frame"@),
    ensures
        target_of(processes, selected, TargetMode::AutoForeground, Some(front)) == target_of(
            processes,
            selected,
            TargetMode::ManualSelection,
            None,
        ),
{
}

/// The window of a process is the first of its windows, and a process without one has none.
pub proof fn law_first_window_of_the_process(processes: Seq<ProcessInfo>, pid: u32)
    ensures
        window_of(processes, pid) is None <==> (forall|i: int|
            0 <= i < processes.len() ==> (#[trigger] processes[i]).pid != pid),
        window_of(processes, pid) is Some ==> exists|i: int|
            0 <= i < processes.len() && (#[trigger] processes[i]).pid == pid && processes[i].hwnd
                == window_of(processes, pid)->0 && (forall|j: int|
                0 <= j < i ==> (#[trigger] processes[j]).pid != pid),
    decreases processes.len(),
{
    if processes.len() > 0 {
        let rest = processes.drop_first();
        law_first_window_of_the_process(rest, pid);
        if processes[0].pid != pid {
            if window_of(processes, pid) is None {
                assert forall|i: int| 0 <= i < processes.len() implies (#[trigger] processes[i]).pid
                    != pid by {
                    if i > 0 {
                        assert(processes[i] == rest[i - 1]);
                    }
                }
            } else {
                let i = choose|i: int|
                    0 <= i < rest.len() && (#[trigger] rest[i]).pid == pid && rest[i].hwnd
                        == window_of(rest, pid)->0 && (forall|j: int|
                        0 <= j < i ==> (#[trigger] rest[j]).pid != pid);
                assert(processes[i + 1] == rest[i]);
                assert forall|j: int| 0 <= j < i + 1 implies (#[trigger] processes[j]).pid
                    != pid by {
                    if j > 0 {
                        assert(processes[j] == rest[j - 1]);
                    }
                }
            }
        }
    }
}

/// The window in front is the target where that is asked for and it is a game's; in any
/// other case the window of the process that was picked, if one was.
pub proof fn law_front_window_comes_first(
    processes: Seq<ProcessInfo>,
    selected: Option<u32>,
    front: Foreground,
)
    ensures
        front.title@.len() > 0 && front.title@ != "Program Manager"@ && front.title@
            != "Default IME"@ && !text::has_part(front.title@, "All In Frame"@) ==> target_of(
            processes,
            selected,
            TargetMode::AutoForeground,
            Some(front),
        ) == Some(front.hwnd),
        target_of(processes, selected, TargetMode::ManualSelection, Some(front)) == match selected {
            Some(pid) => window_of(processes, pid),
            None => None::<usize>,
        },
        front.title@.len() == 0 || front.title@ == "Program Manager"@ || front.title@
            == "Default IME"@ ==> target_of(
            processes,
            selected,
            TargetMode::AutoForeground,
            Some(front),
        ) == target_of(processes, selected, TargetMode::ManualSelection, None),
        target_of(processes, None, TargetMode::ManualSelection, Some(front)) is None,
{
}

/// Control and Alt with F, or F11 alone, start and stop; Control and Alt with A bring the
/// window back.
pub proof fn law_keys_go_together(k: KeysDown)
    ensures
        k.f11 ==> toggles(k),
        k.ctrl && k.alt && k.f ==> toggles(k),
        toggles(k) && !k.f11 ==> k.ctrl && k.alt && k.f,
        restores(k) <==> k.ctrl && k.alt && k.a,
{
}

} // verus!
