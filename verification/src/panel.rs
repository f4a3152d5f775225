//! The control panel apart from its drawing: which game it is attached to, the settings
//! it publishes, and what the tray, the hotkey and a controller do to them.

use vstd::prelude::*;
use vstd::string::*;

use crate::config::{ReflexMode, RuntimeConfig};
use crate::fixed;
use crate::fixed::clamp_i64;
use crate::gamepad::GamepadAction;
use crate::pacer::PacerMode;
use crate::profiles;
use crate::profiles::{
    mode_word, parse_mode, parse_reflex, reflex_word, Entry, GameProfile, ProfileModel, Profiles,
    ProfilesModel,
};
use crate::text;
use crate::text::{contains, ends_with, is_empty, lower_case, same, trim};

verus! {

/// Least time between two searches for a game to attach to (2 s).
pub const SCAN_INTERVAL_NS: u64 = 2_000_000_000;

/// Rates that a controller can set, fixed-point.
pub const LOWEST_RATE: i64 = 10_000_000;

pub const HIGHEST_RATE: i64 = 480_000_000;

/// The pages of the panel.
#[derive(Debug, Clone, Copy, PartialEq, Eq, Structural)]
pub enum UiTab {
    Monitoring,
    Profiles,
}

impl Default for UiTab {
    fn default() -> (tab: UiTab)
        ensures
            tab == UiTab::Monitoring,
    {
        UiTab::Monitoring
    }
}

/// The settings that the panel shows.
#[derive(Debug, Clone, Copy, PartialEq, Eq, Structural)]
pub struct Settings {
    pub target_fps: i64,
    pub mode: PacerMode,
    pub vsync_override: bool,
    pub force_waitable: bool,
    pub reflex_mode: ReflexMode,
    pub overlay_enabled: bool,
    pub auto_attach: bool,
    /// Refresh rate set by the user; zero trusts the display.
    pub refresh_hz: i64,
}

impl Default for Settings {
    fn default() -> (s: Settings)
        ensures
            s == (Settings {
                target_fps: 60_000_000,
                mode: PacerMode::FixedVsync,
                vsync_override: true,
                force_waitable: false,
                reflex_mode: ReflexMode::Off,
                overlay_enabled: false,
                auto_attach: false,
                refresh_hz: 0,
            }),
    {
        Settings {
            target_fps: 60_000_000,
            mode: PacerMode::FixedVsync,
            vsync_override: true,
            force_waitable: false,
            reflex_mode: ReflexMode::Off,
            overlay_enabled: false,
            auto_attach: false,
            refresh_hz: 0,
        }
    }
}

/// What the game is told.
pub open spec fn config_of(s: Settings) -> RuntimeConfig {
    RuntimeConfig {
        enabled: s.mode != PacerMode::Bypass && s.target_fps > 0,
        mode: s.mode,
        target_fps: s.target_fps,
        refresh_hz: s.refresh_hz,
        vsync_override: s.vsync_override,
        force_waitable: s.force_waitable,
        reflex_mode: s.reflex_mode,
        overlay_enabled: s.overlay_enabled,
    }
}

/// What the game is told last: nothing of the panel stays in force.
pub open spec fn farewell_of(s: Settings) -> RuntimeConfig {
    RuntimeConfig {
        enabled: false,
        mode: s.mode,
        target_fps: s.target_fps,
        refresh_hz: 0,
        vsync_override: s.vsync_override,
        force_waitable: false,
        reflex_mode: ReflexMode::Off,
        overlay_enabled: false,
    }
}

/// The profile that holds the settings.
pub open spec fn profile_of(s: Settings) -> ProfileModel {
    ProfileModel {
        target_fps: s.target_fps,
        mode: profiles::mode_word_of(s.mode),
        vsync_override: s.vsync_override,
        auto_attach: s.auto_attach,
        force_waitable: s.force_waitable,
        refresh_hz: s.refresh_hz,
        reflex_mode: profiles::reflex_word_of(s.reflex_mode),
        overlay_enabled: s.overlay_enabled,
    }
}

/// The settings that a profile holds.
pub open spec fn settings_of(p: ProfileModel) -> Settings {
    Settings {
        target_fps: p.target_fps,
        mode: profiles::mode_of(p.mode),
        vsync_override: p.vsync_override,
        force_waitable: p.force_waitable,
        reflex_mode: profiles::reflex_of(p.reflex_mode),
        overlay_enabled: p.overlay_enabled,
        auto_attach: p.auto_attach,
        refresh_hz: p.refresh_hz,
    }
}

impl Settings {
    /// What the game is told.
    pub fn config(&self) -> (cfg: RuntimeConfig)
        ensures
            cfg == config_of(*self),
    {
        RuntimeConfig {
            enabled: self.mode != PacerMode::Bypass && self.target_fps > 0,
            mode: self.mode,
            target_fps: self.target_fps,
            refresh_hz: self.refresh_hz,
            vsync_override: self.vsync_override,
            force_waitable: self.force_waitable,
            reflex_mode: self.reflex_mode,
            overlay_enabled: self.overlay_enabled,
        }
    }

    /// What the game is told last.
    pub fn farewell(&self) -> (cfg: RuntimeConfig)
        ensures
            cfg == farewell_of(*self),
    {
        RuntimeConfig {
            enabled: false,
            mode: self.mode,
            target_fps: self.target_fps,
            refresh_hz: 0,
            vsync_override: self.vsync_override,
            force_waitable: false,
            reflex_mode: ReflexMode::Off,
            overlay_enabled: false,
        }
    }

    /// The profile that holds the settings.
    pub fn profile(&self) -> (p: GameProfile)
        ensures
            p@ == profile_of(*self),
    {
        GameProfile {
            target_fps: self.target_fps,
            mode: mode_word(self.mode),
            vsync_override: self.vsync_override,
            auto_attach: self.auto_attach,
            force_waitable: self.force_waitable,
            refresh_hz: self.refresh_hz,
            reflex_mode: reflex_word(self.reflex_mode),
            overlay_enabled: self.overlay_enabled,
        }
    }

    /// The settings that a profile holds.
    pub fn from_profile(p: &GameProfile) -> (s: Settings)
        ensures
            s == settings_of(p@),
    {
        Settings {
            target_fps: p.target_fps,
            mode: parse_mode(p.mode.as_str()),
            vsync_override: p.vsync_override,
            force_waitable: p.force_waitable,
            reflex_mode: parse_reflex(p.reflex_mode.as_str()),
            overlay_enabled: p.overlay_enabled,
            auto_attach: p.auto_attach,
            refresh_hz: p.refresh_hz,
        }
    }
}

/// Pacing off, or fixed vertical sync where it was off.
pub open spec fn toggled(mode: PacerMode) -> PacerMode {
    if mode == PacerMode::Bypass {
        PacerMode::FixedVsync
    } else {
        PacerMode::Bypass
    }
}

/// The next lower preset rate, at least half a frame below.
pub open spec fn preset_below(rate: int) -> Option<i64> {
    let r = rate - 500_000;
    if 240_000_000 < r {
        Some(240_000_000)
    } else if 144_000_000 < r {
        Some(144_000_000)
    } else if 120_000_000 < r {
        Some(120_000_000)
    } else if 90_000_000 < r {
        Some(90_000_000)
    } else if 60_000_000 < r {
        Some(60_000_000)
    } else if 40_000_000 < r {
        Some(40_000_000)
    } else if 30_000_000 < r {
        Some(30_000_000)
    } else {
        None
    }
}

/// The next higher preset rate, at least half a frame above.
pub open spec fn preset_above(rate: int) -> Option<i64> {
    let r = rate + 500_000;
    if r < 30_000_000 {
        Some(30_000_000)
    } else if r < 40_000_000 {
        Some(40_000_000)
    } else if r < 60_000_000 {
        Some(60_000_000)
    } else if r < 90_000_000 {
        Some(90_000_000)
    } else if r < 120_000_000 {
        Some(120_000_000)
    } else if r < 144_000_000 {
        Some(144_000_000)
    } else if r < 240_000_000 {
        Some(240_000_000)
    } else {
        None
    }
}

/// The preset rates, fixed-point.
fn presets() -> (v: Vec<i64>)
    ensures
        v@ == seq![
            30_000_000i64,
            40_000_000i64,
            60_000_000i64,
            90_000_000i64,
            120_000_000i64,
            144_000_000i64,
            240_000_000i64,
        ],
{
    vec![30_000_000, 40_000_000, 60_000_000, 90_000_000, 120_000_000, 144_000_000, 240_000_000]
}

/// The next lower preset rate.
pub fn prev_preset(rate: i64) -> (p: Option<i64>)
    ensures
        p == preset_below(rate as int),
{
    let rates = presets();
    let mut i: usize = rates.len();
    while i > 0
        invariant
            i <= rates@.len(),
            rates@ == seq![
                30_000_000i64,
                40_000_000i64,
                60_000_000i64,
                90_000_000i64,
                120_000_000i64,
                144_000_000i64,
                240_000_000i64,
            ],
            forall|j: int| i <= j < rates@.len() ==> !(#[trigger] rates@[j] < rate - 500_000),
        decreases i,
    {
        i = i - 1;
        if rate >= i64::MIN + 500_000 && rates[i] < rate - 500_000 {
            proof {
                assert(i == 6 || !(rates@[i + 1] < rate - 500_000));
            }
            return Some(rates[i]);
        }
    }
    proof {
        assert(!(rates@[0] < rate - 500_000));
    }
    None
}

/// The next higher preset rate.
pub fn next_preset(rate: i64) -> (p: Option<i64>)
    ensures
        p == preset_above(rate as int),
{
    let rates = presets();
    let mut i: usize = 0;
    while i < rates.len()
        invariant
            i <= rates@.len(),
            rates@ == seq![
                30_000_000i64,
                40_000_000i64,
                60_000_000i64,
                90_000_000i64,
                120_000_000i64,
                144_000_000i64,
                240_000_000i64,
            ],
            forall|j: int| 0 <= j < i ==> !(rate + 500_000 < #[trigger] rates@[j]),
        decreases rates@.len() - i,
    {
        if rate <= i64::MAX - 500_000 && rate + 500_000 < rates[i] {
            proof {
                assert(i == 0 || !(rate + 500_000 < rates@[i - 1]));
            }
            return Some(rates[i]);
        }
        i = i + 1;
    }
    proof {
        assert(!(rate + 500_000 < rates@[6]));
    }
    None
}

/// A window that the user can pick.
#[derive(Debug)]
pub struct WindowEntry {
    pub pid: u32,
    pub title: String,
}

/// A window on offer: its process, and the title it is shown under.
pub struct WindowModel {
    pub pid: u32,
    pub title: Seq<char>,
}

impl View for WindowEntry {
    type V = WindowModel;

    open spec fn view(&self) -> WindowModel {
        WindowModel { pid: self.pid, title: self.title@ }
    }
}

/// The state of a [`Panel`].
#[verifier::ext_equal]
pub struct PanelModel {
    pub settings: Settings,
    pub profiles: ProfilesModel,
    /// The executable of the game.
    pub exe: Option<Seq<char>>,
    pub attached: bool,
    /// The shared region of the game is mapped.
    pub mapped: bool,
    /// The process that an attempt to attach is under way for.
    pub pending: Option<u32>,
    /// The windows on offer, in the order in which they are shown.
    pub windows: Seq<WindowModel>,
    pub selected: int,
    pub big_picture: bool,
    pub last_scan: Option<u64>,
}

/// The control panel.
#[derive(Debug)]
pub struct Panel {
    pub settings: Settings,
    pub profiles: Profiles,
    pub exe_name: Option<String>,
    pub attached: bool,
    pub mapped: bool,
    pub pending: Option<u32>,
    pub windows: Vec<WindowEntry>,
    pub selected_window: usize,
    pub big_picture_mode: bool,
    pub last_auto_scan_ns: Option<u64>,
}

pub open spec fn text_of(s: Option<String>) -> Option<Seq<char>> {
    match s {
        Some(t) => Some(t@),
        None => None,
    }
}

impl View for Panel {
    type V = PanelModel;

    open spec fn view(&self) -> PanelModel {
        PanelModel {
            settings: self.settings,
            profiles: self.profiles@,
            exe: text_of(self.exe_name),
            attached: self.attached,
            mapped: self.mapped,
            pending: self.pending,
            windows: windows_of(self.windows@),
            selected: self.selected_window as int,
            big_picture: self.big_picture_mode,
            last_scan: self.last_auto_scan_ns,
        }
    }
}

pub open spec fn windows_of(windows: Seq<WindowEntry>) -> Seq<WindowModel> {
    Seq::new(windows.len(), |i: int| windows[i]@)
}

/// The state after the settings were published.
pub open spec fn published(m: PanelModel, now: u64) -> PanelModel {
    if m.mapped && m.exe is Some {
        PanelModel {
            profiles: profiles::stored(m.profiles, m.exe->0, profile_of(m.settings), now),
            ..m
        }
    } else {
        m
    }
}

/// The state after the panel let go of the game.
pub open spec fn detached(m: PanelModel) -> PanelModel {
    PanelModel { exe: None, attached: false, mapped: false, pending: None, ..m }
}

/// The state after an attempt to attach succeeded.
pub open spec fn joined(m: PanelModel, exe: Option<Seq<char>>, now: u64) -> PanelModel {
    if m.attached {
        PanelModel { pending: None, ..m }
    } else {
        published(
            PanelModel {
                settings: if exe is Some && m.profiles.games.contains_key(exe->0) {
                    settings_of(m.profiles.games[exe->0])
                } else {
                    m.settings
                },
                exe,
                attached: true,
                mapped: true,
                pending: None,
                ..m
            },
            now,
        )
    }
}

/// The profile of the game with only its auto-attach flag changed.
pub open spec fn auto_attach_profile(m: PanelModel, on: bool) -> ProfileModel {
    let p = if m.profiles.games.contains_key(m.exe->0) {
        m.profiles.games[m.exe->0]
    } else {
        profile_of(
            Settings {
                target_fps: 60_000_000,
                mode: PacerMode::FixedVsync,
                vsync_override: true,
                force_waitable: false,
                reflex_mode: ReflexMode::Off,
                overlay_enabled: false,
                auto_attach: false,
                refresh_hz: 0,
            },
        )
    };
    ProfileModel { auto_attach: on, ..p }
}

/// The state with another target rate.
pub open spec fn with_rate(m: PanelModel, rate: int) -> PanelModel {
    PanelModel { settings: Settings { target_fps: rate as i64, ..m.settings }, ..m }
}

/// A rate some frames lower, as far as a controller can go.
pub open spec fn lowered(rate: i64, step: i32) -> int {
    let r = fixed::sat64(rate - step * fixed::ONE);
    if r < LOWEST_RATE {
        LOWEST_RATE as int
    } else {
        r
    }
}

/// A rate some frames higher, as far as a controller can go.
pub open spec fn raised(rate: i64, step: i32) -> int {
    let r = fixed::sat64(rate + step * fixed::ONE);
    if r > HIGHEST_RATE {
        HIGHEST_RATE as int
    } else {
        r
    }
}

/// The state with the limiter turned off, or on again.
pub open spec fn limiter_toggled(m: PanelModel) -> PanelModel {
    PanelModel { settings: Settings { mode: toggled(m.settings.mode), ..m.settings }, ..m }
}

/// The state after the auto-attach flag was flipped.
pub open spec fn auto_attach_flipped(m: PanelModel, now: u64) -> PanelModel {
    let on = !m.settings.auto_attach;
    let flipped = PanelModel { settings: Settings { auto_attach: on, ..m.settings }, ..m };
    if m.exe is Some {
        PanelModel {
            profiles: profiles::stored(m.profiles, m.exe->0, auto_attach_profile(m, on), now),
            ..flipped
        }
    } else {
        flipped
    }
}

/// The state after a controller's action.
pub open spec fn acted(m: PanelModel, action: GamepadAction, now: u64) -> PanelModel {
    match action {
        GamepadAction::FpsDown(step) => published(
            with_rate(m, lowered(m.settings.target_fps, step)),
            now,
        ),
        GamepadAction::FpsUp(step) => published(
            with_rate(m, raised(m.settings.target_fps, step)),
            now,
        ),
        GamepadAction::PrevPreset => match preset_below(m.settings.target_fps as int) {
            Some(p) => published(with_rate(m, p as int), now),
            None => m,
        },
        GamepadAction::NextPreset => match preset_above(m.settings.target_fps as int) {
            Some(p) => published(with_rate(m, p as int), now),
            None => m,
        },
        GamepadAction::ToggleLimiter => published(limiter_toggled(m), now),
        GamepadAction::ToggleAutoAttach => auto_attach_flipped(m, now),
        GamepadAction::Attach => m,
        GamepadAction::ToggleBigPicture => PanelModel { big_picture: !m.big_picture, ..m },
    }
}

/// Does an action publish the settings, where the region is mapped?
pub open spec fn publishes(m: PanelModel, action: GamepadAction) -> bool {
    match action {
        GamepadAction::FpsDown(_) => true,
        GamepadAction::FpsUp(_) => true,
        GamepadAction::PrevPreset => preset_below(m.settings.target_fps as int) is Some,
        GamepadAction::NextPreset => preset_above(m.settings.target_fps as int) is Some,
        GamepadAction::ToggleLimiter => true,
        _ => false,
    }
}

/// What the caller does for a change of the panel.
#[derive(Debug, Clone, Copy, PartialEq, Eq, Structural)]
pub struct Duties {
    /// Write this to the shared region, and show whether the limiter is on.
    pub publish: Option<RuntimeConfig>,
    /// Write all profiles to disk.
    pub write: bool,
    /// Attach to this process.
    pub attach: Option<u32>,
}

/// The duties of a published change.
pub open spec fn publishing(m: PanelModel, now: u64) -> Duties {
    Duties {
        publish: if m.mapped {
            Some(config_of(m.settings))
        } else {
            None
        },
        write: m.mapped && m.exe is Some && now - m.profiles.last_save
            >= profiles::SAVE_INTERVAL_NS,
        attach: None,
    }
}

/// The window that is picked, if it is there.
pub open spec fn picked(m: PanelModel) -> Option<u32> {
    if 0 <= m.selected < m.windows.len() {
        Some(m.windows[m.selected].pid)
    } else {
        None
    }
}

/// Whether a search for a game to attach to is due.
pub open spec fn scan_due(m: PanelModel, now: u64) -> bool {
    &&& m.settings.auto_attach
    &&& !m.attached
    &&& match m.last_scan {
        Some(last) => now - last >= SCAN_INTERVAL_NS,
        None => true,
    }
}

/// Is a game attached to as soon as it runs?
pub open spec fn wanted(p: ProfilesModel, exe: Option<Seq<char>>) -> bool {
    exe is Some && p.games.contains_key(exe->0) && p.games[exe->0].auto_attach
}

/// A running process with its executable, where that is known.
#[derive(Debug)]
pub struct Running {
    pub pid: u32,
    pub exe: Option<String>,
}

/// The first process of the first `n` that is attached to by itself.
pub open spec fn first_wanted(p: ProfilesModel, running: Seq<Running>, n: nat) -> Option<u32>
    decreases n,
{
    if n == 0 {
        None
    } else {
        match first_wanted(p, running, (n - 1) as nat) {
            Some(pid) => Some(pid),
            None => if wanted(p, text_of(running[n - 1].exe)) {
                Some(running[n - 1].pid)
            } else {
                None
            },
        }
    }
}

proof fn lemma_first_wanted_stays(p: ProfilesModel, running: Seq<Running>, i: nat, n: nat)
    requires
        i <= n,
        first_wanted(p, running, i) is Some,
    ensures
        first_wanted(p, running, n) == first_wanted(p, running, i),
    decreases n,
{
    if i < n {
        lemma_first_wanted_stays(p, running, i, (n - 1) as nat);
    }
}

fn no_duties() -> (d: Duties)
    ensures
        d == (Duties { publish: None, write: false, attach: None }),
{
    Duties { publish: None, write: false, attach: None }
}

impl Panel {
    pub open spec fn wf(&self) -> bool {
        self.profiles.wf()
    }

    /// A panel with the profiles that were read from disk.
    pub fn new(profiles: Profiles) -> (p: Panel)
        requires
            profiles.wf(),
        ensures
            p.wf(),
            p@ == (PanelModel {
                settings: Settings {
                    target_fps: 60_000_000,
                    mode: PacerMode::FixedVsync,
                    vsync_override: true,
                    force_waitable: false,
                    reflex_mode: ReflexMode::Off,
                    overlay_enabled: false,
                    auto_attach: false,
                    refresh_hz: 0,
                },
                profiles: profiles@,
                exe: None,
                attached: false,
                mapped: false,
                pending: None,
                windows: seq![],
                selected: 0,
                big_picture: false,
                last_scan: None,
            }),
    {
        let p = Panel {
            settings: Settings::default(),
            profiles,
            exe_name: None,
            attached: false,
            mapped: false,
            pending: None,
            windows: Vec::new(),
            selected_window: 0,
            big_picture_mode: false,
            last_auto_scan_ns: None,
        };
        assert(p@.windows =~= Seq::<WindowModel>::empty());
        p
    }

    /// Publishes the settings, and keeps them in the profile of the game.
    pub fn push_config(&mut self, now_ns: u64) -> (d: Duties)
        requires
            old(self).wf(),
        ensures
            final(self).wf(),
            final(self)@ == published(old(self)@, now_ns),
            d == publishing(old(self)@, now_ns),
    {
        if !self.mapped {
            return no_duties();
        }
        let cfg = self.settings.config();
        let profile = self.settings.profile();
        let write = match &self.exe_name {
            Some(exe) => self.profiles.set(exe.as_str(), profile, now_ns),
            None => false,
        };
        Duties { publish: Some(cfg), write, attach: None }
    }

    /// The target is protected and only watched.
    pub fn watch_only(&mut self, exe: Option<String>)
        requires
            old(self).wf(),
        ensures
            final(self).wf(),
            final(self)@ == (PanelModel { exe: text_of(exe), attached: true, ..old(self)@ }),
    {
        self.exe_name = exe;
        self.attached = true;
    }

    /// An attempt to attach to a process is under way.
    pub fn attaching(&mut self, pid: u32)
        requires
            old(self).wf(),
        ensures
            final(self).wf(),
            final(self)@ == (PanelModel { pending: Some(pid), ..old(self)@ }),
    {
        self.pending = Some(pid);
    }

    /// The attempt failed.
    pub fn attach_failed(&mut self)
        requires
            old(self).wf(),
        ensures
            final(self).wf(),
            final(self)@ == (PanelModel { pending: None, ..old(self)@ }),
    {
        self.pending = None;
    }

    /// The attempt succeeded: the settings of the game's profile come into force. One
    /// that comes while another game is attached is dropped.
    pub fn attach_done(&mut self, exe: Option<String>, now_ns: u64) -> (d: Duties)
        requires
            old(self).wf(),
        ensures
            final(self).wf(),
            final(self)@ == joined(old(self)@, text_of(exe), now_ns),
            old(self)@.attached ==> d == (Duties { publish: None, write: false, attach: None }),
            !old(self)@.attached ==> d.publish == Some(config_of(final(self)@.settings)),
            !old(self)@.attached ==> d.attach is None,
            !old(self)@.attached ==> d.write == (exe is Some && now_ns
                - old(self)@.profiles.last_save >= profiles::SAVE_INTERVAL_NS),
    {
        self.pending = None;
        if self.attached {
            return no_duties();
        }
        if let Some(name) = &exe {
            if let Some(p) = self.profiles.get(name.as_str()) {
                self.settings = Settings::from_profile(p);
            }
        }
        self.exe_name = exe;
        self.mapped = true;
        self.attached = true;
        self.push_config(now_ns)
    }

    /// Lets go of the game. Where its region was mapped, the result is the last thing to
    /// publish before the heartbeat is given up.
    pub fn detach(&mut self) -> (farewell: Option<RuntimeConfig>)
        requires
            old(self).wf(),
        ensures
            final(self).wf(),
            final(self)@ == detached(old(self)@),
            farewell == if old(self)@.mapped {
                Some(farewell_of(old(self)@.settings))
            } else {
                None
            },
    {
        let farewell = if self.mapped {
            Some(self.settings.farewell())
        } else {
            None
        };
        self.pending = None;
        self.mapped = false;
        self.attached = false;
        self.exe_name = None;
        farewell
    }

    /// Turns the limiter off, or on again.
    pub fn toggle_limiter(&mut self, now_ns: u64) -> (d: Duties)
        requires
            old(self).wf(),
        ensures
            final(self).wf(),
            final(self)@ == acted(old(self)@, GamepadAction::ToggleLimiter, now_ns),
            d == publishing(limiter_toggled(old(self)@), now_ns),
    {
        if self.settings.mode == PacerMode::Bypass {
            self.settings.mode = PacerMode::FixedVsync;
        } else {
            self.settings.mode = PacerMode::Bypass;
        }
        self.push_config(now_ns)
    }

    /// Flips the auto-attach flag, also in the profile of the game.
    pub fn toggle_auto_attach(&mut self, now_ns: u64) -> (d: Duties)
        requires
            old(self).wf(),
        ensures
            final(self).wf(),
            final(self)@ == auto_attach_flipped(old(self)@, now_ns),
            d == (Duties {
                publish: None,
                write: old(self)@.exe is Some && now_ns - old(self)@.profiles.last_save
                    >= profiles::SAVE_INTERVAL_NS,
                attach: None,
            }),
    {
        let on = !self.settings.auto_attach;
        self.settings.auto_attach = on;
        let write = match &self.exe_name {
            Some(exe) => {
                let mut p = match self.profiles.get(exe.as_str()) {
                    Some(p) => p.clone(),
                    None => GameProfile::default(),
                };
                p.auto_attach = on;
                self.profiles.set(exe.as_str(), p, now_ns)
            },
            None => false,
        };
        Duties { publish: None, write, attach: None }
    }

    fn set_rate(&mut self, rate: i64, now_ns: u64) -> (d: Duties)
        requires
            old(self).wf(),
        ensures
            final(self).wf(),
            final(self)@ == published(with_rate(old(self)@, rate as int), now_ns),
            d == publishing(with_rate(old(self)@, rate as int), now_ns),
    {
        self.settings.target_fps = rate;
        self.push_config(now_ns)
    }

    /// Carries out an action of the controller.
    pub fn act(&mut self, action: GamepadAction, now_ns: u64) -> (d: Duties)
        requires
            old(self).wf(),
        ensures
            final(self).wf(),
            final(self)@ == acted(old(self)@, action, now_ns),
            d.publish == if publishes(old(self)@, action) && old(self)@.mapped {
                Some(config_of(final(self)@.settings))
            } else {
                None
            },
            d.write == (old(self)@.exe is Some && (action is ToggleAutoAttach || (publishes(
                old(self)@,
                action,
            ) && old(self)@.mapped)) && now_ns - old(self)@.profiles.last_save
                >= profiles::SAVE_INTERVAL_NS),
            d.attach == if action is Attach && !old(self)@.attached {
                picked(old(self)@)
            } else {
                None
            },
    {
        match action {
            GamepadAction::FpsDown(step) => {
                let lower: i64 = clamp_i64(
                    self.settings.target_fps as i128 - step as i128 * fixed::ONE,
                );
                let rate: i64 = if lower < LOWEST_RATE {
                    LOWEST_RATE
                } else {
                    lower
                };
                self.set_rate(rate, now_ns)
            },
            GamepadAction::FpsUp(step) => {
                let higher: i64 = clamp_i64(
                    self.settings.target_fps as i128 + step as i128 * fixed::ONE,
                );
                let rate: i64 = if higher > HIGHEST_RATE {
                    HIGHEST_RATE
                } else {
                    higher
                };
                self.set_rate(rate, now_ns)
            },
            GamepadAction::PrevPreset => match prev_preset(self.settings.target_fps) {
                Some(p) => self.set_rate(p, now_ns),
                None => no_duties(),
            },
            GamepadAction::NextPreset => match next_preset(self.settings.target_fps) {
                Some(p) => self.set_rate(p, now_ns),
                None => no_duties(),
            },
            GamepadAction::ToggleLimiter => self.toggle_limiter(now_ns),
            GamepadAction::ToggleAutoAttach => self.toggle_auto_attach(now_ns),
            GamepadAction::Attach => {
                let pid = if !self.attached && self.selected_window < self.windows.len() {
                    Some(self.windows[self.selected_window].pid)
                } else {
                    None
                };
                Duties { publish: None, write: false, attach: pid }
            },
            GamepadAction::ToggleBigPicture => {
                self.big_picture_mode = !self.big_picture_mode;
                no_duties()
            },
        }
    }

    /// Takes over a new list of windows; a pick beyond its end falls back to the first.
    pub fn refresh_windows(&mut self, windows: Vec<WindowEntry>)
        requires
            old(self).wf(),
        ensures
            final(self).wf(),
            final(self).windows@ == windows@,
            final(self)@ == (PanelModel {
                windows: windows_of(windows@),
                selected: if old(self)@.selected >= windows@.len() {
                    0
                } else {
                    old(self)@.selected
                },
                ..old(self)@
            }),
    {
        if self.selected_window >= windows.len() {
            self.selected_window = 0;
        }
        self.windows = windows;
    }

    /// Starts a search for a game to attach to, if one is due.
    pub fn begin_scan(&mut self, now_ns: u64) -> (due: bool)
        requires
            old(self).wf(),
        ensures
            final(self).wf(),
            due == scan_due(old(self)@, now_ns),
            final(self)@ == if due {
                PanelModel { last_scan: Some(now_ns), ..old(self)@ }
            } else {
                old(self)@
            },
    {
        let rested = match self.last_auto_scan_ns {
            Some(last) => now_ns >= last && now_ns - last >= SCAN_INTERVAL_NS,
            None => true,
        };
        let due = self.settings.auto_attach && !self.attached && rested;
        if due {
            self.last_auto_scan_ns = Some(now_ns);
        }
        due
    }

    /// The first running game whose profile asks to be attached to by itself.
    pub fn auto_target(&self, running: &Vec<Running>) -> (pid: Option<u32>)
        requires
            self.wf(),
        ensures
            pid == first_wanted(self@.profiles, running@, running@.len()),
    {
        let mut i: usize = 0;
        while i < running.len()
            invariant
                i <= running@.len(),
                self.wf(),
                first_wanted(self@.profiles, running@, i as nat) is None,
            decreases running@.len() - i,
        {
            if let Some(exe) = &running[i].exe {
                if let Some(p) = self.profiles.get(exe.as_str()) {
                    if p.auto_attach {
                        proof {
                            lemma_first_wanted_stays(
                                self@.profiles,
                                running@,
                                (i + 1) as nat,
                                running@.len(),
                            );
                        }
                        return Some(running[i].pid);
                    }
                }
            }
            i = i + 1;
        }
        None
    }
}

/// The profile name for a trimmed, lower-case text: it ends in ".exe".
pub open spec fn profile_name_of(name: Seq<char>) -> Option<Seq<char>> {
    if name.len() == 0 {
        None
    } else if name.len() >= 4 && name.skip(name.len() - 4) == ".exe"@ {
        Some(name)
    } else {
        Some(name + ".exe"@)
    }
}

/// The profile name for a trimmed, lower-case text; an empty one has none.
pub fn profile_name(name: &str) -> (exe: Option<String>)
    ensures
        text_of(exe) == profile_name_of(name@),
{
    if is_empty(name) {
        return None;
    }
    proof {
        reveal_strlit(".exe");
        assert(".exe"@.len() == 4);
        if name@.len() >= 4 {
            assert(name@.skip(name@.len() - 4) =~= name@.subrange(
                name@.len() - 4,
                name@.len() as int,
            ));
        }
    }
    if ends_with(name, ".exe") {
        Some(String::from_str(name))
    } else {
        let mut exe = String::from_str(name);
        exe.append(".exe");
        Some(exe)
    }
}

/// Is a game shown for a search? Both texts are in lower case.
pub fn is_found(exe: &str, search: &str) -> (found: bool)
    ensures
        found == (search@.len() == 0 || text::has_part(exe@, search@)),
{
    is_empty(search) || contains(exe, search)
}

/// The profiles shown for a search, by name.
pub fn is_listed(exe: &str, search: &str) -> (listed: bool)
    ensures
        listed == ({
            let part = text::lower_case_of(text::trimmed(search@));
            part.len() == 0 || text::has_part(text::lower_case_of(exe@), part)
        }),
{
    let part = lower_case(trim(search));
    let name = lower_case(exe);
    is_found(name.as_str(), part.as_str())
}

/// What became of a request for a new profile.
#[derive(Debug)]
pub enum Added {
    /// There was no name.
    Nothing,
    /// A game with this name has one already.
    Exists(String),
    /// The game has one now; when the flag is set the caller writes all profiles.
    Done(String, bool),
}

/// The outcome of a request for a profile under a trimmed, lower-case name: nothing
/// without a name, the old state where there is one already, and otherwise a new profile
/// with the defaults.
pub open spec fn adds(
    m: PanelModel,
    name: Seq<char>,
    now: u64,
    r: Added,
    after: PanelModel,
) -> bool {
    match profile_name_of(name) {
        None => r is Nothing && after == m,
        Some(exe) => if m.profiles.games.contains_key(exe) {
            &&& r matches Added::Exists(e)
            &&& e@ == exe
            &&& after == m
        } else {
            &&& r matches Added::Done(e, write)
            &&& e@ == exe
            &&& write == (now - m.profiles.last_save >= profiles::SAVE_INTERVAL_NS)
            &&& after == (PanelModel {
                profiles: profiles::stored(
                    m.profiles,
                    exe,
                    (ProfileModel {
                        target_fps: 60_000_000,
                        mode: "vsync"@,
                        vsync_override: true,
                        auto_attach: false,
                        force_waitable: false,
                        refresh_hz: 0,
                        reflex_mode: "off"@,
                        overlay_enabled: false,
                    }),
                    now,
                ),
                ..m
            })
        },
    }
}

impl Panel {
    /// Makes a profile for a game, under a name in lower case without white space around
    /// it.
    pub fn add_named(&mut self, name: &str, now_ns: u64) -> (r: Added)
        requires
            old(self).wf(),
        ensures
            final(self).wf(),
            adds(old(self)@, name@, now_ns, r, final(self)@),
    {
        match profile_name(name) {
            None => Added::Nothing,
            Some(exe) => {
                if self.profiles.get(exe.as_str()).is_some() {
                    return Added::Exists(exe);
                }
                let write = self.profiles.set(exe.as_str(), GameProfile::default(), now_ns);
                Added::Done(exe, write)
            },
        }
    }

    /// Makes a profile for a game under the name that the user typed.
    pub fn add_profile(&mut self, typed: &str, now_ns: u64) -> (r: Added)
        requires
            old(self).wf(),
        ensures
            final(self).wf(),
            adds(
                old(self)@,
                text::lower_case_of(text::trimmed(typed@)),
                now_ns,
                r,
                final(self)@,
            ),
    {
        let name = lower_case(trim(typed));
        self.add_named(name.as_str(), now_ns)
    }

    /// Stores an edited profile. Where it is that of the attached game, the settings of the
    /// panel are published, and they overwrite the edit: a published profile is the one
    /// that the settings stand for.
    pub fn edit_profile(&mut self, exe: &str, profile: GameProfile, now_ns: u64) -> (d: Duties)
        requires
            old(self).wf(),
        ensures
            final(self).wf(),
            ({
                let kept = PanelModel {
                    profiles: profiles::stored(old(self)@.profiles, exe@, profile@, now_ns),
                    ..old(self)@
                };
                let current = old(self)@.exe == Some(exe@);
                &&& final(self)@ == if current {
                    published(kept, now_ns)
                } else {
                    kept
                }
                &&& d.publish == if current && old(self)@.mapped {
                    Some(config_of(old(self)@.settings))
                } else {
                    None
                }
                &&& d.attach is None
                &&& d.write == (now_ns - old(self)@.profiles.last_save
                    >= profiles::SAVE_INTERVAL_NS)
            }),
    {
        let write = self.profiles.set(exe, profile, now_ns);
        let current = match &self.exe_name {
            Some(name) => same(name.as_str(), exe),
            None => false,
        };
        if current {
            let d = self.push_config(now_ns);
            Duties { publish: d.publish, write: write || d.write, attach: None }
        } else {
            Duties { publish: None, write, attach: None }
        }
    }
}

impl Panel {
    /// The user changed the settings.
    pub fn change(&mut self, settings: Settings, now_ns: u64) -> (d: Duties)
        requires
            old(self).wf(),
        ensures
            final(self).wf(),
            final(self)@ == published(PanelModel { settings, ..old(self)@ }, now_ns),
            d == publishing(PanelModel { settings, ..old(self)@ }, now_ns),
    {
        self.settings = settings;
        self.push_config(now_ns)
    }

    /// Takes over a recommendation of the tuner.
    pub fn apply_tuning(
        &mut self,
        target_fps: i64,
        mode: PacerMode,
        vsync_override: bool,
        now_ns: u64,
    ) -> (d: Duties)
        requires
            old(self).wf(),
        ensures
            final(self).wf(),
            ({
                let tuned = PanelModel {
                    settings: Settings {
                        target_fps,
                        mode,
                        vsync_override,
                        ..old(self)@.settings
                    },
                    ..old(self)@
                };
                &&& final(self)@ == published(tuned, now_ns)
                &&& d == publishing(tuned, now_ns)
            }),
    {
        self.settings.target_fps = target_fps;
        self.settings.mode = mode;
        self.settings.vsync_override = vsync_override;
        self.push_config(now_ns)
    }

    /// Takes over a calculated cadence: its rate, on the grid of the display.
    pub fn apply_cadence(&mut self, target_fps: i64, now_ns: u64) -> (d: Duties)
        requires
            old(self).wf(),
        ensures
            final(self).wf(),
            ({
                let paced = PanelModel {
                    settings: Settings {
                        target_fps,
                        mode: PacerMode::FixedVsync,
                        ..old(self)@.settings
                    },
                    ..old(self)@
                };
                &&& final(self)@ == published(paced, now_ns)
                &&& d == publishing(paced, now_ns)
            }),
    {
        self.settings.target_fps = target_fps;
        self.settings.mode = PacerMode::FixedVsync;
        self.push_config(now_ns)
    }

    /// Takes over optimised settings of the swapchain; the rate stays.
    pub fn apply_optimized(
        &mut self,
        mode: PacerMode,
        vsync_override: bool,
        force_waitable: bool,
        now_ns: u64,
    ) -> (d: Duties)
        requires
            old(self).wf(),
        ensures
            final(self).wf(),
            ({
                let set = PanelModel {
                    settings: Settings {
                        mode,
                        vsync_override,
                        force_waitable,
                        ..old(self)@.settings
                    },
                    ..old(self)@
                };
                &&& final(self)@ == published(set, now_ns)
                &&& d == publishing(set, now_ns)
            }),
    {
        self.settings.mode = mode;
        self.settings.vsync_override = vsync_override;
        self.settings.force_waitable = force_waitable;
        self.push_config(now_ns)
    }
}

/// A game that is attached to again gets the settings it was left with.
pub proof fn law_settings_come_back(
    m: PanelModel,
    left: u64,
    then: PanelModel,
    back: u64,
)
    requires
        m.mapped,
        m.exe is Some,
        !then.attached,
        then.profiles == published(m, left).profiles,
    ensures
        joined(then, m.exe, back).settings == m.settings,
{
    profiles::law_words_read_back(m.settings.mode, m.settings.reflex_mode);
}

/// Whatever the settings were, a game that the panel lets go of is left unpaced, without
/// the overlay and with the driver's latency mode off.
pub proof fn law_detached_game_is_left_alone(m: PanelModel)
    ensures
        !farewell_of(m.settings).enabled,
        !farewell_of(m.settings).overlay_enabled,
        !farewell_of(m.settings).force_waitable,
        farewell_of(m.settings).reflex_mode == ReflexMode::Off,
        farewell_of(m.settings).refresh_hz == 0,
        !detached(m).attached,
        !detached(m).mapped,
        detached(m).pending is None,
        detached(m).exe is None,
        detached(m).settings == m.settings,
        detached(m).profiles == m.profiles,
{
}

/// Turning the limiter off and on again ends in fixed vertical sync, at the same rate.
pub proof fn law_limiter_toggles_back(m: PanelModel)
    ensures
        limiter_toggled(limiter_toggled(m)).settings == (Settings {
            mode: if m.settings.mode == PacerMode::Bypass {
                PacerMode::Bypass
            } else {
                PacerMode::FixedVsync
            },
            ..m.settings
        }),
        m.settings.target_fps > 0 ==> config_of(limiter_toggled(m).settings).enabled
            == !config_of(m.settings).enabled,
{
}

/// A controller never takes the rate below its lowest or above its highest.
pub proof fn law_rates_stay_in_reach(m: PanelModel, step: i32, now: u64)
    ensures
        acted(m, GamepadAction::FpsDown(step), now).settings.target_fps >= LOWEST_RATE,
        acted(m, GamepadAction::FpsUp(step), now).settings.target_fps <= HIGHEST_RATE,
{
}

/// A step to a preset moves the rate by more than half a frame and skips no preset on the
/// way.
pub proof fn law_presets_are_not_skipped(rate: i64)
    ensures
        preset_above(rate as int) matches Some(up) ==> up > rate + 500_000 && (preset_below(
            up as int,
        ) is Some ==> preset_below(up as int)->0 <= rate + 500_000),
        preset_below(rate as int) matches Some(down) ==> down < rate - 500_000 && (preset_above(
            down as int,
        ) is Some ==> preset_above(down as int)->0 >= rate - 500_000),
{
}

} // verus!
