//! The command line: which command it names and what its options ask for.
//!
//! Rates are read from text by the caller and come in as fixed-point values (see
//! [`crate::fixed`]); the result of a failed reading is the default of the option.

use vstd::prelude::*;
use vstd::string::*;

use crate::config::{ReflexMode, RuntimeConfig};
use crate::pacer::PacerMode;
use crate::profiles;
use crate::profiles::parse_mode;
use crate::text;
use crate::text::{parse_number, same};

verus! {

/// How long `inject` waits for the hooks (5 s).
pub const HOOK_TIMEOUT_NS: u64 = 5_000_000_000;

/// How long `watch` runs unless told otherwise.
pub const WATCH_SECONDS: u64 = 5;

/// Hook state of a game whose hooks are in place.
pub const HOOKS_INSTALLED: u32 = 1;

/// Hook state of a game whose hooks could not be put in place.
pub const HOOKS_FAILED: u32 = 2;

/// The commands.
#[derive(Debug, Clone, Copy, PartialEq, Eq, Structural)]
pub enum Command {
    Ui,
    List,
    Inject,
    Watch,
    WatchEtw,
    Limit,
    Bench,
    Tune,
    SolveCadence,
    OptimizeConfig,
    Help,
    Version,
    Unknown,
}

/// The command that a word stands for.
pub open spec fn named(word: Seq<char>) -> Command {
    if word == "ui"@ {
        Command::Ui
    } else if word == "list"@ {
        Command::List
    } else if word == "inject"@ {
        Command::Inject
    } else if word == "watch"@ {
        Command::Watch
    } else if word == "watch-etw"@ {
        Command::WatchEtw
    } else if word == "limit"@ {
        Command::Limit
    } else if word == "bench"@ {
        Command::Bench
    } else if word == "tune"@ {
        Command::Tune
    } else if word == "solve-cadence"@ {
        Command::SolveCadence
    } else if word == "optimize-config"@ {
        Command::OptimizeConfig
    } else if word == "--help"@ || word == "-h"@ || word == "help"@ {
        Command::Help
    } else if word == "--version"@ || word == "-V"@ {
        Command::Version
    } else {
        Command::Unknown
    }
}

/// The command that a command line asks for; without a word, the control panel.
pub fn command(args: &Vec<String>) -> (c: Command)
    ensures
        c == if args@.len() == 0 {
            Command::Ui
        } else {
            named(args@[0]@)
        },
{
    if args.len() == 0 {
        return Command::Ui;
    }
    let word = args[0].as_str();
    if same(word, "ui") {
        Command::Ui
    } else if same(word, "list") {
        Command::List
    } else if same(word, "inject") {
        Command::Inject
    } else if same(word, "watch") {
        Command::Watch
    } else if same(word, "watch-etw") {
        Command::WatchEtw
    } else if same(word, "limit") {
        Command::Limit
    } else if same(word, "bench") {
        Command::Bench
    } else if same(word, "tune") {
        Command::Tune
    } else if same(word, "solve-cadence") {
        Command::SolveCadence
    } else if same(word, "optimize-config") {
        Command::OptimizeConfig
    } else if same(word, "--help") || same(word, "-h") || same(word, "help") {
        Command::Help
    } else if same(word, "--version") || same(word, "-V") {
        Command::Version
    } else {
        Command::Unknown
    }
}

/// The arguments as texts.
pub open spec fn words(args: Seq<String>) -> Seq<Seq<char>> {
    Seq::new(args.len(), |i: int| args[i]@)
}

/// Does a flag occur among the arguments?
pub open spec fn flagged(args: Seq<Seq<char>>, flag: Seq<char>) -> bool {
    args.contains(flag)
}

/// The argument behind the first occurrence of a flag.
pub open spec fn value_after(args: Seq<Seq<char>>, flag: Seq<char>) -> Option<Seq<char>>
    decreases args.len(),
{
    if args.len() == 0 {
        None
    } else if args[0] == flag {
        if args.len() > 1 {
            Some(args[1])
        } else {
            None
        }
    } else {
        value_after(args.drop_first(), flag)
    }
}

/// Does a flag occur among the arguments?
pub fn has_flag(args: &Vec<String>, flag: &str) -> (found: bool)
    ensures
        found == flagged(words(args@), flag@),
{
    let mut i: usize = 0;
    while i < args.len()
        invariant
            i <= args@.len(),
            forall|j: int| 0 <= j < i ==> (#[trigger] words(args@)[j]) != flag@,
        decreases args@.len() - i,
    {
        if same(args[i].as_str(), flag) {
            assert(words(args@)[i as int] == flag@);
            return true;
        }
        i = i + 1;
    }
    false
}

/// The argument behind the first occurrence of a flag.
pub fn arg_value(args: &Vec<String>, flag: &str) -> (value: Option<String>)
    ensures
        value is Some == value_after(words(args@), flag@) is Some,
        value is Some ==> (value->0)@ == value_after(words(args@), flag@)->0,
{
    let ghost all = words(args@);
    let mut i: usize = 0;
    assert(all.skip(0) =~= all);
    while i < args.len()
        invariant
            i <= args@.len(),
            all == words(args@),
            value_after(all, flag@) == value_after(all.skip(i as int), flag@),
        decreases args@.len() - i,
    {
        assert(all.skip(i as int)[0] == args@[i as int]@);
        if same(args[i].as_str(), flag) {
            if i + 1 < args.len() {
                assert(all.skip(i as int)[1] == args@[i + 1]@);
                return Some(args[i + 1].clone());
            }
            return None;
        }
        assert(all.skip(i as int).drop_first() =~= all.skip(i + 1));
        i = i + 1;
    }
    None
}

/// The number behind a flag, if it is one.
pub open spec fn number_after(args: Seq<Seq<char>>, flag: Seq<char>, max: int) -> Option<int> {
    match value_after(args, flag) {
        Some(v) => text::number_of(v, max),
        None => None,
    }
}

/// The process that `--pid` names.
pub fn pid_of(args: &Vec<String>) -> (pid: Option<u32>)
    ensures
        pid is Some == number_after(words(args@), "--pid"@, u32::MAX as int) is Some,
        pid is Some ==> (pid->0) as int == number_after(
            words(args@),
            "--pid"@,
            u32::MAX as int,
        )->0,
{
    match arg_value(args, "--pid") {
        Some(v) => match parse_number(v.as_str(), 0xFFFF_FFFF) {
            Some(n) => Some(n as u32),
            None => None,
        },
        None => None,
    }
}

/// How many seconds `watch` runs.
pub fn watch_seconds(args: &Vec<String>) -> (seconds: u64)
    ensures
        seconds == match number_after(words(args@), "--seconds"@, u64::MAX as int) {
            Some(n) => n,
            None => WATCH_SECONDS as int,
        },
{
    match arg_value(args, "--seconds") {
        Some(v) => match parse_number(v.as_str(), u64::MAX) {
            Some(n) => n,
            None => WATCH_SECONDS,
        },
        None => WATCH_SECONDS,
    }
}

/// What `inject` is pointed at.
#[derive(Debug)]
pub enum Target {
    Pid(u32),
    /// The process of the window with this title.
    Window(String),
    /// `--pid` without a number behind it.
    NotANumber,
    /// Neither `--pid` nor `--window`.
    Missing,
}

/// What `inject` is pointed at: a process before a window.
pub fn inject_target(args: &Vec<String>) -> (t: Target)
    ensures
        match value_after(words(args@), "--pid"@) {
            Some(v) => match text::number_of(v, u32::MAX as int) {
                Some(n) => t matches Target::Pid(pid) && pid as int == n,
                None => t is NotANumber,
            },
            None => match value_after(words(args@), "--window"@) {
                Some(title) => t matches Target::Window(w) && w@ == title,
                None => t is Missing,
            },
        },
{
    match arg_value(args, "--pid") {
        Some(v) => match parse_number(v.as_str(), 0xFFFF_FFFF) {
            Some(n) => Target::Pid(n as u32),
            None => Target::NotANumber,
        },
        None => match arg_value(args, "--window") {
            Some(title) => Target::Window(title),
            None => Target::Missing,
        },
    }
}

/// What to do while `inject` waits for the hooks.
#[derive(Debug, Clone, Copy, PartialEq, Eq, Structural)]
pub enum HookWait {
    Installed,
    Failed,
    TimedOut,
    /// Look again in a moment.
    Wait,
}

/// What the hook state of the game means after `waited_ns` of waiting.
pub fn hook_wait(state: u32, waited_ns: u64) -> (w: HookWait)
    ensures
        w == if state == HOOKS_INSTALLED {
            HookWait::Installed
        } else if state == HOOKS_FAILED {
            HookWait::Failed
        } else if waited_ns > HOOK_TIMEOUT_NS {
            HookWait::TimedOut
        } else {
            HookWait::Wait
        },
{
    match state {
        1 => HookWait::Installed,
        2 => HookWait::Failed,
        _ => if waited_ns > HOOK_TIMEOUT_NS {
            HookWait::TimedOut
        } else {
            HookWait::Wait
        },
    }
}

/// The pacing mode that a word stands for; fixed vertical sync unless it says otherwise.
pub open spec fn mode_named(word: Option<Seq<char>>) -> PacerMode {
    match word {
        Some(w) => profiles::mode_of(w),
        None => PacerMode::FixedVsync,
    }
}

/// The pacing mode that `--mode` asks for.
pub fn limit_mode(args: &Vec<String>) -> (mode: PacerMode)
    ensures
        mode == mode_named(value_after(words(args@), "--mode"@)),
{
    match arg_value(args, "--mode") {
        Some(w) => parse_mode(w.as_str()),
        None => PacerMode::FixedVsync,
    }
}

/// The settings that `limit` publishes.
pub open spec fn limit_settings(
    args: Seq<Seq<char>>,
    target_fps: i64,
    refresh_hz: i64,
) -> RuntimeConfig {
    let mode = mode_named(value_after(args, "--mode"@));
    RuntimeConfig {
        enabled: target_fps > 0 && mode != PacerMode::Bypass,
        mode,
        target_fps,
        refresh_hz,
        vsync_override: !flagged(args, "--no-vsync-override"@),
        force_waitable: flagged(args, "--waitable"@),
        reflex_mode: ReflexMode::Off,
        overlay_enabled: false,
    }
}

/// The settings that `limit` publishes.
pub fn limit_config(args: &Vec<String>, target_fps: i64, refresh_hz: i64) -> (cfg: RuntimeConfig)
    ensures
        cfg == limit_settings(words(args@), target_fps, refresh_hz),
{
    let mode = limit_mode(args);
    RuntimeConfig {
        enabled: target_fps > 0 && mode != PacerMode::Bypass,
        mode,
        target_fps,
        refresh_hz,
        vsync_override: !has_flag(args, "--no-vsync-override"),
        force_waitable: has_flag(args, "--waitable"),
        reflex_mode: ReflexMode::Off,
        overlay_enabled: false,
    }
}

/// Does `limit` stay and keep the heartbeat going? Only while it limits something.
pub fn holds(args: &Vec<String>, cfg: &RuntimeConfig) -> (hold: bool)
    ensures
        hold == (cfg.enabled && flagged(words(args@), "--hold"@)),
{
    cfg.enabled && has_flag(args, "--hold")
}

/// The settings that `limit` leaves behind when it stops holding.
pub fn released(cfg: &RuntimeConfig) -> (off: RuntimeConfig)
    ensures
        off == (RuntimeConfig { enabled: false, ..*cfg }),
{
    let mut off = *cfg;
    off.enabled = false;
    off
}

/// The settings under which `tune` measures the game unpaced.
pub fn tune_baseline() -> (cfg: RuntimeConfig)
    ensures
        cfg == (RuntimeConfig {
            enabled: false,
            mode: PacerMode::Bypass,
            target_fps: 0,
            refresh_hz: 0,
            vsync_override: false,
            force_waitable: false,
            reflex_mode: ReflexMode::Off,
            overlay_enabled: false,
        }),
{
    RuntimeConfig {
        enabled: false,
        mode: PacerMode::Bypass,
        target_fps: 0,
        refresh_hz: 0,
        vsync_override: false,
        force_waitable: false,
        reflex_mode: ReflexMode::Off,
        overlay_enabled: false,
    }
}

/// The settings under which `tune` measures the game paced.
pub fn tune_paced(refresh_hz: i64) -> (cfg: RuntimeConfig)
    ensures
        cfg == (RuntimeConfig {
            enabled: true,
            mode: PacerMode::FixedVsync,
            target_fps: 60_000_000,
            refresh_hz,
            vsync_override: true,
            force_waitable: false,
            reflex_mode: ReflexMode::Off,
            overlay_enabled: false,
        }),
{
    RuntimeConfig {
        enabled: true,
        mode: PacerMode::FixedVsync,
        target_fps: 60_000_000,
        refresh_hz,
        vsync_override: true,
        force_waitable: false,
        reflex_mode: ReflexMode::Off,
        overlay_enabled: false,
    }
}

/// The settings that `tune` applies once a recommendation is there.
pub fn tuned(
    mode: PacerMode,
    target_fps: i64,
    refresh_hz: i64,
    vsync_override: bool,
) -> (cfg: RuntimeConfig)
    ensures
        cfg == (RuntimeConfig {
            enabled: true,
            mode,
            target_fps,
            refresh_hz,
            vsync_override,
            force_waitable: false,
            reflex_mode: ReflexMode::Off,
            overlay_enabled: false,
        }),
{
    RuntimeConfig {
        enabled: true,
        mode,
        target_fps,
        refresh_hz,
        vsync_override,
        force_waitable: false,
        reflex_mode: ReflexMode::Off,
        overlay_enabled: false,
    }
}

/// What the display and the swapchain can do.
#[derive(Debug, Clone, Copy, PartialEq, Eq, Structural)]
pub struct SystemCapabilities {
    pub has_flip_model: bool,
    pub monitor_vrr_capable: bool,
    pub monitor_refresh_hz: i64,
    pub is_exclusive_fullscreen: bool,
}

/// What the user asks for.
#[derive(Debug, Clone, Copy, PartialEq, Eq, Structural)]
pub struct UserPreferences {
    pub target_fps: i64,
    pub prefer_vrr: bool,
    pub prefer_lowest_latency: bool,
    pub allow_vsync_override: bool,
}

/// The capabilities that `optimize-config` is told of.
pub fn capabilities(args: &Vec<String>, refresh_hz: i64) -> (c: SystemCapabilities)
    ensures
        c == (SystemCapabilities {
            has_flip_model: !flagged(words(args@), "--no-flip"@),
            monitor_vrr_capable: !flagged(words(args@), "--no-vrr"@),
            monitor_refresh_hz: refresh_hz,
            is_exclusive_fullscreen: flagged(words(args@), "--fullscreen"@),
        }),
{
    SystemCapabilities {
        has_flip_model: !has_flag(args, "--no-flip"),
        monitor_vrr_capable: !has_flag(args, "--no-vrr"),
        monitor_refresh_hz: refresh_hz,
        is_exclusive_fullscreen: has_flag(args, "--fullscreen"),
    }
}

/// The preferences that `optimize-config` is told of: variable refresh on request, or
/// where the display has it and fixed vertical sync was not asked for.
pub fn preferences(
    args: &Vec<String>,
    target_fps: i64,
    caps: &SystemCapabilities,
) -> (p: UserPreferences)
    ensures
        p == (UserPreferences {
            target_fps,
            prefer_vrr: flagged(words(args@), "--vrr"@) || (!flagged(
                words(args@),
                "--fixed-vsync"@,
            ) && caps.monitor_vrr_capable),
            prefer_lowest_latency: true,
            allow_vsync_override: !flagged(words(args@), "--no-vsync-override"@),
        }),
{
    UserPreferences {
        target_fps,
        prefer_vrr: has_flag(args, "--vrr") || (!has_flag(args, "--fixed-vsync")
            && caps.monitor_vrr_capable),
        prefer_lowest_latency: true,
        allow_vsync_override: !has_flag(args, "--no-vsync-override"),
    }
}

/// Arguments in front of a flag do not change what it is given, unless they are the flag.
pub proof fn law_first_occurrence_counts(
    front: Seq<Seq<char>>,
    flag: Seq<char>,
    value: Seq<char>,
    rest: Seq<Seq<char>>,
)
    requires
        !front.contains(flag),
    ensures
        value_after(front + seq![flag, value] + rest, flag) == Some(value),
    decreases front.len(),
{
    let all = front + seq![flag, value] + rest;
    if front.len() == 0 {
        assert(all[0] == flag && all[1] == value);
    } else {
        assert(all[0] == front[0]);
        assert(front.contains(front[0]));
        assert(all.drop_first() =~= front.drop_first() + seq![flag, value] + rest);
        assert(!front.drop_first().contains(flag)) by {
            if front.drop_first().contains(flag) {
                let i = choose|i: int|
                    0 <= i < front.drop_first().len() && front.drop_first()[i] == flag;
                assert(front[i + 1] == flag);
                assert(front.contains(flag));
            }
        }
        law_first_occurrence_counts(front.drop_first(), flag, value, rest);
    }
}

/// `limit` without a rate, or with pacing turned off, disables the limiter.
pub proof fn law_limit_needs_a_rate_and_a_mode(
    args: Seq<Seq<char>>,
    target_fps: i64,
    refresh_hz: i64,
)
    ensures
        limit_settings(args, target_fps, refresh_hz).enabled <==> target_fps > 0 && value_after(
            args,
            "--mode"@,
        ) != Some("off"@),
{
    reveal_strlit("off");
    reveal_strlit("vrr");
    assert("off"@[0] == 'o' && "vrr"@[0] == 'v');
}

/// A flag that does not occur, or that nothing follows, has no value.
pub proof fn law_missing_flag_has_no_value(args: Seq<Seq<char>>, flag: Seq<char>)
    ensures
        !args.contains(flag) ==> value_after(args, flag) is None,
        value_after(args, flag) is Some ==> exists|i: int|
            0 <= i < args.len() - 1 && #[trigger] args[i] == flag && args[i + 1] == value_after(
                args,
                flag,
            )->0 && (forall|j: int| 0 <= j < i ==> #[trigger] args[j] != flag),
    decreases args.len(),
{
    if args.len() > 0 {
        let rest = args.drop_first();
        law_missing_flag_has_no_value(rest, flag);
        if rest.contains(flag) {
            let i = choose|i: int| 0 <= i < rest.len() && rest[i] == flag;
            assert(args[i + 1] == flag);
        }
        if args[0] == flag {
            assert(args.contains(flag));
        } else if value_after(args, flag) is Some {
            let i = choose|i: int|
                0 <= i < rest.len() - 1 && #[trigger] rest[i] == flag && rest[i + 1]
                    == value_after(rest, flag)->0 && (forall|j: int|
                    0 <= j < i ==> #[trigger] rest[j] != flag);
            assert(args[i + 1] == flag && args[i + 2] == rest[i + 1]);
            assert forall|j: int| 0 <= j < i + 1 implies #[trigger] args[j] != flag by {
                if j > 0 {
                    assert(args[j] == rest[j - 1]);
                }
            }
        }
    }
}

/// What `limit` publishes besides: the rate, the mode and the refresh rate as they were
/// given, vertical sync taken over unless that was forbidden, and the waitable swapchain
/// where it was asked for.
pub proof fn law_limit_publishes_what_was_asked(
    args: Seq<Seq<char>>,
    target_fps: i64,
    refresh_hz: i64,
)
    ensures
        ({
            let c = limit_settings(args, target_fps, refresh_hz);
            &&& c.target_fps == target_fps && c.refresh_hz == refresh_hz
            &&& c.vsync_override <==> !args.contains("--no-vsync-override"@)
            &&& c.force_waitable <==> args.contains("--waitable"@)
            &&& c.reflex_mode == ReflexMode::Off && !c.overlay_enabled
            &&& value_after(args, "--mode"@) == Some("vrr"@) ==> c.mode == PacerMode::Vrr
            &&& value_after(args, "--mode"@) is None ==> c.mode == PacerMode::FixedVsync
            &&& c.mode == PacerMode::Vrr ==> value_after(args, "--mode"@) == Some("vrr"@)
            &&& c.mode == PacerMode::Bypass ==> value_after(args, "--mode"@) == Some("off"@)
        }),
{
}

/// Every command has its word, and nothing else asks for it; help and version have more
/// than one. Any other word is unknown.
pub proof fn law_commands_have_their_words(word: Seq<char>)
    ensures
        named(word) == Command::Ui <==> word == "ui"@,
        named(word) == Command::List <==> word == "list"@,
        named(word) == Command::Inject <==> word == "inject"@,
        named(word) == Command::Watch <==> word == "watch"@,
        named(word) == Command::WatchEtw <==> word == "watch-etw"@,
        named(word) == Command::Limit <==> word == "limit"@,
        named(word) == Command::Bench <==> word == "bench"@,
        named(word) == Command::Tune <==> word == "tune"@,
        named(word) == Command::SolveCadence <==> word == "solve-cadence"@,
        named(word) == Command::OptimizeConfig <==> word == "optimize-config"@,
        named(word) == Command::Help <==> word == "--help"@ || word == "-h"@ || word == "help"@,
        named(word) == Command::Version <==> word == "--version"@ || word == "-V"@,
{
    reveal_strlit("ui");
    reveal_strlit("list");
    reveal_strlit("inject");
    reveal_strlit("watch");
    reveal_strlit("watch-etw");
    reveal_strlit("limit");
    reveal_strlit("bench");
    reveal_strlit("tune");
    reveal_strlit("solve-cadence");
    reveal_strlit("optimize-config");
    reveal_strlit("--help");
    reveal_strlit("-h");
    reveal_strlit("help");
    reveal_strlit("--version");
    reveal_strlit("-V");
    // Words of one length differ in their first or second character.
    assert("ui"@.len() == 2 && "-h"@.len() == 2 && "-V"@.len() == 2);
    assert("ui"@[1] == 'i' && "-h"@[1] == 'h' && "-V"@[1] == 'V');
    assert("list"@[0] == 'l' && "tune"@[0] == 't' && "help"@[0] == 'h');
    assert("watch"@[0] == 'w' && "limit"@[0] == 'l' && "bench"@[0] == 'b');
    assert("inject"@[0] == 'i' && "--help"@[0] == '-');
    assert("watch-etw"@[0] == 'w' && "--version"@[0] == '-');
    assert("list"@.len() == 4 && "inject"@.len() == 6 && "watch"@.len() == 5);
    assert("watch-etw"@.len() == 9 && "limit"@.len() == 5 && "bench"@.len() == 5);
    assert("tune"@.len() == 4 && "solve-cadence"@.len() == 13);
    assert("optimize-config"@.len() == 15 && "--help"@.len() == 6 && "help"@.len() == 4);
    assert("--version"@.len() == 9);
}

} // verus!
