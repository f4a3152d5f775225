//! What holds of the panel's settings, profiles and searches as a whole.

use vstd::prelude::*;

use crate::gamepad::GamepadAction;
use crate::pacer::PacerMode;
use crate::panel;
use crate::panel::{PanelModel, Running, Settings};
use crate::profiles;
use crate::profiles::{ProfileModel, ProfilesModel};

verus! {

/// The game is told the settings as they are, and to pace unless pacing is off or there is
/// no rate to pace at.
pub proof fn law_game_is_told_the_settings(s: Settings)
    ensures
        ({
            let c = panel::config_of(s);
            &&& c.mode == s.mode && c.target_fps == s.target_fps && c.refresh_hz == s.refresh_hz
            &&& c.vsync_override == s.vsync_override && c.force_waitable == s.force_waitable
            &&& c.reflex_mode == s.reflex_mode && c.overlay_enabled == s.overlay_enabled
            &&& s.mode == PacerMode::Bypass ==> !c.enabled
            &&& s.target_fps <= 0 ==> !c.enabled
            &&& s.mode != PacerMode::Bypass && s.target_fps > 0 ==> c.enabled
        }),
{
}

/// A profile gives the settings back that it was made from, and two profiles of different
/// settings differ.
pub proof fn law_profiles_hold_the_settings(a: Settings, b: Settings)
    ensures
        panel::settings_of(panel::profile_of(a)) == a,
        a != b ==> panel::profile_of(a) != panel::profile_of(b),
        panel::profile_of(a).target_fps == a.target_fps,
        panel::profile_of(a).refresh_hz == a.refresh_hz,
        panel::profile_of(a).auto_attach == a.auto_attach,
        panel::profile_of(a).overlay_enabled == a.overlay_enabled,
        panel::profile_of(a).vsync_override == a.vsync_override,
        panel::profile_of(a).force_waitable == a.force_waitable,
{
    profiles::law_words_read_back(a.mode, a.reflex_mode);
    profiles::law_words_read_back(b.mode, b.reflex_mode);
}

/// A step of a controller moves the rate by that many frames per second, down to 10 and up
/// to 480, and changes no other setting.
pub proof fn law_steps_move_the_rate(m: PanelModel, step: i32, now: u64)
    ensures
        ({
            let up = panel::acted(m, GamepadAction::FpsUp(step), now).settings;
            let down = panel::acted(m, GamepadAction::FpsDown(step), now).settings;
            let raised = m.settings.target_fps + 1_000_000 * step;
            let lowered = m.settings.target_fps - 1_000_000 * step;
            &&& i64::MIN <= raised <= 480_000_000 ==> up.target_fps == raised
            &&& raised > 480_000_000 ==> up.target_fps == 480_000_000
            &&& 10_000_000 <= lowered <= i64::MAX ==> down.target_fps == lowered
            &&& lowered < 10_000_000 ==> down.target_fps == 10_000_000
            &&& up == (Settings { target_fps: up.target_fps, ..m.settings })
            &&& down == (Settings { target_fps: down.target_fps, ..m.settings })
        }),
{
}

/// The rates that a controller goes through.
pub open spec fn is_preset(rate: int) -> bool {
    ||| rate == 30_000_000
    ||| rate == 40_000_000
    ||| rate == 60_000_000
    ||| rate == 90_000_000
    ||| rate == 120_000_000
    ||| rate == 144_000_000
    ||| rate == 240_000_000
}

/// The next preset is the nearest of them that is more than half a frame away, and there is
/// none where no preset is.
pub proof fn law_next_preset_is_the_nearest(rate: i64)
    ensures
        panel::preset_above(rate as int) matches Some(up) ==> {
            &&& is_preset(up as int)
            &&& up > rate + 500_000
            &&& forall|p: int| #[trigger] is_preset(p) && p > rate + 500_000 ==> up <= p
        },
        panel::preset_below(rate as int) matches Some(down) ==> {
            &&& is_preset(down as int)
            &&& down < rate - 500_000
            &&& forall|p: int| #[trigger] is_preset(p) && p < rate - 500_000 ==> p <= down
        },
        panel::preset_above(rate as int) is None <==> (forall|p: int| #[trigger]
            is_preset(p) ==> p <= rate + 500_000),
        panel::preset_below(rate as int) is None <==> (forall|p: int| #[trigger]
            is_preset(p) ==> p >= rate - 500_000),
{
    assert(is_preset(240_000_000) && is_preset(30_000_000));
    if panel::preset_above(rate as int) is Some {
        assert(is_preset(panel::preset_above(rate as int)->0 as int));
    }
    if panel::preset_below(rate as int) is Some {
        assert(is_preset(panel::preset_below(rate as int)->0 as int));
    }
}

/// An action changes what it is for and nothing else: presets the rate, the limiter the
/// mode, auto-attach its flag and the big picture its own. To attach changes nothing yet.
pub proof fn law_actions_change_what_they_are_for(m: PanelModel, now: u64)
    ensures
        ({
            let next = panel::acted(m, GamepadAction::NextPreset, now);
            let prev = panel::acted(m, GamepadAction::PrevPreset, now);
            let limiter = panel::acted(m, GamepadAction::ToggleLimiter, now);
            let automatic = panel::acted(m, GamepadAction::ToggleAutoAttach, now);
            let big = panel::acted(m, GamepadAction::ToggleBigPicture, now);
            let up = panel::preset_above(m.settings.target_fps as int);
            let down = panel::preset_below(m.settings.target_fps as int);
            &&& next.settings == (Settings {
                target_fps: if up is Some {
                    up->0
                } else {
                    m.settings.target_fps
                },
                ..m.settings
            })
            &&& prev.settings == (Settings {
                target_fps: if down is Some {
                    down->0
                } else {
                    m.settings.target_fps
                },
                ..m.settings
            })
            &&& limiter.settings == (Settings { mode: limiter.settings.mode, ..m.settings })
            &&& limiter.settings.mode == PacerMode::Bypass <==> m.settings.mode
                != PacerMode::Bypass
            &&& automatic.settings == (Settings {
                auto_attach: !m.settings.auto_attach,
                ..m.settings
            })
            &&& big.big_picture != m.big_picture
            &&& big.settings == m.settings && big.profiles == m.profiles
            &&& panel::acted(m, GamepadAction::Attach, now) == m
        }),
{
}

/// Nothing that a controller does lets go of a game, picks another one or starts a search.
pub proof fn law_actions_keep_the_game(m: PanelModel, action: GamepadAction, now: u64)
    ensures
        ({
            let after = panel::acted(m, action, now);
            &&& after.exe == m.exe
            &&& after.attached == m.attached
            &&& after.mapped == m.mapped
            &&& after.pending == m.pending
            &&& after.windows == m.windows
            &&& after.selected == m.selected
            &&& after.last_scan == m.last_scan
        }),
{
}

/// Published settings are kept in the profile of the game, where there is one and its
/// region is mapped, and no other profile changes.
pub proof fn law_published_settings_are_kept(m: PanelModel, now: u64, other: Seq<char>)
    ensures
        ({
            let after = panel::published(m, now);
            &&& after.settings == m.settings
            &&& m.mapped && m.exe is Some ==> {
                &&& after.profiles.games.contains_key(m.exe->0)
                &&& panel::settings_of(after.profiles.games[m.exe->0]) == m.settings
            }
            &&& !m.mapped || m.exe is None ==> after == m
            &&& m.exe != Some(other) ==> {
                &&& after.profiles.games.contains_key(other) == m.profiles.games.contains_key(other)
                &&& m.profiles.games.contains_key(other) ==> after.profiles.games[other]
                    == m.profiles.games[other]
            }
        }),
{
    law_profiles_hold_the_settings(m.settings, m.settings);
}

/// A game that is attached to comes with the settings of its profile, or keeps those of the
/// panel where it has none; while another is attached, nothing changes but that the attempt
/// is over.
pub proof fn law_joined_game_brings_its_settings(
    m: PanelModel,
    exe: Option<Seq<char>>,
    now: u64,
)
    ensures
        ({
            let after = panel::joined(m, exe, now);
            &&& after.pending is None
            &&& after.attached
            &&& m.attached ==> after == (PanelModel { pending: None, ..m })
            &&& !m.attached ==> {
                let known = exe is Some && m.profiles.games.contains_key(exe->0);
                &&& after.mapped
                &&& after.exe == exe
                &&& known ==> after.settings == panel::settings_of(m.profiles.games[exe->0])
                &&& !known ==> after.settings == m.settings
                &&& exe is Some ==> after.profiles.games.contains_key(exe->0)
                    && panel::settings_of(after.profiles.games[exe->0]) == after.settings
            }
        }),
{
    let s = panel::joined(m, exe, now).settings;
    law_profiles_hold_the_settings(s, s);
}

/// A flipped auto-attach flag stands in the profile of the game, whose other settings stay
/// as they were stored.
pub proof fn law_auto_attach_is_stored(m: PanelModel, now: u64)
    requires
        m.exe is Some,
    ensures
        ({
            let after = panel::auto_attach_flipped(m, now);
            let exe = m.exe->0;
            &&& after.profiles.games.contains_key(exe)
            &&& after.profiles.games[exe].auto_attach == !m.settings.auto_attach
            &&& m.profiles.games.contains_key(exe) ==> after.profiles.games[exe] == (ProfileModel {
                auto_attach: !m.settings.auto_attach,
                ..m.profiles.games[exe]
            })
            &&& !m.profiles.games.contains_key(exe) ==> after.profiles.games[exe].target_fps
                == 60_000_000 && after.profiles.games[exe].mode == "vsync"@
        }),
{
}

/// A search for a game is due where one is to be attached to by itself, none is attached
/// yet, and the last search was two seconds ago.
pub proof fn law_searches_are_two_seconds_apart(m: PanelModel, now: u64)
    ensures
        !m.settings.auto_attach || m.attached ==> !panel::scan_due(m, now),
        m.settings.auto_attach && !m.attached && m.last_scan is None ==> panel::scan_due(m, now),
        m.settings.auto_attach && !m.attached && m.last_scan is Some ==> (panel::scan_due(m, now)
            <==> now >= m.last_scan->0 + 2_000_000_000),
{
}

/// The process that is attached to by itself is the first whose profile asks for it; where
/// none does, there is none.
pub proof fn law_first_wanted_game_is_taken(p: ProfilesModel, running: Seq<Running>, n: nat)
    requires
        n <= running.len(),
    ensures
        panel::first_wanted(p, running, n) is None <==> (forall|i: int|
            0 <= i < n ==> !asks_for_it(p, #[trigger] running[i])),
        panel::first_wanted(p, running, n) is Some ==> exists|i: int|
            0 <= i < n && asks_for_it(p, #[trigger] running[i]) && running[i].pid
                == panel::first_wanted(p, running, n)->0 && (forall|j: int|
                0 <= j < i ==> !asks_for_it(p, #[trigger] running[j])),
    decreases n,
{
    if n > 0 {
        law_first_wanted_game_is_taken(p, running, (n - 1) as nat);
        if panel::first_wanted(p, running, (n - 1) as nat) is None {
            let last = running[n - 1];
            assert(asks_for_it(p, last) == panel::wanted(p, panel::text_of(last.exe)));
        } else {
            let i = choose|i: int|
                0 <= i < n - 1 && asks_for_it(p, #[trigger] running[i]) && running[i].pid
                    == panel::first_wanted(p, running, (n - 1) as nat)->0 && (forall|j: int|
                    0 <= j < i ==> !asks_for_it(p, #[trigger] running[j]));
            assert(asks_for_it(p, running[i]));
        }
    }
}

/// A running process whose profile says that it is attached to by itself.
pub open spec fn asks_for_it(p: ProfilesModel, r: Running) -> bool {
    r.exe is Some && p.games.contains_key(r.exe->0@) && p.games[r.exe->0@].auto_attach
}

/// A name gets the ending of a program unless it has it; nothing is no name.
pub proof fn law_profile_names_end_like_programs(name: Seq<char>)
    ensures
        name.len() == 0 ==> panel::profile_name_of(name) is None,
        name.len() > 0 ==> {
            let exe = panel::profile_name_of(name);
            &&& exe is Some
            &&& exe->0.len() >= 4
            &&& exe->0.skip(exe->0.len() - 4) == ".exe"@
            &&& exe->0.take(name.len() as int) == name
            &&& exe->0.len() == name.len() || exe->0.len() == name.len() + 4
            &&& panel::profile_name_of(exe->0) == exe
        },
{
    reveal_strlit(".exe");
    if name.len() > 0 {
        let exe = panel::profile_name_of(name)->0;
        assert(".exe"@.len() == 4);
        assert((name + ".exe"@).skip(name.len() as int) =~= ".exe"@);
        assert((name + ".exe"@).take(name.len() as int) =~= name);
        assert(name.take(name.len() as int) =~= name);
    }
}

/// Changes are written where there are any and the last write was a second ago; what is
/// written is no longer a change, and no profile is lost by it.
pub proof fn law_changes_are_written_after_a_second(p: ProfilesModel, now: u64)
    ensures
        profiles::write_due(p, now) <==> p.dirty && now >= p.last_save + 1_000_000_000,
        profiles::write_due(p, now) ==> !profiles::checked(p, now).dirty && profiles::checked(
            p,
            now,
        ).last_save == now,
        !profiles::write_due(p, now) ==> profiles::checked(p, now) == p,
        p.dirty ==> !profiles::forced(p, now).dirty && profiles::forced(p, now).last_save == now,
        !p.dirty ==> profiles::forced(p, now) == p,
        profiles::checked(p, now).games == p.games,
        profiles::forced(p, now).games == p.games,
{
}

/// A profile that is stored within a second of the last write waits to be written; any
/// other one is written at once.
pub proof fn law_stored_profile_is_written_in_time(
    p: ProfilesModel,
    exe: Seq<char>,
    profile: ProfileModel,
    now: u64,
)
    ensures
        ({
            let q = profiles::stored(p, exe, profile, now);
            &&& now < p.last_save + 1_000_000_000 ==> q.dirty && q.last_save == p.last_save
            &&& now >= p.last_save + 1_000_000_000 ==> !q.dirty && q.last_save == now
        }),
{
}

/// Words that no mode has are taken for fixed vertical sync, and for no latency mode.
pub proof fn law_unknown_words_are_the_usual(word: Seq<char>)
    ensures
        profiles::mode_of(word) == PacerMode::Vrr <==> word == "vrr"@,
        profiles::mode_of(word) == PacerMode::Bypass <==> word == "off"@ && word != "vrr"@,
        profiles::reflex_of(word) == crate::config::ReflexMode::Boost <==> word == "boost"@,
        profiles::reflex_of(word) == crate::config::ReflexMode::On <==> word == "on"@ && word
            != "boost"@,
        profiles::mode_word_of(PacerMode::FixedVsync) == "vsync"@,
        profiles::reflex_word_of(crate::config::ReflexMode::Off) == "off"@,
{
}

/// What is written when changes are published: only where the region is mapped, and the
/// settings that are in force then.
pub proof fn law_duties_follow_the_mapping(m: PanelModel, now: u64)
    ensures
        ({
            let d = panel::publishing(m, now);
            &&& !m.mapped ==> d.publish is None && !d.write
            &&& m.mapped ==> d.publish == Some(panel::config_of(m.settings))
            &&& d.write ==> m.mapped && m.exe is Some && now >= m.profiles.last_save
                + 1_000_000_000
            &&& m.mapped && m.exe is Some && now >= m.profiles.last_save + 1_000_000_000 ==> d.write
            &&& d.attach is None
        }),
        m.windows.len() == 0 ==> panel::picked(m) is None,
        0 <= m.selected < m.windows.len() ==> panel::picked(m) == Some(m.windows[m.selected].pid),
        m.selected >= m.windows.len() ==> panel::picked(m) is None,
{
}

/// A new profile comes under its name with what is usual, and no other one changes; where
/// there is one already, or no name, nothing does.
pub proof fn law_new_profile_is_the_usual(
    m: PanelModel,
    name: Seq<char>,
    now: u64,
    r: panel::Added,
    after: PanelModel,
    other: Seq<char>,
)
    requires
        panel::adds(m, name, now, r, after),
    ensures
        r is Nothing <==> name.len() == 0,
        r is Nothing || r is Exists ==> after == m,
        after.settings == m.settings,
        r is Done ==> {
            let exe = panel::profile_name_of(name)->0;
            &&& !m.profiles.games.contains_key(exe)
            &&& after.profiles.games.contains_key(exe)
            &&& after.profiles.games[exe].target_fps == 60_000_000
            &&& after.profiles.games[exe].mode == "vsync"@
            &&& after.profiles.games[exe].vsync_override
            &&& !after.profiles.games[exe].auto_attach
            &&& after.profiles.games[exe].reflex_mode == "off"@
            &&& other != exe ==> after.profiles.games.contains_key(other)
                == m.profiles.games.contains_key(other)
            &&& other != exe && m.profiles.games.contains_key(other)
                ==> after.profiles.games[other] == m.profiles.games[other]
        },
{
}

} // verus!
