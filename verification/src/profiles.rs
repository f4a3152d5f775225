//! The profiles of all games, by the name of their executable.
//!
//! Changes are written to disk by the caller, which is told when: the panel publishes
//! its settings on every move of a slider, so writes are at most one per second.

use vstd::prelude::*;
use vstd::string::*;

use crate::config::ReflexMode;
use crate::pacer::PacerMode;
use crate::text;
use crate::text::{comes_before, same};

verus! {

/// Least time between two writes caused by a change (1 s).
pub const SAVE_INTERVAL_NS: u64 = 1_000_000_000;

/// The settings of a game.
#[derive(Debug)]
pub struct GameProfile {
    /// Fixed-point frame rate cap.
    pub target_fps: i64,
    /// "vsync", "vrr" or "off".
    pub mode: String,
    pub vsync_override: bool,
    pub auto_attach: bool,
    pub force_waitable: bool,
    /// Fixed-point refresh rate set by the user; zero trusts the display.
    pub refresh_hz: i64,
    /// "off", "on" or "boost".
    pub reflex_mode: String,
    pub overlay_enabled: bool,
}

/// The contents of a [`GameProfile`].
pub struct ProfileModel {
    pub target_fps: i64,
    pub mode: Seq<char>,
    pub vsync_override: bool,
    pub auto_attach: bool,
    pub force_waitable: bool,
    pub refresh_hz: i64,
    pub reflex_mode: Seq<char>,
    pub overlay_enabled: bool,
}

impl View for GameProfile {
    type V = ProfileModel;

    open spec fn view(&self) -> ProfileModel {
        ProfileModel {
            target_fps: self.target_fps,
            mode: self.mode@,
            vsync_override: self.vsync_override,
            auto_attach: self.auto_attach,
            force_waitable: self.force_waitable,
            refresh_hz: self.refresh_hz,
            reflex_mode: self.reflex_mode@,
            overlay_enabled: self.overlay_enabled,
        }
    }
}

impl Clone for GameProfile {
    fn clone(&self) -> (p: GameProfile)
        ensures
            p@ == self@,
    {
        GameProfile {
            target_fps: self.target_fps,
            mode: self.mode.clone(),
            vsync_override: self.vsync_override,
            auto_attach: self.auto_attach,
            force_waitable: self.force_waitable,
            refresh_hz: self.refresh_hz,
            reflex_mode: self.reflex_mode.clone(),
            overlay_enabled: self.overlay_enabled,
        }
    }
}

/// The latency mode of a profile that names none.
pub fn default_reflex_mode() -> (s: String)
    ensures
        s@ == "off"@,
{
    String::from_str("off")
}

impl Default for GameProfile {
    fn default() -> (p: GameProfile)
        ensures
            p@ == (ProfileModel {
                target_fps: 60_000_000,
                mode: "vsync"@,
                vsync_override: true,
                auto_attach: false,
                force_waitable: false,
                refresh_hz: 0,
                reflex_mode: "off"@,
                overlay_enabled: false,
            }),
    {
        GameProfile {
            target_fps: 60_000_000,
            mode: String::from_str("vsync"),
            vsync_override: true,
            auto_attach: false,
            force_waitable: false,
            refresh_hz: 0,
            reflex_mode: default_reflex_mode(),
            overlay_enabled: false,
        }
    }
}

/// The pacing mode that a word of a profile stands for.
pub open spec fn mode_of(word: Seq<char>) -> PacerMode {
    if word == "vrr"@ {
        PacerMode::Vrr
    } else if word == "off"@ {
        PacerMode::Bypass
    } else {
        PacerMode::FixedVsync
    }
}

/// The pacing mode that a word of a profile stands for; fixed vertical sync unless it
/// says otherwise.
pub fn parse_mode(word: &str) -> (mode: PacerMode)
    ensures
        mode == mode_of(word@),
{
    if same(word, "vrr") {
        PacerMode::Vrr
    } else if same(word, "off") {
        PacerMode::Bypass
    } else {
        PacerMode::FixedVsync
    }
}

/// The word for a pacing mode.
pub open spec fn mode_word_of(mode: PacerMode) -> Seq<char> {
    match mode {
        PacerMode::Vrr => "vrr"@,
        PacerMode::Bypass => "off"@,
        PacerMode::FixedVsync => "vsync"@,
    }
}

/// The word for a pacing mode.
pub fn mode_word(mode: PacerMode) -> (word: String)
    ensures
        word@ == mode_word_of(mode),
{
    match mode {
        PacerMode::Vrr => String::from_str("vrr"),
        PacerMode::Bypass => String::from_str("off"),
        PacerMode::FixedVsync => String::from_str("vsync"),
    }
}

/// The latency mode that a word of a profile stands for.
pub open spec fn reflex_of(word: Seq<char>) -> ReflexMode {
    if word == "boost"@ {
        ReflexMode::Boost
    } else if word == "on"@ {
        ReflexMode::On
    } else {
        ReflexMode::Off
    }
}

/// The latency mode that a word of a profile stands for; off unless it says otherwise.
pub fn parse_reflex(word: &str) -> (mode: ReflexMode)
    ensures
        mode == reflex_of(word@),
{
    if same(word, "boost") {
        ReflexMode::Boost
    } else if same(word, "on") {
        ReflexMode::On
    } else {
        ReflexMode::Off
    }
}

/// The word for a latency mode.
pub open spec fn reflex_word_of(mode: ReflexMode) -> Seq<char> {
    match mode {
        ReflexMode::Off => "off"@,
        ReflexMode::On => "on"@,
        ReflexMode::Boost => "boost"@,
    }
}

/// The word for a latency mode.
pub fn reflex_word(mode: ReflexMode) -> (word: String)
    ensures
        word@ == reflex_word_of(mode),
{
    match mode {
        ReflexMode::Off => String::from_str("off"),
        ReflexMode::On => String::from_str("on"),
        ReflexMode::Boost => String::from_str("boost"),
    }
}

/// The words of a profile are read back as the modes they were written for.
pub proof fn law_words_read_back(mode: PacerMode, reflex: ReflexMode)
    ensures
        mode_of(mode_word_of(mode)) == mode,
        reflex_of(reflex_word_of(reflex)) == reflex,
{
    reveal_strlit("vrr");
    reveal_strlit("off");
    reveal_strlit("vsync");
    reveal_strlit("on");
    reveal_strlit("boost");
    assert("vsync"@.len() == 5 && "vrr"@.len() == 3 && "off"@.len() == 3 && "on"@.len() == 2);
    assert("vrr"@[0] == 'v' && "off"@[0] == 'o' && "boost"@.len() == 5);
}

/// A game and its profile.
#[derive(Debug)]
pub struct Entry {
    pub exe: String,
    pub profile: GameProfile,
}

/// Entries in the order of their names, none twice.
pub open spec fn in_order(s: Seq<Entry>) -> bool {
    forall|i: int, j: int|
        0 <= i < j < s.len() ==> text::precedes(#[trigger] s[i].exe@, #[trigger] s[j].exe@)
}

/// The entry of a game.
pub open spec fn holds(s: Seq<Entry>, exe: Seq<char>) -> bool {
    exists|i: int| 0 <= i < s.len() && (#[trigger] s[i]).exe@ == exe
}

pub open spec fn place(s: Seq<Entry>, exe: Seq<char>) -> int {
    choose|i: int| 0 <= i < s.len() && (#[trigger] s[i]).exe@ == exe
}

/// The profiles as a map from names.
pub open spec fn as_map(s: Seq<Entry>) -> Map<Seq<char>, ProfileModel> {
    Map::new(|exe: Seq<char>| holds(s, exe), |exe: Seq<char>| s[place(s, exe)].profile@)
}

proof fn lemma_at(s: Seq<Entry>, i: int)
    requires
        in_order(s),
        0 <= i < s.len(),
    ensures
        holds(s, s[i].exe@),
        place(s, s[i].exe@) == i,
        as_map(s).contains_key(s[i].exe@),
        as_map(s)[s[i].exe@] == s[i].profile@,
{
    let k = place(s, s[i].exe@);
    assert(s[i].exe@ == s[i].exe@);
    assert(0 <= k < s.len() && s[k].exe@ == s[i].exe@);
    text::lemma_order(s[i].exe@, s[i].exe@, s[i].exe@);
    if k < i {
        assert(text::precedes(s[k].exe@, s[i].exe@));
    } else if i < k {
        assert(text::precedes(s[i].exe@, s[k].exe@));
    }
}

/// The state of [`Profiles`].
#[verifier::ext_equal]
pub struct ProfilesModel {
    pub games: Map<Seq<char>, ProfileModel>,
    /// There are changes that were not written.
    pub dirty: bool,
    pub last_save: u64,
}

/// The profiles of all games.
#[derive(Debug)]
pub struct Profiles {
    pub games: Vec<Entry>,
    pub dirty: bool,
    pub last_save_ns: u64,
}

impl View for Profiles {
    type V = ProfilesModel;

    open spec fn view(&self) -> ProfilesModel {
        ProfilesModel {
            games: as_map(self.games@),
            dirty: self.dirty,
            last_save: self.last_save_ns,
        }
    }
}

impl Profiles {
    pub open spec fn wf(&self) -> bool {
        in_order(self.games@)
    }

    /// No profiles, as of now.
    pub fn new(now_ns: u64) -> (p: Profiles)
        ensures
            p.wf(),
            p@ == (ProfilesModel { games: Map::empty(), dirty: false, last_save: now_ns }),
    {
        let p = Profiles { games: Vec::new(), dirty: false, last_save_ns: now_ns };
        assert(p@.games =~= Map::<Seq<char>, ProfileModel>::empty());
        p
    }

    /// The first entry whose name is not before `exe`.
    fn find(&self, exe: &str) -> (i: usize)
        requires
            self.wf(),
        ensures
            i <= self.games@.len(),
            forall|j: int| 0 <= j < i ==> text::precedes((#[trigger] self.games@[j]).exe@, exe@),
            forall|j: int|
                i <= j < self.games@.len() ==> !text::precedes(
                    (#[trigger] self.games@[j]).exe@,
                    exe@,
                ),
    {
        let mut i: usize = 0;
        while i < self.games.len() && comes_before(self.games[i].exe.as_str(), exe)
            invariant
                i <= self.games@.len(),
                forall|j: int|
                    0 <= j < i ==> text::precedes((#[trigger] self.games@[j]).exe@, exe@),
            decreases self.games@.len() - i,
        {
            i = i + 1;
        }
        proof {
            assert forall|j: int| i <= j < self.games@.len() implies !text::precedes(
                (#[trigger] self.games@[j]).exe@,
                exe@,
            ) by {
                let a = self.games@[i as int].exe@;
                let b = self.games@[j].exe@;
                text::lemma_order(a, b, exe@);
            }
        }
        i
    }

    proof fn lemma_absent(s: Seq<Entry>, exe: Seq<char>, i: int)
        requires
            in_order(s),
            0 <= i <= s.len(),
            forall|j: int| 0 <= j < i ==> text::precedes((#[trigger] s[j]).exe@, exe),
            forall|j: int| i <= j < s.len() ==> !text::precedes((#[trigger] s[j]).exe@, exe),
            i < s.len() ==> s[i].exe@ != exe,
        ensures
            !holds(s, exe),
            forall|j: int| i <= j < s.len() ==> text::precedes(exe, (#[trigger] s[j]).exe@),
    {
        assert forall|j: int| i <= j < s.len() implies text::precedes(exe, (#[trigger] s[j]).exe@) by {
            text::lemma_order(exe, s[i].exe@, s[j].exe@);
            text::lemma_order(exe, s[j].exe@, exe);
            if i < j {
                assert(text::precedes(s[i].exe@, s[j].exe@));
            }
        }
        text::lemma_order(exe, exe, exe);
        assert forall|j: int| 0 <= j < s.len() implies (#[trigger] s[j]).exe@ != exe by {
            if j >= i {
                assert(text::precedes(exe, s[j].exe@));
            }
        }
    }

    /// The profile of a game.
    pub fn get(&self, exe: &str) -> (p: Option<&GameProfile>)
        requires
            self.wf(),
        ensures
            p is Some == self@.games.contains_key(exe@),
            p is Some ==> (p->0)@ == self@.games[exe@],
    {
        let i: usize = self.find(exe);
        if i < self.games.len() && same(self.games[i].exe.as_str(), exe) {
            proof {
                lemma_at(self.games@, i as int);
            }
            Some(&self.games[i].profile)
        } else {
            proof {
                Profiles::lemma_absent(self.games@, exe@, i as int);
            }
            None
        }
    }

    fn put(&mut self, exe: &str, profile: GameProfile)
        requires
            old(self).wf(),
        ensures
            final(self).wf(),
            final(self)@ == (ProfilesModel {
                games: old(self)@.games.insert(exe@, profile@),
                ..old(self)@
            }),
    {
        let i: usize = self.find(exe);
        let ghost s = self.games@;
        let entry = Entry { exe: String::from_str(exe), profile };
        let ghost model = entry.profile@;
        if i < self.games.len() && same(self.games[i].exe.as_str(), exe) {
            self.games.set(i, entry);
            proof {
                let t = self.games@;
                assert(in_order(t)) by {
                    assert forall|a: int, b: int| 0 <= a < b < t.len() implies text::precedes(
                        #[trigger] t[a].exe@,
                        #[trigger] t[b].exe@,
                    ) by {
                        assert(t[a].exe@ == s[a].exe@);
                        assert(t[b].exe@ == s[b].exe@);
                    }
                }
                lemma_replaced(s, t, i as int, exe@, model);
            }
        } else {
            proof {
                Profiles::lemma_absent(s, exe@, i as int);
            }
            self.games.insert(i, entry);
            proof {
                lemma_inserted(s, self.games@, i as int, exe@, model);
            }
        }
        assert(self@.games =~= old(self)@.games.insert(exe@, model));
    }
}

proof fn lemma_replaced(s: Seq<Entry>, t: Seq<Entry>, i: int, exe: Seq<char>, model: ProfileModel)
    requires
        in_order(s),
        in_order(t),
        0 <= i < s.len(),
        s.len() == t.len(),
        s[i].exe@ == exe,
        t[i].exe@ == exe,
        t[i].profile@ == model,
        forall|j: int| 0 <= j < s.len() && j != i ==> t[j] == s[j],
    ensures
        as_map(t) == as_map(s).insert(exe, model),
{
    lemma_at(s, i);
    lemma_at(t, i);
    assert forall|k: Seq<char>| holds(t, k) == holds(s, k) by {
        if holds(s, k) {
            let j = place(s, k);
            assert(t[j].exe@ == k);
        }
        if holds(t, k) {
            let j = place(t, k);
            assert(s[j].exe@ == k);
        }
    }
    assert forall|k: Seq<char>| holds(s, k) && k != exe implies as_map(t)[k] == as_map(s)[k] by {
        let j = place(s, k);
        assert(s[j].exe@ == k);
        lemma_at(s, j);
        lemma_at(t, j);
    }
    assert(as_map(t) =~= as_map(s).insert(exe, model));
}

proof fn lemma_inserted(s: Seq<Entry>, t: Seq<Entry>, i: int, exe: Seq<char>, model: ProfileModel)
    requires
        in_order(s),
        0 <= i <= s.len(),
        t.len() == s.len() + 1,
        t[i].exe@ == exe,
        t[i].profile@ == model,
        forall|j: int| 0 <= j < i ==> t[j] == s[j],
        forall|j: int| i < j < t.len() ==> t[j] == s[j - 1],
        forall|j: int| 0 <= j < i ==> text::precedes((#[trigger] s[j]).exe@, exe),
        forall|j: int| i <= j < s.len() ==> text::precedes(exe, (#[trigger] s[j]).exe@),
        !holds(s, exe),
    ensures
        in_order(t),
        as_map(t) == as_map(s).insert(exe, model),
{
    assert forall|a: int, b: int| 0 <= a < b < t.len() implies text::precedes(
        #[trigger] t[a].exe@,
        #[trigger] t[b].exe@,
    ) by {
        let sa = if a < i {
            a
        } else {
            a - 1
        };
        let sb = if b < i {
            b
        } else {
            b - 1
        };
        if a != i {
            assert(t[a] == s[sa]);
        }
        if b != i {
            assert(t[b] == s[sb]);
        }
        if a == i {
            assert(text::precedes(exe, s[sb].exe@));
        } else if b == i {
            assert(text::precedes(s[sa].exe@, exe));
        }
    }
    lemma_at(t, i);
    assert forall|k: Seq<char>| holds(t, k) == (holds(s, k) || k == exe) by {
        if holds(s, k) {
            let j = place(s, k);
            assert(s[j].exe@ == k);
            if j < i {
                assert(t[j].exe@ == k);
            } else {
                assert(t[j + 1] == s[j]);
                assert(t[j + 1].exe@ == k);
            }
        }
        if holds(t, k) && k != exe {
            let j = place(t, k);
            assert(t[j].exe@ == k);
            if j < i {
                assert(s[j].exe@ == k);
            } else {
                assert(t[j] == s[j - 1]);
                assert(s[j - 1].exe@ == k);
            }
        }
    }
    assert forall|k: Seq<char>| holds(s, k) implies as_map(t)[k] == as_map(s)[k] by {
        let j = place(s, k);
        assert(s[j].exe@ == k);
        lemma_at(s, j);
        if j < i {
            lemma_at(t, j);
        } else {
            assert(t[j + 1] == s[j]);
            lemma_at(t, j + 1);
        }
    }
    assert(as_map(t) =~= as_map(s).insert(exe, model));
}

/// An entry that was taken out.
proof fn lemma_removed(s: Seq<Entry>, t: Seq<Entry>, i: int)
    requires
        in_order(s),
        0 <= i < s.len(),
        t == s.remove(i),
    ensures
        in_order(t),
        as_map(t) == as_map(s).remove(s[i].exe@),
{
    let exe = s[i].exe@;
    assert forall|a: int, b: int| 0 <= a < b < t.len() implies text::precedes(
        #[trigger] t[a].exe@,
        #[trigger] t[b].exe@,
    ) by {
        let sa = if a < i {
            a
        } else {
            a + 1
        };
        let sb = if b < i {
            b
        } else {
            b + 1
        };
        assert(t[a] == s[sa] && t[b] == s[sb]);
    }
    assert forall|k: Seq<char>| holds(t, k) == (holds(s, k) && k != exe) by {
        if holds(s, k) && k != exe {
            let j = place(s, k);
            assert(s[j].exe@ == k);
            if j < i {
                assert(t[j].exe@ == k);
            } else {
                assert(t[j - 1].exe@ == k);
            }
        }
        if holds(t, k) {
            let j = place(t, k);
            assert(t[j].exe@ == k);
            let sj = if j < i {
                j
            } else {
                j + 1
            };
            assert(s[sj].exe@ == k);
            lemma_at(s, sj);
            lemma_at(s, i);
        }
    }
    assert forall|k: Seq<char>| holds(t, k) implies as_map(t)[k] == as_map(s)[k] by {
        let j = place(t, k);
        assert(t[j].exe@ == k);
        lemma_at(t, j);
        if j < i {
            lemma_at(s, j);
        } else {
            lemma_at(s, j + 1);
        }
    }
    assert(as_map(t) =~= as_map(s).remove(exe));
}

/// Profiles after the entries of a file were merged into them, one after the other.
pub open spec fn merged(
    games: Map<Seq<char>, ProfileModel>,
    entries: Seq<Entry>,
) -> Map<Seq<char>, ProfileModel>
    decreases entries.len(),
{
    if entries.len() == 0 {
        games
    } else {
        merged(games, entries.drop_last()).insert(entries.last().exe@, entries.last().profile@)
    }
}

/// Is a write due at an instant?
pub open spec fn write_due(p: ProfilesModel, now: u64) -> bool {
    p.dirty && now - p.last_save >= SAVE_INTERVAL_NS
}

/// The state once everything was written.
pub open spec fn written(p: ProfilesModel, now: u64) -> ProfilesModel {
    ProfilesModel { dirty: false, last_save: now, ..p }
}

/// The state after a check for a due write.
pub open spec fn checked(p: ProfilesModel, now: u64) -> ProfilesModel {
    if write_due(p, now) {
        written(p, now)
    } else {
        p
    }
}

/// The state after a forced write.
pub open spec fn forced(p: ProfilesModel, now: u64) -> ProfilesModel {
    if p.dirty {
        written(p, now)
    } else {
        p
    }
}

/// The state after a profile was stored.
pub open spec fn stored(
    p: ProfilesModel,
    exe: Seq<char>,
    profile: ProfileModel,
    now: u64,
) -> ProfilesModel {
    checked(ProfilesModel { games: p.games.insert(exe, profile), dirty: true, ..p }, now)
}

impl Profiles {
    /// Records that everything was written at `now_ns`.
    fn saved(&mut self, now_ns: u64)
        ensures
            final(self).games == old(self).games,
            final(self)@ == written(old(self)@, now_ns),
    {
        self.dirty = false;
        self.last_save_ns = now_ns;
    }

    /// Takes pending changes if the last write is at least a second old. When the result
    /// is true the caller writes all profiles.
    pub fn flush_due(&mut self, now_ns: u64) -> (write: bool)
        requires
            old(self).wf(),
        ensures
            final(self).wf(),
            write == write_due(old(self)@, now_ns),
            final(self)@ == checked(old(self)@, now_ns),
    {
        let due = self.dirty && now_ns >= self.last_save_ns && now_ns - self.last_save_ns
            >= SAVE_INTERVAL_NS;
        if due {
            self.saved(now_ns);
        }
        due
    }

    /// Takes pending changes at once. When the result is true the caller writes all
    /// profiles.
    pub fn flush(&mut self, now_ns: u64) -> (write: bool)
        requires
            old(self).wf(),
        ensures
            final(self).wf(),
            write == old(self)@.dirty,
            final(self)@ == forced(old(self)@, now_ns),
    {
        let pending = self.dirty;
        if pending {
            self.saved(now_ns);
        }
        pending
    }

    /// Stores the profile of a game. When the result is true the caller writes all
    /// profiles.
    pub fn set(&mut self, exe: &str, profile: GameProfile, now_ns: u64) -> (write: bool)
        requires
            old(self).wf(),
        ensures
            final(self).wf(),
            write == (now_ns - old(self)@.last_save >= SAVE_INTERVAL_NS),
            final(self)@ == stored(old(self)@, exe@, profile@, now_ns),
    {
        self.put(exe, profile);
        self.dirty = true;
        self.flush_due(now_ns)
    }

    /// Removes the profile of a game, if there is one. When the result is true the
    /// caller writes all profiles.
    pub fn remove(&mut self, exe: &str, now_ns: u64) -> (removed: bool)
        requires
            old(self).wf(),
        ensures
            final(self).wf(),
            removed == old(self)@.games.contains_key(exe@),
            removed ==> final(self)@ == (ProfilesModel {
                games: old(self)@.games.remove(exe@),
                dirty: false,
                last_save: now_ns,
            }),
            !removed ==> final(self)@ == old(self)@,
    {
        let i: usize = self.find(exe);
        if i < self.games.len() && same(self.games[i].exe.as_str(), exe) {
            let ghost s = self.games@;
            proof {
                lemma_at(s, i as int);
            }
            self.games.remove(i);
            proof {
                lemma_removed(s, self.games@, i as int);
            }
            self.saved(now_ns);
            true
        } else {
            proof {
                Profiles::lemma_absent(self.games@, exe@, i as int);
            }
            false
        }
    }

    /// The profiles in the order of their names.
    pub fn list(&self) -> (entries: Vec<Entry>)
        requires
            self.wf(),
        ensures
            in_order(entries@),
            as_map(entries@) == self@.games,
    {
        let mut entries: Vec<Entry> = Vec::new();
        let mut i: usize = 0;
        while i < self.games.len()
            invariant
                i <= self.games@.len(),
                entries@.len() == i,
                forall|j: int|
                    0 <= j < i ==> (#[trigger] entries@[j]).exe@ == self.games@[j].exe@
                        && entries@[j].profile@ == self.games@[j].profile@,
            decreases self.games@.len() - i,
        {
            entries.push(
                Entry { exe: self.games[i].exe.clone(), profile: self.games[i].profile.clone() },
            );
            i = i + 1;
        }
        proof {
            lemma_same_contents(self.games@, entries@);
        }
        entries
    }

    /// All profiles.
    pub fn all_games(&self) -> (games: &Vec<Entry>)
        requires
            self.wf(),
        ensures
            in_order(games@),
            as_map(games@) == self@.games,
    {
        &self.games
    }

    /// Merges the profiles of a file; later entries replace earlier ones. The result is
    /// how many there were. The caller writes all profiles.
    pub fn import(&mut self, entries: &Vec<Entry>, now_ns: u64) -> (count: usize)
        requires
            old(self).wf(),
        ensures
            final(self).wf(),
            count == entries@.len(),
            final(self)@ == (ProfilesModel {
                games: merged(old(self)@.games, entries@),
                dirty: false,
                last_save: now_ns,
            }),
    {
        let mut i: usize = 0;
        assert(entries@.take(0) =~= Seq::<Entry>::empty());
        while i < entries.len()
            invariant
                i <= entries@.len(),
                self.wf(),
                self@.games == merged(old(self)@.games, entries@.take(i as int)),
            decreases entries@.len() - i,
        {
            self.put(entries[i].exe.as_str(), entries[i].profile.clone());
            proof {
                assert(entries@.take(i + 1).drop_last() =~= entries@.take(i as int));
            }
            i = i + 1;
        }
        assert(entries@.take(i as int) =~= entries@);
        self.saved(now_ns);
        i
    }

    /// The profiles read from a file.
    pub fn loaded(entries: &Vec<Entry>, now_ns: u64) -> (p: Profiles)
        ensures
            p.wf(),
            p@ == (ProfilesModel {
                games: merged(Map::empty(), entries@),
                dirty: false,
                last_save: now_ns,
            }),
    {
        let mut p = Profiles::new(now_ns);
        p.import(entries, now_ns);
        p
    }
}

proof fn lemma_same_contents(s: Seq<Entry>, t: Seq<Entry>)
    requires
        in_order(s),
        s.len() == t.len(),
        forall|j: int|
            0 <= j < s.len() ==> (#[trigger] t[j]).exe@ == s[j].exe@ && t[j].profile@
                == s[j].profile@,
    ensures
        in_order(t),
        as_map(t) == as_map(s),
{
    assert forall|a: int, b: int| 0 <= a < b < t.len() implies text::precedes(
        #[trigger] t[a].exe@,
        #[trigger] t[b].exe@,
    ) by {
        assert(text::precedes(s[a].exe@, s[b].exe@));
    }
    assert forall|k: Seq<char>| holds(t, k) == holds(s, k) by {
        if holds(s, k) {
            let j = place(s, k);
            assert(t[j].exe@ == k);
        }
        if holds(t, k) {
            let j = place(t, k);
            assert(t[j].exe@ == k);
            assert(s[j].exe@ == k);
        }
    }
    assert forall|k: Seq<char>| holds(s, k) implies as_map(t)[k] == as_map(s)[k] by {
        let j = place(s, k);
        assert(s[j].exe@ == k);
        lemma_at(s, j);
        assert(t[j].exe@ == k);
        lemma_at(t, j);
    }
    assert(as_map(t) =~= as_map(s));
}

/// A stored profile is what the game gets, and no other game's profile changes.
pub proof fn law_stored_profile_is_read_back(
    p: ProfilesModel,
    exe: Seq<char>,
    profile: ProfileModel,
    now: u64,
    other: Seq<char>,
)
    ensures
        stored(p, exe, profile, now).games.contains_key(exe),
        stored(p, exe, profile, now).games[exe] == profile,
        other != exe ==> stored(p, exe, profile, now).games.contains_key(other)
            == p.games.contains_key(other),
        other != exe && p.games.contains_key(other) ==> stored(p, exe, profile, now).games[other]
            == p.games[other],
{
}

/// An import replaces the profiles it names by the last entry for each, and keeps all
/// others.
pub proof fn law_import_merges(
    games: Map<Seq<char>, ProfileModel>,
    entries: Seq<Entry>,
    exe: Seq<char>,
)
    ensures
        merged(games, entries).contains_key(exe) == (games.contains_key(exe) || holds(
            entries,
            exe,
        )),
        !holds(entries, exe) && games.contains_key(exe) ==> merged(games, entries)[exe]
            == games[exe],
        forall|i: int|
            0 <= i < entries.len() && (#[trigger] entries[i]).exe@ == exe && (forall|j: int|
                i < j < entries.len() ==> (#[trigger] entries[j]).exe@ != exe) ==> merged(
                games,
                entries,
            )[exe] == entries[i].profile@,
    decreases entries.len(),
{
    if entries.len() > 0 {
        let rest = entries.drop_last();
        law_import_merges(games, rest, exe);
        let last = entries.len() - 1;
        assert(entries[last] == entries.last());
        assert(holds(entries, exe) == (holds(rest, exe) || entries.last().exe@ == exe)) by {
            if holds(rest, exe) {
                let j = place(rest, exe);
                assert(rest[j].exe@ == exe);
                assert(entries[j].exe@ == exe);
            }
            if holds(entries, exe) {
                let j = place(entries, exe);
                assert(entries[j].exe@ == exe);
                if j < last {
                    assert(rest[j].exe@ == exe);
                }
            }
        }
        assert forall|i: int|
            0 <= i < entries.len() && (#[trigger] entries[i]).exe@ == exe && (forall|j: int|
                i < j < entries.len() ==> (#[trigger] entries[j]).exe@ != exe) implies merged(
            games,
            entries,
        )[exe] == entries[i].profile@ by {
            if i < last {
                assert(entries[last].exe@ != exe);
                assert(rest[i].exe@ == exe);
                assert forall|j: int| i < j < rest.len() implies (#[trigger] rest[j]).exe@
                    != exe by {
                    assert(entries[j].exe@ != exe);
                }
            }
        }
    }
}

/// Reading back the list of all profiles gives the same profiles.
pub proof fn law_list_imports_to_itself(entries: Seq<Entry>)
    requires
        in_order(entries),
    ensures
        merged(Map::empty(), entries) == as_map(entries),
{
    assert forall|k: Seq<char>| merged(Map::empty(), entries).contains_key(k)
        == as_map(entries).contains_key(k) by {
        law_import_merges(Map::empty(), entries, k);
    }
    assert forall|k: Seq<char>| holds(entries, k) implies merged(Map::empty(), entries)[k]
        == as_map(entries)[k] by {
        law_import_merges(Map::empty(), entries, k);
        let i = place(entries, k);
        assert(entries[i].exe@ == k);
        lemma_at(entries, i);
        assert forall|j: int| i < j < entries.len() implies (#[trigger] entries[j]).exe@ != k by {
            lemma_at(entries, j);
        }
    }
    assert(merged(Map::empty(), entries) =~= as_map(entries));
}

/// After a write, changes within the next second are kept for later, and the first check
/// after it writes them.
pub proof fn law_writes_are_at_most_one_per_second(
    p: ProfilesModel,
    exe: Seq<char>,
    profile: ProfileModel,
    saved: u64,
    now: u64,
    later: u64,
)
    requires
        saved <= now < saved + SAVE_INTERVAL_NS <= later,
    ensures
        ({
            let q = stored(written(p, saved), exe, profile, now);
            &&& q.dirty
            &&& q.last_save == saved
            &&& !write_due(q, now)
            &&& write_due(q, later)
            &&& checked(q, later) == written(q, later)
        }),
{
}

} // verus!
