//! What holds of the hooks and of the engine behind them as a whole.

use vstd::prelude::*;

use crate::config::RuntimeConfig;
use crate::engine;
use crate::engine::EngineModel;
use crate::fixed;
use crate::fixed::ONE;
use crate::hooks;
use crate::hooks::d3d9;
use crate::hooks::detour;
use crate::hooks::dxgi::{HudClock, PresentStart, SwapchainTracker};
use crate::hooks::vtable;
use crate::hooks::vtable::SavedSlot;
use crate::injector;
use crate::live_laws::same_time;
use crate::pacer::{PacerDecision, PacerMode, VBlankHint};

verus! {

/// The pacer works with the rate and the mode that were published, 60 frames per second
/// where there is no rate, with 0.3 ms of margin and twice the deviation on top, and takes
/// 15 and 10 parts in a hundred of what is new.
pub proof fn law_pacer_follows_the_published_settings(cfg: RuntimeConfig)
    ensures
        ({
            let p = engine::pacer_settings(cfg);
            &&& cfg.target_fps > 0 ==> p.target_fps == cfg.target_fps
            &&& cfg.target_fps <= 0 ==> p.target_fps == 60 * ONE
            &&& p.mode == cfg.mode
            &&& 1_000 * p.base_safety_margin_us == 300_000 * ONE
            &&& p.variance_multiplier == 2 * ONE
            &&& 100 * p.ema_alpha == 15 * ONE
            &&& 100 * p.deviation_beta == 10 * ONE
        }),
{
}

/// A refresh rate above 1 Hz that the user set replaces the display's, and nothing else of
/// what the display reports; without a report there is none to replace.
pub proof fn law_set_rate_replaces_the_reported(hint: Option<VBlankHint>, cfg: RuntimeConfig)
    ensures
        ({
            let h = engine::overridden(hint, cfg);
            &&& h is Some <==> hint is Some
            &&& h is Some ==> h->0.last_vblank_qpc == hint->0.last_vblank_qpc
            &&& h is Some && cfg.refresh_hz > 1_000_000 ==> h->0.refresh_hz == cfg.refresh_hz
            &&& h is Some && cfg.refresh_hz <= 1_000_000 ==> h->0.refresh_hz
                == hint->0.refresh_hz
        }),
{
}

/// New settings come into force with the next frame and leave what was learned as it is.
/// A frame that is not delayed is released when its present call returned; the release of
/// any other one is still to come. The settings are remembered.
pub proof fn law_engine_takes_settings_and_releases(
    m: EngineModel,
    end: i64,
    cfg: RuntimeConfig,
    hint: Option<VBlankHint>,
    d: PacerDecision,
)
    requires
        m.pacer.cfg == engine::pacer_settings(m.cfg),
        m.configured(cfg).decides(end as int, engine::overridden(hint, cfg), d),
    ensures
        ({
            let p = m.configured(cfg);
            let next = m.after(end as int, cfg, hint);
            &&& p.cfg == engine::pacer_settings(cfg)
            &&& p.freq == m.pacer.freq && p.frames == m.pacer.frames
            &&& p.ema_us == m.pacer.ema_us && p.dev_us == m.pacer.dev_us
            &&& p.last_release == m.pacer.last_release && p.last_target == m.pacer.last_target
            &&& p.last_index == m.pacer.last_index && p.hint_index == m.pacer.hint_index
            &&& p.hint_qpc == m.pacer.hint_qpc
            &&& p.acc_num == m.pacer.acc_num && p.acc_den == m.pacer.acc_den
            &&& next.cfg == cfg
            &&& next.logged == m.logged
            &&& next.pacer.cfg == engine::pacer_settings(cfg)
            &&& m.bypasses(end as int, cfg, hint) <==> d.stats.bypass
            &&& d.stats.bypass ==> next.pacer.last_release == end
            &&& !d.stats.bypass ==> next.pacer.last_release == m.pacer.last_release
            &&& !d.stats.bypass ==> next.pacer.last_target == d.target_tick_qpc
        }),
{
}

/// Presents are paced while the limiter is on and in a mode that paces.
pub proof fn law_paced_only_while_on(cfg: RuntimeConfig)
    ensures
        !cfg.enabled ==> !hooks::is_pacing(cfg),
        cfg.mode == PacerMode::Bypass ==> !hooks::is_pacing(cfg),
        cfg.enabled && cfg.mode == PacerMode::Vrr ==> hooks::is_pacing(cfg),
        cfg.enabled && cfg.mode == PacerMode::FixedVsync ==> hooks::is_pacing(cfg),
        hooks::published_state(true) == 1,
        hooks::published_state(false) == 2,
{
}

/// A paced present does not wait for the display where the user wants that and the
/// swapchain may tear or is in a window; one that may tear is told to. Exclusive fullscreen
/// without tearing waits as the game asked.
pub proof fn law_paced_present_does_not_wait(
    t: SwapchainTracker,
    start: PresentStart,
    sync_interval: u32,
    flags: u32,
    cfg: RuntimeConfig,
)
    requires
        start.pacing,
        cfg.vsync_override,
    ensures
        ({
            let args = t.args_of(start, sync_interval, flags, cfg);
            &&& t.caps.tearing || t.caps.windowed ==> args.0 == 0
            &&& t.caps.tearing ==> args.1 & 0x200 != 0 && args.1 & !0x200u32 == flags & !0x200u32
            &&& !t.caps.tearing ==> args.1 == flags
            &&& !t.caps.tearing && !t.caps.windowed ==> args.0 == sync_interval
        }),
{
    assert((flags | 0x200u32) & 0x200u32 != 0 && (flags | 0x200u32) & !0x200u32 == flags
        & !0x200u32) by (bit_vector);
}

/// The first swapchain that presents is followed while none is, and the queue of each is
/// limited once.
pub proof fn law_first_swapchain_is_followed(t: SwapchainTracker, this: u64)
    ensures
        t.active == 0 ==> t.followed(this) == this,
        t.active != 0 ==> t.followed(this) == t.active,
        !(SwapchainTracker { latency_chain: this, latency_tried: true, ..t }).latency_due(this),
        t.latency_chain != this ==> t.latency_due(this),
        !t.latency_tried ==> t.latency_due(this),
{
}

/// The frame time on the overlay is nine tenths of the last one and a tenth of the time
/// since the last present, which counts for 16.666 ms where there was none before.
pub proof fn law_overlay_time_is_smoothed(c: HudClock, now: i64, freq: i64)
    requires
        freq > 0,
    ensures
        ({
            let sample = c.sample_us(now, freq as int);
            let smooth = c.smoothed_us(now, freq as int);
            &&& 0 < c.last_present_qpc < now ==> same_time(
                sample,
                now - c.last_present_qpc,
                freq as int,
            )
            &&& !(0 < c.last_present_qpc < now) ==> sample == 16_666_000_000
            &&& -10 <= 2 * (10 * smooth - (9_000_000 * c.smooth_ft_us + sample)) <= 10
        }),
{
    let sample = c.sample_us(now, freq as int);
    fixed::lemma_nearest((now - c.last_present_qpc) * 1_000_000_000_000, freq as int);
    fixed::lemma_nearest(9 * c.smooth_ft_us * ONE + sample, 10);
}

/// Bytes in an image count from the lowest: a number is its first bytes and, 256 times as
/// much for each of those, the ones behind.
pub proof fn law_bytes_count_from_the_lowest(image: Seq<u8>, at: int, n: nat, m: nat)
    ensures
        d3d9::le_at(image, at, 0) == 0,
        d3d9::le_at(image, at, 1) == image[at],
        d3d9::le_at(image, at, n + m) == d3d9::le_at(image, at, n)
            + vstd::arithmetic::power::pow(256, n) * d3d9::le_at(image, at + n, m),
    decreases n,
{
    reveal_with_fuel(d3d9::le_at, 2);
    reveal(vstd::arithmetic::power::pow);
    if n > 0 {
        let k = (n - 1) as nat;
        law_bytes_count_from_the_lowest(image, at + 1, k, m);
        let p = vstd::arithmetic::power::pow(256, k);
        let v = d3d9::le_at(image, at + n, m);
        assert((k + m) as nat == (n + m - 1) as nat);
        assert(256 * (p * v) == (256 * p) * v) by (nonlinear_arith);
        assert(at + 1 + k == at + n);
    } else {
        let v = d3d9::le_at(image, at + n, m);
        assert(1 * v == v);
    }
}

/// An image is one by its mark, "MZ", and by the mark of the header that its bytes from 60
/// on point to; the size stands 56 bytes into that. Anything else is searched no further.
pub proof fn law_images_are_told_by_their_marks(image: Seq<u8>)
    ensures
        image.len() < 64 ==> d3d9::image_size(image) is None,
        image.len() >= 64 && !(image[0] == 0x4D && image[1] == 0x5A) ==> d3d9::image_size(
            image,
        ) is None,
        d3d9::image_size(image) is Some ==> {
            let opt = d3d9::le_at(image, 60, 4) + 24;
            &&& image[0] == 0x4D && image[1] == 0x5A
            &&& opt + 60 <= image.len()
            &&& image[opt + 1] == 0x02 && image[opt] == 0x0B || image[opt + 1] == 0x01
                && image[opt] == 0x0B
            &&& d3d9::image_size(image)->0 == d3d9::le_at(image, opt + 56, 4)
        },
        d3d9::image_size(image) is None ==> d3d9::search_limit(image) == 0,
        d3d9::search_limit(image) <= image.len(),
        d3d9::image_size(image) is Some && d3d9::image_size(image)->0 <= image.len()
            ==> d3d9::search_limit(image) == d3d9::image_size(image)->0,
        d3d9::image_size(image) is Some && d3d9::image_size(image)->0 > image.len()
            ==> d3d9::search_limit(image) == image.len(),
{
    reveal_with_fuel(d3d9::le_at, 3);
}

/// A relative jump leads from behind itself to its target, modulo 2^32.
pub proof fn law_relative_jump_leads_to_its_target(from: u32, target: u32)
    ensures
        ({
            let code = detour::jump_32(target - (from + 5));
            &&& code.len() == 5
            &&& code[0] == 0xE9
            &&& (from + 5 + detour::number_of(code.subrange(1, 5)) - target) % 0x1_0000_0000 == 0
        }),
{
    let d = target - (from + 5);
    let x = d % 0x1_0000_0000;
    let code = detour::jump_32(d);
    assert(code.subrange(1, 5) =~= detour::le_bytes(x, 4));
    detour::lemma_number_of_le_bytes(x, 4);
    reveal_with_fuel(vstd::arithmetic::power::pow, 5);
    assert(vstd::arithmetic::power::pow(256, 4) == 0x1_0000_0000);
}

/// An absolute jump is one through the address that follows it.
pub proof fn law_absolute_jump_goes_through_its_address(target: u64)
    ensures
        ({
            let code = detour::jump_64(target as int);
            &&& code.len() == 14
            &&& code[0] == 0xFF && code[1] == 0x25
            &&& code[2] == 0 && code[3] == 0 && code[4] == 0 && code[5] == 0
        }),
{
}

/// Everything that was patched and has an original is put back, and nothing else.
pub proof fn law_every_patch_is_put_back(slots: Seq<SavedSlot>)
    ensures
        vtable::to_restore(slots) == slots.filter(|s: SavedSlot| s.table != 0 && s.original != 0),
    decreases slots.len(),
{
    reveal(Seq::filter);
    if slots.len() > 0 {
        law_every_patch_is_put_back(slots.drop_last());
    } else {
        assert(vtable::to_restore(slots) =~= slots.filter(
            |s: SavedSlot| s.table != 0 && s.original != 0,
        ));
    }
}

/// The place that is taken is the first that was found.
pub proof fn law_first_place_is_taken(found: Seq<bool>)
    ensures
        injector::first_found(found) is None <==> (forall|i: int|
            0 <= i < found.len() ==> !#[trigger] found[i]),
        injector::first_found(found) matches Some(i) ==> {
            &&& 0 <= i < found.len()
            &&& found[i]
            &&& forall|j: int| 0 <= j < i ==> !#[trigger] found[j]
        },
    decreases found.len(),
{
    if found.len() > 0 && !found[0] {
        let rest = found.drop_first();
        law_first_place_is_taken(rest);
        if injector::first_found(found) is None {
            assert forall|i: int| 0 <= i < found.len() implies !#[trigger] found[i] by {
                if i > 0 {
                    assert(found[i] == rest[i - 1]);
                }
            }
        } else {
            let i = injector::first_found(found)->0;
            assert(found[i] == rest[i - 1]);
            assert forall|j: int| 0 <= j < i implies !#[trigger] found[j] by {
                if j > 0 {
                    assert(found[j] == rest[j - 1]);
                }
            }
        }
    }
}

} // verus!
