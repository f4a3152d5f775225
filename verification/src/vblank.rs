//! The display tick grid, from the compositor's timing information.

use vstd::prelude::*;

use crate::fixed;
use crate::fixed::{round_div, ONE};
use crate::pacer::VBlankHint;

verus! {

/// The compositor's figures describe a display: it has ticked, and at 10 Hz or more.
pub open spec fn is_plausible(qpc_vblank: u64, num: u32, den: u32) -> bool {
    qpc_vblank != 0 && num > 0 && den > 0 && num >= 10 * den
}

/// The display tick grid for the compositor's last vblank and its refresh rate, given
/// as a fraction. `None` where the figures are implausible: the pacer then works
/// without a grid.
pub fn hint(qpc_vblank: u64, num: u32, den: u32) -> (h: Option<VBlankHint>)
    ensures
        h is Some == is_plausible(qpc_vblank, num, den),
        h is Some ==> h->0 == (VBlankHint {
            refresh_hz: fixed::round_quot(num * ONE, den as int) as i64,
            last_vblank_qpc: qpc_vblank as i64,
        }),
        h is Some ==> (h->0).refresh_hz >= 10_000_000,
        h is Some ==> -(den as int) <= 2 * ((h->0).refresh_hz * den - 1_000_000 * num) <= den,
{
    if qpc_vblank == 0 {
        return None;
    }
    if num == 0 || den == 0 || (num as u64) < 10 * den as u64 {
        return None;
    }
    proof {
        assert(10 * ONE * den <= num * ONE <= 4_294_967_295 * ONE * den) by (nonlinear_arith)
            requires
                0 < den,
                10 * den <= num <= 4_294_967_295,
                ONE == 1_000_000,
        ;
        fixed::lemma_nearest(num * ONE, den as int);
        fixed::lemma_round_between(num * ONE, den as int, 10 * ONE, 4_294_967_295 * ONE);
    }
    Some(
        VBlankHint {
            refresh_hz: round_div(num as i128 * ONE, den as i128) as i64,
            last_vblank_qpc: qpc_vblank as i64,
        },
    )
}

} // verus!
