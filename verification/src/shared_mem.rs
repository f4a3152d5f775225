//! The region shared between a game and its control panel.
//!
//! The region holds a header and a ring of telemetry records. The game writes one
//! record per present call, the panel drains them; in the other direction the panel
//! publishes its settings and a heartbeat through the header.
//!
//! A mapping of the region lays the header out in the first [`HEADER_BYTES`] bytes
//! and the records, [`RECORD_BYTES`] bytes each, behind it. [`SharedHeader`] decides
//! on a snapshot of the header what an access does; [`SharedRing`] is a region under
//! one owner.

use vstd::prelude::*;

use crate::config::{ReflexMode, RuntimeConfig};
use crate::pacer::PacerMode;

verus! {

/// "IFRM".
pub const SM_MAGIC: u32 = 0x4946524D;

pub const SM_VERSION: u32 = 2;

/// Bytes that the header takes in a mapping: two cache lines.
pub const HEADER_BYTES: usize = 128;

/// Bytes that a record takes in a mapping.
pub const RECORD_BYTES: usize = 48;

/// One paced frame, as recorded by the game's side.
#[derive(Debug, Clone, Copy, PartialEq, Eq, Structural)]
pub struct TelemetryFrame {
    /// The game entered the present call.
    pub present_start_qpc: i64,
    /// The real present call returned.
    pub present_end_qpc: i64,
    /// The game thread was released; the next frame starts here.
    pub release_qpc: i64,
    /// Display tick that the next frame aims at.
    pub target_tick_qpc: i64,
    /// Single-precision bits of the smoothed frame duration in microseconds.
    pub ema_duration_us_bits: u32,
    /// Single-precision bits of the smoothed deviation in microseconds.
    pub deviation_us_bits: u32,
    /// Bit 0: bypass, bit 1: late, bit 2: vertical sync overridden.
    pub flags: u32,
    pub _pad: u32,
}

impl TelemetryFrame {
    /// Flag of a frame that the limiter did not delay.
    pub const FLAG_BYPASS: u32 = 1;

    /// Flag of a frame that finished after its slot.
    pub const FLAG_LATE: u32 = 2;

    /// Flag of a frame that was presented without vertical sync.
    pub const FLAG_VSYNC_OVERRIDE: u32 = 4;

    pub open spec fn blank() -> TelemetryFrame {
        TelemetryFrame {
            present_start_qpc: 0,
            present_end_qpc: 0,
            release_qpc: 0,
            target_tick_qpc: 0,
            ema_duration_us_bits: 0,
            deviation_us_bits: 0,
            flags: 0,
            _pad: 0,
        }
    }

    /// Sets the bypass flag where `v` holds, and never clears it.
    pub fn set_bypass(&mut self, v: bool)
        ensures
            *final(self) == (TelemetryFrame {
                flags: if v {
                    old(self).flags | TelemetryFrame::FLAG_BYPASS
                } else {
                    old(self).flags
                },
                ..*old(self)
            }),
    {
        if v {
            self.flags = self.flags | TelemetryFrame::FLAG_BYPASS;
        }
    }
}

impl Default for TelemetryFrame {
    fn default() -> (rec: TelemetryFrame)
        ensures
            rec == TelemetryFrame::blank(),
    {
        TelemetryFrame {
            present_start_qpc: 0,
            present_end_qpc: 0,
            release_qpc: 0,
            target_tick_qpc: 0,
            ema_duration_us_bits: 0,
            deviation_us_bits: 0,
            flags: 0,
            _pad: 0,
        }
    }
}

/// The header of a region.
#[derive(Debug, Clone, Copy, PartialEq, Eq, Structural)]
pub struct SharedHeader {
    pub magic: u32,
    pub version: u32,
    /// Number of record slots, less one.
    pub capacity_mask: u64,
    /// Records written so far.
    pub head: u64,
    /// Records read so far.
    pub tail: u64,
    pub enabled: u32,
    pub mode: u32,
    /// Fixed-point frame rate cap.
    pub target_fps: i64,
    /// Fixed-point refresh rate.
    pub refresh_hz: i64,
    pub target_pid: u32,
    /// Records that found no room.
    pub dropped: u64,
    /// 0 = initialising, 1 = hooks installed, 2 = initialisation failed.
    pub hook_state: u32,
    pub vsync_override: u32,
    pub force_waitable: u32,
    /// Reading of the counter at the panel's last heartbeat.
    pub host_heartbeat_qpc: u64,
    /// 1 while a panel keeps up heartbeats, 0 for one-shot commands.
    pub host_present: u32,
    pub reflex_mode: u32,
    pub overlay_enabled: u32,
    /// 0 = unavailable, 1 = supported, 2 = active.
    pub reflex_state: u32,
    pub reshade_detected: u32,
}

pub open spec fn flag_of(b: bool) -> u32 {
    if b {
        1
    } else {
        0
    }
}

fn flag(b: bool) -> (v: u32)
    ensures
        v == flag_of(b),
{
    if b { 1 } else { 0 }
}

/// The mapping size that `capacity` records need.
pub open spec fn bytes_for(capacity: int) -> int {
    HEADER_BYTES + capacity * RECORD_BYTES
}

/// Total mapping size for a number of records.
pub fn total_size(capacity: usize) -> (len: usize)
    requires
        bytes_for(capacity as int) <= usize::MAX,
    ensures
        len == bytes_for(capacity as int),
{
    HEADER_BYTES + capacity * RECORD_BYTES
}

/// Record slots that a mapping of `len` bytes has room for.
pub fn slots_in(len: usize) -> (slots: usize)
    ensures
        len < HEADER_BYTES ==> slots == 0,
        len >= HEADER_BYTES ==> bytes_for(slots as int) <= len < bytes_for(slots + 1),
{
    if len < HEADER_BYTES {
        0
    } else {
        (len - HEADER_BYTES) / RECORD_BYTES
    }
}

/// `room` record slots can hold a ring of `capacity` records.
pub open spec fn holds_ring(room: int, capacity: int) -> bool {
    vstd::arithmetic::power2::is_pow2(capacity) && capacity <= room
}

fn is_power_of_two(n: u64) -> (b: bool)
    ensures
        b == vstd::arithmetic::power2::is_pow2(n as int),
{
    if n == 0 {
        proof {
            reveal_with_fuel(vstd::arithmetic::power2::is_pow2, 2);
        }
        return false;
    }
    let mut c: u64 = n;
    while c % 2 == 0
        invariant
            c > 0,
            vstd::arithmetic::power2::is_pow2(n as int) == vstd::arithmetic::power2::is_pow2(c as int),
        decreases c,
    {
        proof {
            reveal_with_fuel(vstd::arithmetic::power2::is_pow2, 2);
        }
        c = c / 2;
    }
    proof {
        reveal_with_fuel(vstd::arithmetic::power2::is_pow2, 2);
    }
    c == 1
}

impl SharedHeader {
    /// The header of a mapping that nothing was written to.
    pub open spec fn blank() -> SharedHeader {
        SharedHeader {
            magic: 0,
            version: 0,
            capacity_mask: 0,
            head: 0,
            tail: 0,
            enabled: 0,
            mode: 0,
            target_fps: 0,
            refresh_hz: 0,
            target_pid: 0,
            dropped: 0,
            hook_state: 0,
            vsync_override: 0,
            force_waitable: 0,
            host_heartbeat_qpc: 0,
            host_present: 0,
            reflex_mode: 0,
            overlay_enabled: 0,
            reflex_state: 0,
            reshade_detected: 0,
        }
    }

    pub fn zeroed() -> (header: SharedHeader)
        ensures
            header == SharedHeader::blank(),
    {
        SharedHeader {
            magic: 0,
            version: 0,
            capacity_mask: 0,
            head: 0,
            tail: 0,
            enabled: 0,
            mode: 0,
            target_fps: 0,
            refresh_hz: 0,
            target_pid: 0,
            dropped: 0,
            hook_state: 0,
            vsync_override: 0,
            force_waitable: 0,
            host_heartbeat_qpc: 0,
            host_present: 0,
            reflex_mode: 0,
            overlay_enabled: 0,
            reflex_state: 0,
            reshade_detected: 0,
        }
    }

    /// Number of record slots.
    pub open spec fn slots(self) -> int {
        self.capacity_mask + 1
    }

    /// Counter of the oldest record that can still be read: a reader that lags more
    /// than a full ring behind has lost what was overwritten.
    pub open spec fn oldest(self) -> int {
        if self.head - self.tail > self.slots() {
            self.head - self.slots()
        } else {
            self.tail as int
        }
    }

    /// Records that wait to be read.
    pub open spec fn waiting(self) -> int {
        if self.head > self.oldest() {
            self.head - self.oldest()
        } else {
            0
        }
    }

    /// The header after `n` records were read.
    pub open spec fn after_reading(self, n: int) -> SharedHeader {
        if n == 0 {
            self
        } else {
            SharedHeader { tail: (self.oldest() + n) as u64, ..self }
        }
    }

    /// Another record fits.
    pub open spec fn has_room(self) -> bool {
        self.head - self.tail < self.slots() && self.head < u64::MAX
    }

    /// The header after a region was initialised for `capacity` records.
    pub open spec fn initialised(self, capacity: int) -> SharedHeader {
        SharedHeader {
            magic: SM_MAGIC,
            version: SM_VERSION,
            capacity_mask: (capacity - 1) as u64,
            head: 0,
            tail: 0,
            dropped: 0,
            hook_state: 0,
            host_heartbeat_qpc: 0,
            host_present: 0,
            ..self
        }
    }

    /// The header of a region that a peer initialised and that fits in `room` slots.
    pub open spec fn is_attachable(self, room: int) -> bool {
        &&& self.magic == SM_MAGIC
        &&& self.version == SM_VERSION
        &&& holds_ring(room, self.slots())
    }

    /// Initialises the header of a fresh mapping with `room` record slots (see
    /// [`slots_in`]) for `capacity` records. Refuses, without a change, a capacity that
    /// is no power of two or does not fit.
    pub fn initialise(&mut self, room: usize, capacity: usize) -> (ok: bool)
        ensures
            ok == holds_ring(room as int, capacity as int),
            ok ==> *final(self) == old(self).initialised(capacity as int),
            !ok ==> *final(self) == *old(self),
    {
        if !is_power_of_two(capacity as u64) || room < capacity {
            return false;
        }
        proof {
            lemma_pow2_positive(capacity as int);
        }
        self.magic = SM_MAGIC;
        self.version = SM_VERSION;
        self.capacity_mask = capacity as u64 - 1;
        self.head = 0;
        self.tail = 0;
        self.dropped = 0;
        self.hook_state = 0;
        self.host_heartbeat_qpc = 0;
        self.host_present = 0;
        true
    }

    /// Attaches to a mapping with `room` record slots that a peer initialised, skipping
    /// records that were overwritten before they were read.
    pub fn attach(&mut self, room: usize) -> (ok: bool)
        ensures
            ok == old(self).is_attachable(room as int),
            ok ==> *final(self) == (SharedHeader { tail: old(self).oldest() as u64, ..*old(self) }),
            !ok ==> *final(self) == *old(self),
    {
        if self.magic != SM_MAGIC || self.version != SM_VERSION {
            return false;
        }
        if self.capacity_mask == u64::MAX {
            return false;
        }
        let slots: u64 = self.capacity_mask + 1;
        if !is_power_of_two(slots) || (room as u64) < slots {
            return false;
        }
        if self.head > self.tail && self.head - self.tail > slots {
            self.tail = self.head - slots;
        }
        true
    }

    /// The slot that the next record goes to, where there is room.
    pub fn write_slot(&self) -> (slot: Option<u64>)
        requires
            self.slots() <= u64::MAX,
        ensures
            slot is Some == self.has_room(),
            slot is Some ==> slot->0 == (self.head as int) % self.slots(),
    {
        let slots: u64 = self.capacity_mask + 1;
        if (self.head > self.tail && self.head - self.tail >= slots) || self.head == u64::MAX {
            None
        } else {
            Some(self.head % slots)
        }
    }

    /// The counter and the slot of the record that is read next, where one waits.
    pub fn read_slot(&self) -> (at: Option<(u64, u64)>)
        requires
            self.slots() <= u64::MAX,
        ensures
            at is Some == (self.waiting() > 0),
            at is Some ==> (at->0).0 == self.oldest(),
            at is Some ==> (at->0).1 == self.oldest() % self.slots(),
    {
        let slots: u64 = self.capacity_mask + 1;
        if self.tail >= self.head {
            return None;
        }
        let at: u64 = if self.head - self.tail > slots { self.head - slots } else { self.tail };
        Some((at, at % slots))
    }

    /// Writes states and a heartbeat.
    pub open spec fn with_reports(
        self,
        hook: u32,
        reflex: u32,
        reshade: u32,
        present: u32,
        beat: u64,
    ) -> SharedHeader {
        SharedHeader {
            hook_state: hook,
            reflex_state: reflex,
            reshade_detected: reshade,
            host_heartbeat_qpc: beat,
            host_present: present,
            ..self
        }
    }

    /// Writes settings.
    pub open spec fn with_config(self, cfg: RuntimeConfig) -> SharedHeader {
        SharedHeader {
            enabled: flag_of(cfg.enabled),
            mode: cfg.mode.code(),
            target_fps: cfg.target_fps,
            refresh_hz: cfg.refresh_hz,
            vsync_override: flag_of(cfg.vsync_override),
            force_waitable: flag_of(cfg.force_waitable),
            reflex_mode: cfg.reflex_mode.code(),
            overlay_enabled: flag_of(cfg.overlay_enabled),
            ..self
        }
    }

    /// The settings that the header holds: any word but zero is true, and unknown mode
    /// codes are inert.
    pub open spec fn holds_config(self, cfg: RuntimeConfig) -> bool {
        &&& cfg.enabled == (self.enabled != 0)
        &&& if self.mode <= 2 {
            cfg.mode.code() == self.mode
        } else {
            cfg.mode == PacerMode::Bypass
        }
        &&& cfg.target_fps == self.target_fps
        &&& cfg.refresh_hz == self.refresh_hz
        &&& cfg.vsync_override == (self.vsync_override != 0)
        &&& cfg.force_waitable == (self.force_waitable != 0)
        &&& if self.reflex_mode <= 2 {
            cfg.reflex_mode.code() == self.reflex_mode
        } else {
            cfg.reflex_mode == ReflexMode::Off
        }
        &&& cfg.overlay_enabled == (self.overlay_enabled != 0)
    }

    pub fn set_config(&mut self, cfg: &RuntimeConfig)
        ensures
            *final(self) == old(self).with_config(*cfg),
    {
        self.target_fps = cfg.target_fps;
        self.refresh_hz = cfg.refresh_hz;
        self.mode = cfg.mode.as_u32();
        self.enabled = flag(cfg.enabled);
        self.vsync_override = flag(cfg.vsync_override);
        self.force_waitable = flag(cfg.force_waitable);
        self.reflex_mode = cfg.reflex_mode.as_u32();
        self.overlay_enabled = flag(cfg.overlay_enabled);
    }

    pub fn config(&self) -> (cfg: RuntimeConfig)
        ensures
            self.holds_config(cfg),
    {
        RuntimeConfig {
            enabled: self.enabled != 0,
            mode: PacerMode::from_u32(self.mode),
            target_fps: self.target_fps,
            refresh_hz: self.refresh_hz,
            vsync_override: self.vsync_override != 0,
            force_waitable: self.force_waitable != 0,
            reflex_mode: ReflexMode::from_u32(self.reflex_mode),
            overlay_enabled: self.overlay_enabled != 0,
        }
    }

    /// The panel is alive: none has to be, or its heartbeat is recent enough. A
    /// heartbeat that seems to come from the future is a skewed clock, not a dead panel.
    pub open spec fn host_alive(self, now_qpc: int, timeout_qpc: int) -> bool {
        ||| self.host_present == 0
        ||| now_qpc < self.host_heartbeat_qpc
        ||| now_qpc - self.host_heartbeat_qpc < timeout_qpc
    }

    pub fn is_host_alive(&self, now_qpc: u64, timeout_qpc: u64) -> (alive: bool)
        ensures
            alive == self.host_alive(now_qpc as int, timeout_qpc as int),
    {
        if self.host_present == 0 {
            return true;
        }
        if now_qpc >= self.host_heartbeat_qpc {
            now_qpc - self.host_heartbeat_qpc < timeout_qpc
        } else {
            true
        }
    }
}

proof fn lemma_pow2_positive(n: int)
    requires
        vstd::arithmetic::power2::is_pow2(n),
    ensures
        n >= 1,
{
    reveal_with_fuel(vstd::arithmetic::power2::is_pow2, 2);
}

/// The contents of a mapping: a header and the record slots behind it.
#[derive(Debug)]
pub struct SharedRegion {
    pub header: SharedHeader,
    pub records: Vec<TelemetryFrame>,
}

impl SharedRegion {
    /// A mapping of `len` bytes that nothing was written to.
    pub fn zeroed(len: usize) -> (region: SharedRegion)
        ensures
            region.header == SharedHeader::blank(),
            len < HEADER_BYTES ==> region.records@.len() == 0,
            len >= HEADER_BYTES ==> bytes_for(region.records@.len() as int) <= len < bytes_for(
                (region.records@.len() + 1) as int,
            ),
            forall|i: int|
                0 <= i < region.records@.len() ==> region.records@[i] == TelemetryFrame::blank(),
    {
        let slots: usize = slots_in(len);
        let mut records: Vec<TelemetryFrame> = Vec::new();
        while records.len() < slots
            invariant
                records@.len() <= slots,
                forall|i: int| 0 <= i < records@.len() ==> records@[i] == TelemetryFrame::blank(),
            decreases slots - records@.len(),
        {
            records.push(TelemetryFrame::default());
        }
        SharedRegion { header: SharedHeader::zeroed(), records }
    }

    /// The records that wait to be read, oldest first.
    pub open spec fn pending(self) -> Seq<TelemetryFrame> {
        Seq::new(
            self.header.waiting() as nat,
            |i: int| self.records@[(self.header.oldest() + i) % self.header.slots()],
        )
    }
}

/// What a [`SharedRing`] holds.
#[verifier::ext_equal]
pub struct RingModel {
    pub header: SharedHeader,
    /// Records that wait to be read, oldest first.
    pub pending: Seq<TelemetryFrame>,
}

/// A telemetry ring over a region.
#[derive(Debug)]
pub struct SharedRing {
    region: SharedRegion,
}

impl View for SharedRing {
    type V = RingModel;

    closed spec fn view(&self) -> RingModel {
        RingModel { header: self.region.header, pending: self.region.pending() }
    }
}

impl SharedRing {
    #[verifier::type_invariant]
    spec fn wf(self) -> bool {
        &&& vstd::arithmetic::power2::is_pow2(self.region.header.slots())
        &&& 1 <= self.region.header.slots() <= self.region.records.len()
    }

    /// The region under the ring.
    pub closed spec fn region(self) -> SharedRegion {
        self.region
    }

    /// Initialises a region for `capacity` records. Refuses a capacity that is no power
    /// of two, or that the region has no room for.
    pub fn init(region: SharedRegion, capacity: usize) -> (ring: Option<SharedRing>)
        ensures
            ring is Some == holds_ring(region.records@.len() as int, capacity as int),
            ring is Some ==> {
                &&& ring->0@.header == region.header.initialised(capacity as int)
                &&& ring->0@.header.slots() == capacity
                &&& ring->0@.pending == Seq::<TelemetryFrame>::empty()
                &&& ring->0.region().records@ == region.records@
            },
    {
        let mut region = region;
        if !region.header.initialise(region.records.len(), capacity) {
            return None;
        }
        proof {
            lemma_pow2_positive(capacity as int);
        }
        let ring = SharedRing { region };
        assert(ring@.pending =~= Seq::<TelemetryFrame>::empty());
        Some(ring)
    }

    /// Attaches to a region that a peer initialised, skipping records that were
    /// overwritten before they were read.
    pub fn attach(region: SharedRegion) -> (ring: Option<SharedRing>)
        ensures
            ring is Some == region.header.is_attachable(region.records@.len() as int),
            ring is Some ==> {
                &&& ring->0@.header == (SharedHeader {
                    tail: region.header.oldest() as u64,
                    ..region.header
                })
                &&& ring->0@.pending == region.pending()
                &&& ring->0.region().records@ == region.records@
            },
    {
        let ghost before = region;
        let mut region = region;
        if !region.header.attach(region.records.len()) {
            return None;
        }
        proof {
            lemma_pow2_positive(region.header.slots());
        }
        let ring = SharedRing { region };
        assert(ring@.pending =~= before.pending());
        Some(ring)
    }

    /// Gives the region back.
    pub fn into_region(self) -> (region: SharedRegion)
        ensures
            region == self.region(),
            region.header == self@.header,
            region.pending() == self@.pending,
    {
        self.region
    }

    /// The header as it stands.
    pub fn header(&self) -> (header: &SharedHeader)
        ensures
            *header == self@.header,
    {
        &self.region.header
    }

    /// Number of record slots.
    pub fn capacity(&self) -> (n: usize)
        ensures
            n == self@.header.slots(),
            vstd::arithmetic::power2::is_pow2(n as int),
    {
        proof {
            use_type_invariant(&*self);
        }
        (self.region.header.capacity_mask + 1) as usize
    }

    /// Writes one record. Returns `false`, and counts a drop, when the reader lags a
    /// full ring behind.
    pub fn push(&mut self, rec: &TelemetryFrame) -> (ok: bool)
        ensures
            ok == old(self)@.header.has_room(),
            final(self)@ == ring_step(old(self)@, RingOp::Push(*rec)),
    {
        proof {
            use_type_invariant(&*self);
        }
        let ghost before = self.region;
        match self.region.header.write_slot() {
            None => {
                self.region.header.dropped = self.region.header.dropped.wrapping_add(1);
                assert(self.region.pending() =~= before.pending());
                false
            },
            Some(slot) => {
                self.region.records[slot as usize] = *rec;
                self.region.header.head = self.region.header.head + 1;
                proof {
                    lemma_written(before, self.region, *rec);
                }
                true
            },
        }
    }
}

/// Counters less than a full ring apart have different slots.
proof fn lemma_distinct_slots(a: int, b: int, slots: int)
    requires
        slots > 0,
        a < b < a + slots,
    ensures
        a % slots != b % slots,
{
    vstd::arithmetic::div_mod::lemma_fundamental_div_mod(a, slots);
    vstd::arithmetic::div_mod::lemma_fundamental_div_mod(b, slots);
    if a % slots == b % slots {
        let p = a / slots;
        let q = b / slots;
        assert(b - a == slots * (q - p)) by (nonlinear_arith)
            requires
                a == slots * p + a % slots,
                b == slots * q + b % slots,
                a % slots == b % slots,
        ;
        assert(false) by (nonlinear_arith)
            requires
                0 < b - a < slots,
                b - a == slots * (q - p),
        ;
    }
}

/// Writing a record at the head appends it to what waits to be read.
proof fn lemma_written(before: SharedRegion, after: SharedRegion, rec: TelemetryFrame)
    requires
        before.header.has_room(),
        before.header.slots() <= before.records@.len(),
        after.header == (SharedHeader { head: (before.header.head + 1) as u64, ..before.header }),
        after.records@ == before.records@.update(
            (before.header.head as int) % before.header.slots(),
            rec,
        ),
    ensures
        before.header.tail <= before.header.head ==> after.pending() == before.pending().push(rec),
        before.header.tail > before.header.head ==> after.pending() == Seq::<
            TelemetryFrame,
        >::empty(),
{
    let slots = before.header.slots();
    let head = before.header.head as int;
    vstd::arithmetic::div_mod::lemma_mod_bound(head, slots);
    if before.header.tail <= head {
        assert forall|i: int| 0 <= i < before.pending().len() implies after.pending()[i]
            == before.pending()[i] by {
            let at = before.header.oldest() + i;
            lemma_distinct_slots(at, head, slots);
            vstd::arithmetic::div_mod::lemma_mod_bound(at, slots);
        }
        assert(after.pending() =~= before.pending().push(rec));
    } else {
        assert(after.pending() =~= Seq::<TelemetryFrame>::empty());
    }
}

/// Reading the oldest record takes it off what waits to be read.
proof fn lemma_read(before: SharedRegion, after: SharedRegion)
    requires
        before.header.waiting() > 0,
        1 <= before.header.slots() <= before.records@.len(),
        after.header == (SharedHeader {
            tail: (before.header.oldest() + 1) as u64,
            ..before.header
        }),
        after.records@ == before.records@,
    ensures
        before.pending().len() > 0,
        before.pending()[0] == before.records@[before.header.oldest() % before.header.slots()],
        after.pending() == before.pending().drop_first(),
{
    assert(after.pending() =~= before.pending().drop_first());
}

impl SharedRing {
    /// Takes the oldest record, if one waits.
    pub fn pop(&mut self) -> (rec: Option<TelemetryFrame>)
        ensures
            rec == if old(self)@.pending.len() > 0 {
                Some(old(self)@.pending[0])
            } else {
                None
            },
            final(self)@ == ring_step(old(self)@, RingOp::Pop),
    {
        proof {
            use_type_invariant(&*self);
        }
        let ghost before = self.region;
        match self.region.header.read_slot() {
            None => None,
            Some((at, slot)) => {
                proof {
                    vstd::arithmetic::div_mod::lemma_mod_bound(at as int, before.header.slots());
                }
                let rec = self.region.records[slot as usize];
                self.region.header.tail = at + 1;
                proof {
                    lemma_read(before, self.region);
                }
                Some(rec)
            },
        }
    }

    /// Takes up to `out.len()` records into the front of `out`; returns how many.
    pub fn drain(&mut self, out: &mut Vec<TelemetryFrame>) -> (n: usize)
        ensures
            n == if old(self)@.pending.len() <= old(out)@.len() {
                old(self)@.pending.len() as int
            } else {
                old(out)@.len() as int
            },
            final(out)@ == old(self)@.pending.take(n as int) + old(out)@.skip(n as int),
            final(self)@.pending == old(self)@.pending.skip(n as int),
            final(self)@.header == old(self)@.header.after_reading(n as int),
    {
        let ghost pending = self@.pending;
        let ghost header = self@.header;
        let mut n: usize = 0;
        while n < out.len()
            invariant_except_break
                n <= out@.len(),
                n <= pending.len(),
                out@.len() == old(out)@.len(),
                pending == old(self)@.pending,
                header == old(self)@.header,
                self@.pending == pending.skip(n as int),
                self@.header == header.after_reading(n as int),
                pending.len() == header.waiting(),
                out@ == pending.take(n as int) + old(out)@.skip(n as int),
            ensures
                n == if pending.len() <= old(out)@.len() {
                    pending.len() as int
                } else {
                    old(out)@.len() as int
                },
                self@.pending == pending.skip(n as int),
                self@.header == header.after_reading(n as int),
                out@ == pending.take(n as int) + old(out)@.skip(n as int),
            decreases out@.len() - n,
        {
            match self.pop() {
                Some(rec) => {
                    out.set(n, rec);
                    assert(out@ =~= pending.take(n + 1) + old(out)@.skip(n + 1));
                    assert(self@.pending =~= pending.skip(n + 1));
                    n = n + 1;
                },
                None => {
                    break;
                },
            }
        }
        n
    }

    /// State of the hooks as published by the game's side.
    pub fn hook_state(&self) -> (state: u32)
        ensures
            state == self@.header.hook_state,
    {
        self.region.header.hook_state
    }

    pub fn set_hook_state(&mut self, state: u32)
        ensures
            final(self)@ == (RingModel {
                header: SharedHeader { hook_state: state, ..old(self)@.header },
                pending: old(self)@.pending,
            }),
    {
        proof {
            use_type_invariant(&*self);
        }
        let ghost before = self.region;
        self.region.header.hook_state = state;
        assert(self.region.pending() =~= before.pending());
    }

    /// State of the driver's latency mode as published by the game's side.
    pub fn reflex_state(&self) -> (state: u32)
        ensures
            state == self@.header.reflex_state,
    {
        self.region.header.reflex_state
    }

    pub fn set_reflex_state(&mut self, state: u32)
        ensures
            final(self)@ == (RingModel {
                header: SharedHeader { reflex_state: state, ..old(self)@.header },
                pending: old(self)@.pending,
            }),
    {
        proof {
            use_type_invariant(&*self);
        }
        let ghost before = self.region;
        self.region.header.reflex_state = state;
        assert(self.region.pending() =~= before.pending());
    }

    /// A shader injector was found in the game.
    pub fn is_reshade_detected(&self) -> (found: bool)
        ensures
            found == (self@.header.reshade_detected != 0),
    {
        self.region.header.reshade_detected != 0
    }

    pub fn set_reshade_detected(&mut self, found: bool)
        ensures
            final(self)@ == (RingModel {
                header: SharedHeader { reshade_detected: flag_of(found), ..old(self)@.header },
                pending: old(self)@.pending,
            }),
    {
        proof {
            use_type_invariant(&*self);
        }
        let ghost before = self.region;
        self.region.header.reshade_detected = flag(found);
        assert(self.region.pending() =~= before.pending());
    }

    /// Publishes settings to the game.
    pub fn set_config(&mut self, cfg: &RuntimeConfig)
        ensures
            final(self)@ == (RingModel {
                header: old(self)@.header.with_config(*cfg),
                pending: old(self)@.pending,
            }),
    {
        proof {
            use_type_invariant(&*self);
        }
        let ghost before = self.region;
        let mut header = self.region.header;
        header.set_config(cfg);
        self.region.header = header;
        assert(self.region.pending() =~= before.pending());
    }

    /// The settings last published.
    pub fn config(&self) -> (cfg: RuntimeConfig)
        ensures
            self@.header.holds_config(cfg),
    {
        self.region.header.config()
    }

    /// Records that found no room.
    pub fn dropped(&self) -> (n: u64)
        ensures
            n == self@.header.dropped,
    {
        self.region.header.dropped
    }

    /// The panel reports that it is present and alive.
    pub fn update_heartbeat(&mut self, now_qpc: u64)
        ensures
            final(self)@ == (RingModel {
                header: SharedHeader {
                    host_heartbeat_qpc: now_qpc,
                    host_present: 1,
                    ..old(self)@.header
                },
                pending: old(self)@.pending,
            }),
    {
        proof {
            use_type_invariant(&*self);
        }
        let ghost before = self.region;
        self.region.header.host_heartbeat_qpc = now_qpc;
        self.region.header.host_present = 1;
        assert(self.region.pending() =~= before.pending());
    }

    /// The panel is alive, or none has to be.
    pub fn is_host_alive(&self, now_qpc: u64, timeout_qpc: u64) -> (alive: bool)
        ensures
            alive == self@.header.host_alive(now_qpc as int, timeout_qpc as int),
    {
        self.region.header.is_host_alive(now_qpc, timeout_qpc)
    }

    /// Declares that no panel is present: a one-shot command that publishes settings
    /// and exits must not leave a stale presence behind.
    pub fn mark_headless(&mut self)
        ensures
            final(self)@ == (RingModel {
                header: SharedHeader { host_present: 0, ..old(self)@.header },
                pending: old(self)@.pending,
            }),
    {
        proof {
            use_type_invariant(&*self);
        }
        let ghost before = self.region;
        self.region.header.host_present = 0;
        assert(self.region.pending() =~= before.pending());
    }
}

/// Settings that were published are read back, whole and unchanged.
pub proof fn law_config_round_trips(header: SharedHeader, cfg: RuntimeConfig, read: RuntimeConfig)
    requires
        header.with_config(cfg).holds_config(read),
    ensures
        read == cfg,
{
    crate::config::law_mode_codes_are_distinct(
        read.reflex_mode,
        cfg.reflex_mode,
        read.mode,
        cfg.mode,
    );
}

/// Publishing settings, states or heartbeats does not touch the records, and writing
/// records does not touch the settings.
pub proof fn law_settings_and_records_are_independent(
    region: SharedRegion,
    cfg: RuntimeConfig,
    head: u64,
    tail: u64,
    dropped: u64,
    read: RuntimeConfig,
    hook: u32,
    reflex: u32,
    reshade: u32,
    present: u32,
    beat: u64,
)
    ensures
        (SharedRegion { header: region.header.with_config(cfg), ..region }).pending()
            == region.pending(),
        (SharedRegion {
            header: region.header.with_reports(hook, reflex, reshade, present, beat),
            ..region
        }).pending() == region.pending(),
        region.header.holds_config(read) == (SharedHeader { head, tail, dropped, ..region.header }
        ).holds_config(read),
{
    assert((SharedRegion { header: region.header.with_config(cfg), ..region }).pending()
        =~= region.pending());
    assert((SharedRegion {
        header: region.header.with_reports(hook, reflex, reshade, present, beat),
        ..region
    }).pending() =~= region.pending());
}

/// A region that was initialised can be attached to, and starts empty and headless.
pub proof fn law_initialised_region_is_attachable(region: SharedRegion, capacity: int)
    requires
        holds_ring(region.records@.len() as int, capacity),
        capacity <= u64::MAX,
    ensures
        ({
            let header = region.header.initialised(capacity);
            &&& header.is_attachable(region.records@.len() as int)
            &&& header.waiting() == 0
            &&& header.hook_state == 0
            &&& forall|now: int, timeout: int| header.host_alive(now, timeout)
        }),
{
    lemma_pow2_positive(capacity);
}

/// A heartbeat keeps the panel alive for the timeout and no longer; without a panel
/// the settings are trusted indefinitely.
pub proof fn law_heartbeat_expires(header: SharedHeader, beat: u64, now: int, timeout: int)
    ensures
        ({
            let beaten = SharedHeader { host_heartbeat_qpc: beat, host_present: 1, ..header };
            &&& beat <= now ==> beaten.host_alive(now, timeout) == (now < beat + timeout)
            &&& now < beat ==> beaten.host_alive(now, timeout)
            &&& (SharedHeader { host_present: 0, ..beaten }).host_alive(now, timeout)
        }),
{
}

/// An access to the ring.
pub enum RingOp {
    Push(TelemetryFrame),
    Pop,
}

/// What one access does.
pub open spec fn ring_step(m: RingModel, op: RingOp) -> RingModel {
    match op {
        RingOp::Push(rec) => if m.header.has_room() {
            RingModel {
                header: SharedHeader { head: (m.header.head + 1) as u64, ..m.header },
                // A reader that claims to be ahead of the writer has nothing to read.
                pending: if m.header.tail <= m.header.head {
                    m.pending.push(rec)
                } else {
                    Seq::empty()
                },
            }
        } else {
            RingModel {
                header: SharedHeader { dropped: m.header.dropped.wrapping_add(1), ..m.header },
                pending: m.pending,
            }
        },
        RingOp::Pop => if m.pending.len() > 0 {
            RingModel { header: m.header.after_reading(1), pending: m.pending.drop_first() }
        } else {
            m
        },
    }
}

/// The ring after a series of accesses.
pub open spec fn ring_run(m: RingModel, ops: Seq<RingOp>) -> RingModel
    decreases ops.len(),
{
    if ops.len() == 0 {
        m
    } else {
        ring_step(ring_run(m, ops.drop_last()), ops.last())
    }
}

/// The records that a series of accesses wrote, in order.
pub open spec fn ring_accepted(m: RingModel, ops: Seq<RingOp>) -> Seq<TelemetryFrame>
    decreases ops.len(),
{
    if ops.len() == 0 {
        Seq::empty()
    } else {
        let before = ring_run(m, ops.drop_last());
        let earlier = ring_accepted(m, ops.drop_last());
        match ops.last() {
            RingOp::Push(rec) => if before.header.has_room() {
                earlier.push(rec)
            } else {
                earlier
            },
            RingOp::Pop => earlier,
        }
    }
}

/// The number of records that a series of accesses found no room for.
pub open spec fn ring_refused(m: RingModel, ops: Seq<RingOp>) -> nat
    decreases ops.len(),
{
    if ops.len() == 0 {
        0
    } else {
        let before = ring_run(m, ops.drop_last());
        let earlier = ring_refused(m, ops.drop_last());
        if ops.last() is Push && !before.header.has_room() {
            earlier + 1
        } else {
            earlier
        }
    }
}

/// The records that a series of accesses read, in order.
pub open spec fn ring_read(m: RingModel, ops: Seq<RingOp>) -> Seq<TelemetryFrame>
    decreases ops.len(),
{
    if ops.len() == 0 {
        Seq::empty()
    } else {
        let before = ring_run(m, ops.drop_last());
        let earlier = ring_read(m, ops.drop_last());
        if ops.last() is Pop && before.pending.len() > 0 {
            earlier.push(before.pending[0])
        } else {
            earlier
        }
    }
}

/// The number of attempts to write in a series of accesses.
pub open spec fn ring_attempts(ops: Seq<RingOp>) -> nat
    decreases ops.len(),
{
    if ops.len() == 0 {
        0
    } else {
        ring_attempts(ops.drop_last()) + if ops.last() is Push {
            1nat
        } else {
            0nat
        }
    }
}

/// A ring whose counters belong to what waits to be read.
pub open spec fn is_consistent(m: RingModel) -> bool {
    &&& m.header.tail <= m.header.head
    &&& m.header.head - m.header.tail <= m.header.slots()
    &&& m.pending.len() == m.header.head - m.header.tail
}

/// Records come out in the order in which they went in, none twice and none lost:
/// whatever waited or was accepted has been read or still waits. Every attempt to
/// write is accepted or counted as dropped, and no more than a full ring ever waits.
pub proof fn law_records_are_conserved(m: RingModel, ops: Seq<RingOp>)
    requires
        is_consistent(m),
        m.header.head + ops.len() < u64::MAX,
        m.header.dropped + ops.len() < u64::MAX,
    ensures
        ({
            let after = ring_run(m, ops);
            &&& is_consistent(after)
            &&& after.header.slots() == m.header.slots()
            &&& m.pending + ring_accepted(m, ops) == ring_read(m, ops) + after.pending
            &&& ring_accepted(m, ops).len() + ring_refused(m, ops) == ring_attempts(ops)
            &&& after.header.dropped == m.header.dropped + ring_refused(m, ops)
            &&& after.header.head == m.header.head + ring_accepted(m, ops).len()
            &&& after.header.tail == m.header.tail + ring_read(m, ops).len()
            &&& after.header.head <= m.header.head + ops.len()
            &&& after.header.dropped <= m.header.dropped + ops.len()
        }),
    decreases ops.len(),
{
    if ops.len() == 0 {
        assert(m.pending + ring_accepted(m, ops) =~= ring_read(m, ops) + m.pending);
    } else {
        let earlier = ops.drop_last();
        law_records_are_conserved(m, earlier);
        let before = ring_run(m, earlier);
        let after = ring_run(m, ops);
        let accepted = ring_accepted(m, earlier);
        let read = ring_read(m, earlier);
        match ops.last() {
            RingOp::Push(rec) => {
                if before.header.has_room() {
                    assert(m.pending + accepted.push(rec) =~= (m.pending + accepted).push(rec));
                    assert(read + before.pending.push(rec) =~= (read + before.pending).push(rec));
                }
            },
            RingOp::Pop => {
                if before.pending.len() > 0 {
                    assert(read.push(before.pending[0]) + before.pending.drop_first() =~= read
                        + before.pending);
                }
            },
        }
    }
}

/// A record finds room exactly while fewer records wait than there are slots, and what
/// waits is never more than that. What waits and what was read is what was written.
pub proof fn law_ring_holds_as_many_as_it_has_slots(h: SharedHeader)
    requires
        h.tail <= h.head < u64::MAX,
    ensures
        h.slots() == h.capacity_mask + 1,
        0 <= h.waiting() <= h.slots(),
        h.head - h.tail <= h.slots() ==> h.waiting() == h.head - h.tail,
        h.head - h.tail >= h.slots() ==> h.waiting() == h.slots(),
        h.oldest() + h.waiting() == h.head,
        h.has_room() <==> h.waiting() < h.slots(),
        forall|n: int|
            0 < n <= h.waiting() ==> (#[trigger] h.after_reading(n)).waiting() == h.waiting() - n,
        forall|n: int|
            0 <= n <= h.waiting() ==> (#[trigger] h.after_reading(n)).head == h.head,
{
    assert forall|n: int| 0 < n <= h.waiting() implies (#[trigger] h.after_reading(n)).waiting()
        == h.waiting() - n by {
        assert(h.after_reading(n).tail == h.oldest() + n);
    }
}

/// A fresh region takes the settings that it was mapped with and holds nothing else, and
/// one of another make or version is not attached to.
pub proof fn law_regions_are_told_by_their_mark(h: SharedHeader, room: int, capacity: int)
    requires
        1 <= capacity <= u64::MAX,
    ensures
        h.is_attachable(room) ==> h.magic == 0x4946524D && h.version == 2 && h.slots() <= room,
        ({
            let i = h.initialised(capacity);
            &&& i.magic == 0x4946524D && i.version == 2
            &&& i.slots() == capacity
            &&& i.head == 0 && i.tail == 0 && i.dropped == 0
            &&& i.enabled == h.enabled && i.mode == h.mode && i.target_fps == h.target_fps
            &&& i.refresh_hz == h.refresh_hz && i.target_pid == h.target_pid
            &&& i.vsync_override == h.vsync_override && i.force_waitable == h.force_waitable
            &&& i.reflex_mode == h.reflex_mode && i.overlay_enabled == h.overlay_enabled
        }),
        bytes_for(capacity) == 128 + 48 * capacity,
{
}

} // verus!
