//! Chaos mode: every so many ticks, while switched on, the server sends all
//! clients one malformed or misleading frame, so that clients learn to cope.
//! This module decides when and what; the bytes are made outside the library.

use std::sync::atomic::AtomicBool;
use std::sync::Arc;

use vstd::prelude::*;

use crate::chance;

verus! {

/// The frame to send, as plain values: one of five kinds.
pub enum ChaosPayload {
    /// Random bytes that are no MessagePack message.
    Garbage { bytes: Vec<u8> },
    /// A message whose `type` is `glitch`.
    UnknownType,
    /// A `state` message whose fields have the wrong types.
    WrongFieldTypes,
    /// A `state` message with only its tick.
    MissingFields { tick: u64 },
    /// A well-formed `state` message with no snakes whose tick goes back.
    OutOfOrder { tick: u64 },
}

/// `p` is a frame of chaos for the tick `now`, with its random parts in range.
pub open spec fn valid_payload(p: ChaosPayload, now: u64) -> bool {
    match p {
        ChaosPayload::Garbage { bytes } => 16 <= bytes@.len() <= 64,
        ChaosPayload::UnknownType => true,
        ChaosPayload::WrongFieldTypes => true,
        ChaosPayload::MissingFields { tick } => tick == now,
        ChaosPayload::OutOfOrder { tick } => tick < now && now - tick <= 50,
    }
}

/// `t` is a multiple of `d`; only 0 is a multiple of 0.
pub open spec fn multiple_of(t: u64, d: u64) -> bool {
    if d == 0 {
        t == 0
    } else {
        t % d == 0
    }
}

/// Whether `t` is a multiple of `d` (only 0 is a multiple of 0).
pub fn is_multiple_of(t: u64, d: u64) -> (r: bool)
    ensures
        r == multiple_of(t, d),
{
    if d == 0 {
        t == 0
    } else {
        t % d == 0
    }
}

/// The switch, as set by whoever shares it; calls `AtomicBool::load`.
fn switched_on(flag: &Arc<AtomicBool>) -> bool {
    flag.load(std::sync::atomic::Ordering::Relaxed)
}

/// 16 to 64 random bytes.
fn garbage(rng: &mut rand::rngs::StdRng) -> (bytes: Vec<u8>)
    ensures
        16 <= bytes@.len() <= 64,
{
    let len = chance::between_u64(rng, 16, 64);
    let mut bytes: Vec<u8> = Vec::new();
    let mut k: u64 = 0;
    while k < len
        invariant
            k <= len,
            bytes@.len() == k,
        decreases len - k,
    {
        bytes.push(chance::any_byte(rng));
        k = k + 1;
    }
    bytes
}

/// The number of the kind of a frame of chaos, 0 to 4, in the order of the
/// variants of `ChaosPayload`.
pub open spec fn payload_kind(p: ChaosPayload) -> int {
    match p {
        ChaosPayload::Garbage { .. } => 0,
        ChaosPayload::UnknownType => 1,
        ChaosPayload::WrongFieldTypes => 2,
        ChaosPayload::MissingFields { .. } => 3,
        ChaosPayload::OutOfOrder { .. } => 4,
    }
}

/// One kind of chaos, picked at random, for the tick `now`.
fn random_chaos(rng: &mut rand::rngs::StdRng, now: u64) -> (p: ChaosPayload)
    requires
        now >= 1,
    ensures
        valid_payload(p, now),
{
    let kind = chance::between_u64(rng, 0, 4);
    chaos_of_kind(rng, kind, now)
}

/// A frame of chaos of the kind numbered `kind` (see `payload_kind`) for the
/// tick `now`, its random parts drawn from `rng`.
fn chaos_of_kind(rng: &mut rand::rngs::StdRng, kind: u64, now: u64) -> (p: ChaosPayload)
    requires
        now >= 1,
        kind <= 4,
    ensures
        valid_payload(p, now),
        payload_kind(p) == kind,
{
    if kind == 0 {
        ChaosPayload::Garbage { bytes: garbage(rng) }
    } else if kind == 1 {
        ChaosPayload::UnknownType
    } else if kind == 2 {
        ChaosPayload::WrongFieldTypes
    } else if kind == 3 {
        ChaosPayload::MissingFields { tick: now }
    } else {
        let max_offset = if now > 50 { 50 } else { now };
        let offset = chance::between_u64(rng, 1, max_offset);
        ChaosPayload::OutOfOrder { tick: now - offset }
    }
}

/// The chaos source: a switch shared with whoever toggles it, the number of
/// ticks between two bursts, and a random generator.
pub struct ChaosInjector {
    pub enabled: Arc<AtomicBool>,
    interval_ticks: u64,
    rng: rand::rngs::StdRng,
}

impl ChaosInjector {
    /// The number of ticks between two bursts.
    pub closed spec fn interval(&self) -> u64 {
        self.interval_ticks
    }

    /// The shared switch; the same `Arc` as the public field `enabled`.
    pub closed spec fn switch(&self) -> Arc<AtomicBool> {
        self.enabled
    }

    /// A source that fires every `interval_ticks` ticks once switched on; it
    /// starts switched off. Its generator is seeded by the operating system.
    pub fn new(interval_ticks: u64) -> (c: ChaosInjector)
        requires
            interval_ticks > 0,
        ensures
            c.interval() == interval_ticks,
    {
        ChaosInjector {
            enabled: Arc::new(AtomicBool::new(false)),
            interval_ticks,
            rng: chance::seeded_from_os(),
        }
    }

    /// What the shared switch reads now.
    pub fn is_on(&self) -> bool {
        switched_on(&self.enabled)
    }

    /// Whether a burst is due at `tick` when the switch reads `enabled`.
    pub fn fires(&self, enabled: bool, tick: u64) -> (r: bool)
        ensures
            r == (enabled && multiple_of(tick, self.interval())),
    {
        enabled && is_multiple_of(tick, self.interval_ticks)
    }

    /// A frame of chaos for `tick`, if the switch is on and `tick` is a multiple
    /// of the interval; nothing otherwise. The switch may be on whenever it is
    /// read, so the tick must be at least 1 (see `generate_when`).
    pub fn generate(&mut self, tick: u64) -> (r: Option<ChaosPayload>)
        requires
            tick >= 1,
            old(self).interval() > 0,
        ensures
            final(self).interval() == old(self).interval(),
            final(self).switch() == old(self).switch(),
            tick % old(self).interval() != 0 ==> r is None,
            r matches Some(p) ==> tick % old(self).interval() == 0 && valid_payload(p, tick),
    {
        let on = switched_on(&self.enabled);
        self.generate_when(on, tick)
    }

    /// A frame of chaos for `tick` when the switch reads `enabled`: one exactly
    /// when `enabled` holds and `tick` is a multiple of the interval, nothing
    /// otherwise. A frame whose tick goes back needs a tick of at least 1, so
    /// tick 0 is taken only with the switch off.
    pub fn generate_when(&mut self, enabled: bool, tick: u64) -> (r: Option<ChaosPayload>)
        requires
            enabled ==> tick >= 1,
            old(self).interval() > 0,
        ensures
            final(self).interval() == old(self).interval(),
            final(self).switch() == old(self).switch(),
            r is Some <==> (enabled && multiple_of(tick, old(self).interval())),
            r matches Some(p) ==> valid_payload(p, tick),
    {
        if !self.fires(enabled, tick) {
            return None;
        }
        Some(random_chaos(&mut self.rng, tick))
    }
}

} // verus!
