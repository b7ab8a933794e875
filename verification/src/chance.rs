//! Random draws from `rand`'s generators. Only the range of each draw is known.

use rand::RngExt;
use vstd::prelude::*;

verus! {

/// `rand::rngs::StdRng`, held opaquely: nothing is known of its state.
#[verifier::external_type_specification]
#[verifier::external_body]
pub struct ExStdRng(rand::rngs::StdRng);

/// Calls `rand::RngExt::random_range` on `rng` with the inclusive range
/// `low..=high`; `rand` documents the result to lie in that range and to panic
/// on an empty range (hence `low <= high`).
#[verifier::external_body]
pub(crate) fn between_u64(rng: &mut rand::rngs::StdRng, low: u64, high: u64) -> (r: u64)
    requires
        low <= high,
    ensures
        low <= r <= high,
{
    rng.random_range(low..=high)
}

/// Calls `rand::RngExt::random::<u8>` on `rng`: any byte may come out.
#[verifier::external_body]
pub(crate) fn any_byte(rng: &mut rand::rngs::StdRng) -> (r: u8) {
    rng.random::<u8>()
}

/// Calls `rand::make_rng::<StdRng>`, which seeds a `StdRng` from the
/// thread-local generator, itself seeded by the operating system (`rand`
/// panics if the system gives no entropy).
#[verifier::external_body]
pub(crate) fn seeded_from_os() -> (r: rand::rngs::StdRng) {
    rand::make_rng::<rand::rngs::StdRng>()
}

/// A random cell coordinate below `bound`, drawn with `between_u64`.
pub(crate) fn below_u16(rng: &mut rand::rngs::StdRng, bound: u16) -> (r: u16)
    requires
        bound > 0,
    ensures
        r < bound,
{
    between_u64(rng, 0, (bound - 1) as u64) as u16
}

/// A random generator that keeps, as a ghost record, every number it has
/// drawn, in order; only its own draws extend the record.
pub struct Dice {
    rng: rand::rngs::StdRng,
    drawn: Ghost<Seq<u64>>,
}

impl Dice {
    /// The numbers drawn so far, oldest first.
    pub closed spec fn draws(&self) -> Seq<u64> {
        self.drawn@
    }

    /// Draws from `rng`, with nothing drawn yet.
    pub fn new(rng: rand::rngs::StdRng) -> (d: Dice)
        ensures
            d.draws() == Seq::<u64>::empty(),
    {
        Dice { rng, drawn: Ghost(Seq::empty()) }
    }

    /// A random coordinate below `bound`, drawn with `below_u16` and recorded.
    pub fn below_u16(&mut self, bound: u16) -> (r: u16)
        requires
            bound > 0,
        ensures
            r < bound,
            final(self).draws() == old(self).draws().push(r as u64),
    {
        let r = below_u16(&mut self.rng, bound);
        self.drawn = Ghost(self.drawn@.push(r as u64));
        r
    }
}

} // verus!
