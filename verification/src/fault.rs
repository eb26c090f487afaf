//! The seeded fault injector.
//!
//! One pseudo-random sequence, derived entirely from a single seed integer and
//! advanced only by explicit draws, decides for every observed stream
//! operation (a) how much extra latency to insert before it may complete and
//! (b) whether to flip the connection into a disconnected state. Sampling is
//! per operation: each decision consumes exactly two draws, one for the
//! latency and one for the disconnect, which is part of the seed contract —
//! replaying a seed against the same operation order replays the faults.
//!
//! The generator is a Weyl-sequence mixer: the state advances by a fixed odd
//! constant and the output is the state scrambled by two xor-shift-multiply
//! rounds, all in wrapping 64-bit arithmetic.

use vstd::prelude::*;
use crate::clock::Duration;

verus! {

/// One step of the generator state.
pub open spec fn rng_next_state(s: u64) -> u64 {
    s.wrapping_add(0x9E37_79B9_7F4A_7C15)
}

/// The value drawn when the generator leaves state `s`.
pub open spec fn rng_output(s: u64) -> u64 {
    let z0 = rng_next_state(s);
    let z1 = (z0 ^ (z0 >> 30)).wrapping_mul(0xBF58_476D_1CE4_E5B9);
    let z2 = (z1 ^ (z1 >> 27)).wrapping_mul(0x94D0_49BB_1331_11EB);
    z2 ^ (z2 >> 31)
}

/// The generator state after `n` draws from `seed`.
pub open spec fn rng_state_at(seed: u64, n: nat) -> u64
    decreases n,
{
    if n == 0 {
        seed
    } else {
        rng_next_state(rng_state_at(seed, (n - 1) as nat))
    }
}

/// The `n`-th value (counting from zero) drawn from `seed`.
pub open spec fn rng_draw_at(seed: u64, n: nat) -> u64 {
    rng_output(rng_state_at(seed, n))
}

/// The deterministic pseudo-random source: seed, current state, and the
/// stream position (how many values have been drawn).
#[derive(Clone, Copy, Debug, PartialEq, Eq, Structural)]
pub struct FaultRng {
    pub seed: u64,
    pub state: u64,
    pub draws: u64,
}

impl FaultRng {
    /// The state is exactly the function of the seed and the stream position;
    /// the generator holds nothing a replay could not recompute.
    pub open spec fn wf(self) -> bool {
        self.state == rng_state_at(self.seed, self.draws as nat)
    }

    pub fn new(seed: u64) -> (r: FaultRng)
        ensures
            r.wf(),
            r.seed == seed,
            r.draws == 0,
    {
        FaultRng { seed, state: seed, draws: 0 }
    }

    /// Draw the next value of the sequence.
    pub fn next_draw(&mut self) -> (r: u64)
        requires
            old(self).wf(),
            old(self).draws < u64::MAX,
        ensures
            final(self).wf(),
            final(self).seed == old(self).seed,
            final(self).draws == old(self).draws + 1,
            r == rng_draw_at(old(self).seed, old(self).draws as nat),
    {
        self.state = self.state.wrapping_add(0x9E37_79B9_7F4A_7C15);
        self.draws = self.draws + 1;
        let z0 = self.state;
        let z1 = (z0 ^ (z0 >> 30)).wrapping_mul(0xBF58_476D_1CE4_E5B9);
        let z2 = (z1 ^ (z1 >> 27)).wrapping_mul(0x94D0_49BB_1331_11EB);
        z2 ^ (z2 >> 31)
    }
}

/// What the injector decided for one stream operation.
#[derive(Clone, Copy, Debug, PartialEq, Eq, Structural)]
pub struct FaultDecision {
    /// Extra latency to insert, through the timer queue, before the operation
    /// may complete.
    pub extra_delay: Duration,
    /// Whether to flip the connection into a disconnected state, after which
    /// operations on it fail with a reset error.
    pub disconnect: bool,
}

/// The decision taken for the `n`-th observed operation (counting from zero)
/// under the given seed and configuration: draws `2n` and `2n + 1` of the
/// sequence choose the latency and the disconnect respectively.
pub open spec fn decision_at(seed: u64, max_delay_nanos: u64, disconnect_per_mille: u64, n: nat) -> FaultDecision {
    FaultDecision {
        extra_delay: Duration {
            nanos: ((rng_draw_at(seed, 2 * n) as int) % (max_delay_nanos + 1)) as u64,
        },
        disconnect: rng_draw_at(seed, 2 * n + 1) % 1000 < disconnect_per_mille,
    }
}

/// The fault injector's whole state: the seeded sequence and its static
/// configuration. Created once per runtime instance and never reseeded, so a
/// replay with the same seed and the same operation order reproduces the same
/// fault pattern.
#[derive(Clone, Copy, Debug, PartialEq, Eq, Structural)]
pub struct FaultInjector {
    pub rng: FaultRng,
    /// Extra latency is drawn uniformly from `0 ..= max_delay_nanos`.
    pub max_delay_nanos: u64,
    /// A disconnect is forced with probability `disconnect_per_mille / 1000`.
    pub disconnect_per_mille: u64,
}

impl FaultInjector {
    pub open spec fn wf(self) -> bool {
        &&& self.rng.wf()
        &&& self.rng.draws % 2 == 0
        &&& self.max_delay_nanos < u64::MAX
    }

    /// How many operations this injector has already decided on.
    pub open spec fn decisions_made(self) -> nat {
        (self.rng.draws / 2) as nat
    }

    pub fn new(seed: u64, max_delay_nanos: u64, disconnect_per_mille: u64) -> (r: FaultInjector)
        requires
            max_delay_nanos < u64::MAX,
        ensures
            r.wf(),
            r.rng.seed == seed,
            r.decisions_made() == 0,
            r.max_delay_nanos == max_delay_nanos,
            r.disconnect_per_mille == disconnect_per_mille,
    {
        FaultInjector { rng: FaultRng::new(seed), max_delay_nanos, disconnect_per_mille }
    }

    /// Decide the fate of the next observed stream operation. The result is
    /// pinned to the seed, the configuration and the operation's position in
    /// the run — nothing else.
    pub fn next_decision(&mut self) -> (d: FaultDecision)
        requires
            old(self).wf(),
            old(self).rng.draws + 2 <= u64::MAX,
        ensures
            final(self).wf(),
            final(self).rng.seed == old(self).rng.seed,
            final(self).max_delay_nanos == old(self).max_delay_nanos,
            final(self).disconnect_per_mille == old(self).disconnect_per_mille,
            final(self).decisions_made() == old(self).decisions_made() + 1,
            d == decision_at(
                old(self).rng.seed,
                old(self).max_delay_nanos,
                old(self).disconnect_per_mille,
                old(self).decisions_made(),
            ),
            d.extra_delay.nanos <= old(self).max_delay_nanos,
    {
        proof {
            assert(2 * old(self).decisions_made() == old(self).rng.draws as nat);
        }
        let d1 = self.rng.next_draw();
        let d2 = self.rng.next_draw();
        let extra = d1 % (self.max_delay_nanos + 1);
        let disconnect = d2 % 1000 < self.disconnect_per_mille;
        FaultDecision { extra_delay: Duration { nanos: extra }, disconnect }
    }
}

/// Fault reproducibility: two injectors built from the same seed and the same
/// configuration that have decided the same number of operations are in the
/// same state, and their next decision is the same. The injector's state
/// carries nothing beyond the seed, the configuration and the stream
/// position, so replaying a seed against the same operation order replays the
/// exact fault sequence.
pub proof fn lemma_fault_replay(a: FaultInjector, b: FaultInjector)
    requires
        a.wf(),
        b.wf(),
        a.rng.seed == b.rng.seed,
        a.rng.draws == b.rng.draws,
        a.max_delay_nanos == b.max_delay_nanos,
        a.disconnect_per_mille == b.disconnect_per_mille,
    ensures
        a == b,
        decision_at(a.rng.seed, a.max_delay_nanos, a.disconnect_per_mille, a.decisions_made())
            == decision_at(
            b.rng.seed,
            b.max_delay_nanos,
            b.disconnect_per_mille,
            b.decisions_made(),
        ),
{
    assert(a.rng.state == rng_state_at(a.rng.seed, a.rng.draws as nat));
    assert(b.rng.state == rng_state_at(b.rng.seed, b.rng.draws as nat));
    assert(a.rng =~= b.rng);
    assert(a =~= b);
}

} // verus!
