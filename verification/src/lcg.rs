use vstd::prelude::*;

verus! {

/// Multiplier of the linear congruential step.
pub const LCG_MULTIPLIER: u64 = 6364136223846793005;

/// Increment of the linear congruential step.
pub const LCG_INCREMENT: u64 = 1;

/// Seed of every new game: each game, and each restart, meets the same course.
pub const GAME_SEED: u64 = 0xC0FFEE;

/// One step of the generator: `state * LCG_MULTIPLIER + LCG_INCREMENT` modulo 2^64.
pub open spec fn lcg_step(state: u64) -> u64 {
    ((state as nat * LCG_MULTIPLIER as nat + LCG_INCREMENT as nat) % 0x1_0000_0000_0000_0000nat) as u64
}

/// The 32-bit value drawn from a state: its upper half.
pub open spec fn lcg_output(state: u64) -> u32 {
    (state as nat / 0x1_0000_0000nat) as u32
}

/// The state after `n` steps from `seed`.
pub open spec fn lcg_state_after(seed: u64, n: nat) -> u64
    decreases n,
{
    if n == 0 {
        seed
    } else {
        lcg_step(lcg_state_after(seed, (n - 1) as nat))
    }
}

/// The generator's step multiplies by 6364136223846793005 and adds 1,
/// modulo 2^64; the value drawn from a state is its upper 32 bits: the
/// state lies between that value times 2^32 and the next multiple of 2^32.
pub proof fn lemma_step_and_output(state: u64)
    ensures
        lcg_step(state) as int == (state as int * 6364136223846793005int + 1) % 0x1_0000_0000_0000_0000int,
        lcg_output(state) as int * 0x1_0000_0000int <= state as int,
        (state as int) < (lcg_output(state) as int + 1) * 0x1_0000_0000int,
{
    let q = state as int / 0x1_0000_0000int;
    vstd::arithmetic::div_mod::lemma_fundamental_div_mod(state as int, 0x1_0000_0000int);
    vstd::arithmetic::div_mod::lemma_mod_bound(state as int, 0x1_0000_0000int);
    assert(q < 0x1_0000_0000int) by {
        if q >= 0x1_0000_0000int {
            vstd::arithmetic::mul::lemma_mul_inequality(0x1_0000_0000int, q, 0x1_0000_0000int);
        }
    }
}

/// A small deterministic pseudo-random generator (a 64-bit linear congruential generator).
pub struct Lcg {
    state: u64,
}

impl View for Lcg {
    type V = u64;

    /// The generator is its current state.
    closed spec fn view(&self) -> u64 {
        self.state
    }
}

/// Adding one after a product reduced modulo 2^64, with wrap-around, is the
/// product plus one reduced modulo 2^64.
proof fn lemma_wrapping_step(x: nat, product: u64, next: u64)
    requires
        product as nat == x % 0x1_0000_0000_0000_0000nat,
        next == vstd::wrapping::u64_specs::wrapping_add(product, 1),
    ensures
        next as nat == (x + 1) % 0x1_0000_0000_0000_0000nat,
{
    let m = 0x1_0000_0000_0000_0000int;
    vstd::arithmetic::div_mod::lemma_add_mod_noop(x as int, 1, m);
    vstd::arithmetic::div_mod::lemma_mod_self_0(m);
    assert(1int % m == 1);
    if product as int + 1 < m {
        vstd::arithmetic::div_mod::lemma_small_mod((product + 1) as nat, m as nat);
    }
}

impl Lcg {
    /// A generator whose state is `seed`.
    pub fn new(seed: u64) -> (rng: Self)
        ensures
            rng@ == seed,
    {
        Lcg { state: seed }
    }

    /// Advances the state by one step and returns the upper 32 bits of the new state.
    pub fn next_u32(&mut self) -> (value: u32)
        ensures
            final(self)@ == lcg_step(old(self)@),
            value == lcg_output(final(self)@),
    {
        let product = self.state.wrapping_mul(LCG_MULTIPLIER);
        let next = product.wrapping_add(LCG_INCREMENT);
        proof {
            lemma_wrapping_step(self.state as nat * LCG_MULTIPLIER as nat, product, next);
        }
        self.state = next;
        let high = next >> 32;
        proof {
            assert(high == next / 0x1_0000_0000u64) by (bit_vector)
                requires
                    high == next >> 32u64;
        }
        high as u32
    }
}

} // verus!
