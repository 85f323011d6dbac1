use vstd::prelude::*;

use crate::rules::MAX_JUMPS;

verus! {

/// How many of its jumps the dragon has used since it last stood on the ground.
pub struct JumpState {
    jumps_used: u8,
}

impl View for JumpState {
    type V = nat;

    /// The number of jumps used since the last landing.
    closed spec fn view(&self) -> nat {
        self.jumps_used as nat
    }
}

impl JumpState {
    /// Never more jumps than `MAX_JUMPS` are used.
    #[verifier::type_invariant]
    spec fn within_limit(self) -> bool {
        self.jumps_used <= MAX_JUMPS
    }

    /// A dragon on the ground, with no jump used.
    pub fn new() -> (state: Self)
        ensures
            state@ == 0,
    {
        JumpState { jumps_used: 0 }
    }

    /// Number of jumps used since the last landing.
    pub fn jumps_used(&self) -> (used: u8)
        ensures
            used as nat == self@,
            used <= MAX_JUMPS,
    {
        proof {
            use_type_invariant(self);
        }
        self.jumps_used
    }

    /// Number of jumps still available before landing.
    pub fn jumps_left(&self) -> (left: u8)
        ensures
            left as nat + self@ == MAX_JUMPS,
    {
        proof {
            use_type_invariant(self);
        }
        MAX_JUMPS.saturating_sub(self.jumps_used)
    }

    /// Uses a jump if one is left, in the air too: returns whether the dragon
    /// jumps, in which case it gets the upward impulse.
    pub fn jump(&mut self) -> (jumped: bool)
        ensures
            (jumped, final(self)@) == jump_outcome(old(self)@),
    {
        proof {
            use_type_invariant(&*self);
        }
        if self.jumps_used < MAX_JUMPS {
            self.jumps_used = self.jumps_used + 1;
            true
        } else {
            false
        }
    }

    /// The dragon touches the ground: all jumps are available again.
    pub fn land(&mut self)
        ensures
            final(self)@ == 0,
    {
        self.jumps_used = 0;
    }
}

/// Outcome of a jump request with `used` jumps already used: whether the
/// dragon jumps, and the new count.
pub open spec fn jump_outcome(used: nat) -> (bool, nat) {
    if used < MAX_JUMPS {
        (true, used + 1)
    } else {
        (false, used)
    }
}

/// Count after `n` successive jump requests starting from `used`.
pub open spec fn used_after_requests(used: nat, n: nat) -> nat
    decreases n,
{
    if n == 0 {
        used
    } else {
        jump_outcome(used_after_requests(used, (n - 1) as nat)).1
    }
}

/// Number of the `n` successive jump requests, starting from `used`, that make the dragon jump.
pub open spec fn jumps_granted(used: nat, n: nat) -> nat
    decreases n,
{
    if n == 0 {
        0
    } else {
        jumps_granted(used, (n - 1) as nat) + if jump_outcome(
            used_after_requests(used, (n - 1) as nat),
        ).0 {
            1nat
        } else {
            0nat
        }
    }
}

/// Between two landings the dragon jumps at most `MAX_JUMPS` times: of `n`
/// requests made after landing, exactly the first `MAX_JUMPS` (or all `n`, if
/// fewer) succeed, and the count never exceeds `MAX_JUMPS`.
pub proof fn lemma_jumps_between_landings(n: nat)
    ensures
        jumps_granted(0, n) == if n < MAX_JUMPS { n } else { MAX_JUMPS as nat },
        used_after_requests(0, n) == jumps_granted(0, n),
        used_after_requests(0, n) <= MAX_JUMPS,
    decreases n,
{
    if n > 0 {
        lemma_jumps_between_landings((n - 1) as nat);
    }
}

} // verus!
