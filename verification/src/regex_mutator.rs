//! The deterministic random source of the token sampler: a Romu-family
//! pseudo-random generator and the budgeted script that draws from it.

use vstd::prelude::*;

verus! {

/// Multiplier of the Romu recurrence.
pub const ROMU_MULTIPLIER: u64 = 15_241_094_284_759_029_579u64;

/// Constant the seed is xored with for the second state word.
pub const ROMU_SEED_XOR: u64 = 0xec77_1522_8265_0854u64;

/// A Romu-family pseudo-random generator over two 64-bit state words.
#[derive(Debug, Clone, Copy, PartialEq, Eq, Structural)]
pub struct RomuPrng {
    pub xstate: u64,
    pub ystate: u64,
}

/// The value the next draw returns.
pub open spec fn rom_next_value(s: RomuPrng) -> u64 {
    s.xstate
}

/// Left rotation by 27 bits.
pub open spec fn spec_rotl27(v: u64) -> u64 {
    (v << 27) | (v >> 37)
}

/// The state after one draw.
pub open spec fn rom_next_state(s: RomuPrng) -> RomuPrng {
    RomuPrng {
        xstate: vstd::wrapping::u64_specs::wrapping_mul(ROMU_MULTIPLIER, s.ystate),
        ystate: spec_rotl27(vstd::wrapping::u64_specs::wrapping_sub(s.ystate, s.xstate)),
    }
}

/// The state `new_from_u64` leaves behind: the seeded state after the
/// four warm-up draws.
pub open spec fn rom_warmed(seed: u64) -> RomuPrng {
    rom_next_state(
        rom_next_state(
            rom_next_state(rom_next_state(RomuPrng { xstate: seed, ystate: seed ^ ROMU_SEED_XOR })),
        ),
    )
}

impl RomuPrng {
    /// A generator from both state words.
    pub fn new(xstate: u64, ystate: u64) -> (r: Self)
        ensures
            r == (RomuPrng { xstate, ystate }),
    {
        Self { xstate, ystate }
    }

    /// A draw reduced into `min..max`.
    pub fn range(&mut self, min: usize, max: usize) -> (r: usize)
        requires
            min < max,
        ensures
            r == (rom_next_value(*old(self)) as usize) % ((max - min) as usize) + min,
            min <= r < max,
            *final(self) == rom_next_state(*old(self)),
    {
        ((self.next_u64() as usize) % (max - min)) + min
    }

    /// A generator from one seed: the second word is derived from the
    /// first, and four draws warm the state up.
    pub fn new_from_u64(seed: u64) -> (r: Self)
        ensures
            r == rom_warmed(seed),
    {
        let mut res = Self::new(seed, seed ^ ROMU_SEED_XOR);
        res.next_u64();
        res.next_u64();
        res.next_u64();
        res.next_u64();
        res
    }

    /// The next draw, truncated to 32 bits.
    pub fn next_u32(&mut self) -> (r: u32)
        ensures
            r == rom_next_value(*old(self)) as u32,
            *final(self) == rom_next_state(*old(self)),
    {
        self.next_u64() as u32
    }

    /// The next draw: returns the first state word and advances both by
    /// the Romu recurrence.
    pub fn next_u64(&mut self) -> (r: u64)
        ensures
            r == rom_next_value(*old(self)),
            *final(self) == rom_next_state(*old(self)),
    {
        let xp = self.xstate;
        self.xstate = ROMU_MULTIPLIER.wrapping_mul(self.ystate);
        self.ystate = self.ystate.wrapping_sub(xp);
        self.ystate = (self.ystate << 27) | (self.ystate >> 37);
        xp
    }
}

/// A random script with a drawing budget: once the budget is zero every
/// further draw collapses to zero without touching the generator.
#[derive(Debug, Clone, Copy, PartialEq, Eq, Structural)]
pub struct RegexScript {
    pub rng: RomuPrng,
    pub remaining: usize,
}

/// The script `new` builds from a seed: mostly short budgets, with a
/// rare long tail.
pub open spec fn spec_regex_script_new(seed: u64) -> RegexScript {
    let r0 = rom_warmed(seed);
    let v1 = rom_next_value(r0);
    let r1 = rom_next_state(r0);
    if v1 % 256 == 0 {
        let v2 = rom_next_value(r1);
        let r2 = rom_next_state(r1);
        RegexScript { rng: r2, remaining: (v2 % 0xffff) as usize }
    } else {
        let v2 = rom_next_value(r1);
        let r2 = rom_next_state(r1);
        let len = 1u64 << (v2 % 8);
        let v3 = rom_next_value(r2);
        let r3 = rom_next_state(r2);
        RegexScript { rng: r3, remaining: (v3 % len) as usize }
    }
}

/// What one budgeted draw modulo `val` returns.
pub open spec fn spec_get_mod(s: RegexScript, val: usize) -> usize {
    if s.remaining == 0 {
        0
    } else {
        (rom_next_value(s.rng) as u32 as usize) % val
    }
}

/// The script state after one budgeted draw.
pub open spec fn spec_get_mod_state(s: RegexScript) -> RegexScript {
    if s.remaining == 0 {
        s
    } else {
        RegexScript { rng: rom_next_state(s.rng), remaining: s.remaining }
    }
}

impl RegexScript {
    /// A script from a seed.
    pub fn new(seed: u64) -> (r: Self)
        ensures
            r == spec_regex_script_new(seed),
    {
        let mut rng = RomuPrng::new_from_u64(seed);

        let len = if rng.next_u64() % 256 == 0 {
            rng.next_u64() % 0xffff
        } else {
            let e = rng.next_u64();
            let len = 1u64 << (e % 8);
            proof {
                assert((1u64 << (e % 8)) > 0) by (bit_vector);
            }
            rng.next_u64() % len
        };
        RegexScript { rng, remaining: len as usize }
    }

    /// A budgeted draw modulo `val`: zero once the budget is exhausted,
    /// in which case the generator is left alone and even a zero modulus
    /// is admitted.
    pub fn get_mod(&mut self, val: usize) -> (r: usize)
        requires
            val > 0 || old(self).remaining == 0,
        ensures
            r == spec_get_mod(*old(self), val),
            val > 0 ==> r < val,
            *final(self) == spec_get_mod_state(*old(self)),
    {
        if self.remaining == 0 {
            return 0;
        }
        (self.rng.next_u32() as usize) % val
    }

    /// A budgeted draw in `min..max`: `min` once the budget is exhausted.
    pub fn get_range(&mut self, min: usize, max: usize) -> (r: usize)
        requires
            min < max,
        ensures
            r == spec_get_mod(*old(self), (max - min) as usize) + min,
            min <= r < max,
            *final(self) == spec_get_mod_state(*old(self)),
    {
        self.get_mod(max - min) + min
    }
}

/// The UTF-8 encoding of one character.
pub open spec fn spec_utf8(c: char) -> Seq<u8> {
    let u = c as u32;
    if u < 0x80 {
        seq![u as u8]
    } else if u < 0x800 {
        seq![(0xC0u32 | (u >> 6)) as u8, (0x80u32 | (u & 0x3F)) as u8]
    } else if u < 0x10000 {
        seq![
            (0xE0u32 | (u >> 12)) as u8,
            (0x80u32 | ((u >> 6) & 0x3F)) as u8,
            (0x80u32 | (u & 0x3F)) as u8,
        ]
    } else {
        seq![
            (0xF0u32 | (u >> 18)) as u8,
            (0x80u32 | ((u >> 12) & 0x3F)) as u8,
            (0x80u32 | ((u >> 6) & 0x3F)) as u8,
            (0x80u32 | (u & 0x3F)) as u8,
        ]
    }
}

/// Append the UTF-8 encoding of one character to a byte buffer.
pub fn append_char(res: &mut Vec<u8>, chr: char)
    ensures
        final(res)@ == old(res)@ + spec_utf8(chr),
{
    let u = chr as u32;
    if u < 0x80 {
        res.push(u as u8);
    } else if u < 0x800 {
        res.push((0xC0u32 | (u >> 6)) as u8);
        res.push((0x80u32 | (u & 0x3F)) as u8);
    } else if u < 0x10000 {
        res.push((0xE0u32 | (u >> 12)) as u8);
        res.push((0x80u32 | ((u >> 6) & 0x3F)) as u8);
        res.push((0x80u32 | (u & 0x3F)) as u8);
    } else {
        res.push((0xF0u32 | (u >> 18)) as u8);
        res.push((0x80u32 | ((u >> 12) & 0x3F)) as u8);
        res.push((0x80u32 | ((u >> 6) & 0x3F)) as u8);
        res.push((0x80u32 | (u & 0x3F)) as u8);
    }
    proof {
        assert(res@ =~= old(res)@ + spec_utf8(chr));
    }
}

/// What `get_length` returns: a draw whose magnitude is itself drawn,
/// favouring short lengths.
pub open spec fn spec_get_length(s: RegexScript) -> usize {
    let bits = spec_get_mod(s, 8);
    let s1 = spec_get_mod_state(s);
    spec_get_mod(s1, (2u64 << (bits as u64)) as usize)
}

/// The script state `get_length` leaves behind.
pub open spec fn spec_get_length_state(s: RegexScript) -> RegexScript {
    spec_get_mod_state(spec_get_mod_state(s))
}

/// A length draw whose magnitude is itself drawn, favouring short
/// lengths.
pub fn get_length(scr: &mut RegexScript) -> (r: usize)
    ensures
        r == spec_get_length(*old(scr)),
        *final(scr) == spec_get_length_state(*old(scr)),
{
    let bits = scr.get_mod(8);
    let b64 = bits as u64;
    proof {
        assert(b64 < 8 ==> 0 < (2u64 << b64) <= 256) by (bit_vector);
        assert(0 < (2u64 << b64) <= 256);
    }
    let m64: u64 = 2u64 << b64;
    scr.get_mod(m64 as usize)
}

} // verus!
