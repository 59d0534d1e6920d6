//! Synthetic data: the shapes it is made of and its random number generator.
//!
//! The generator is a xorshift64*, deterministic: the same seed gives the same
//! numbers. Turning its numbers into points (floating point) is the program's
//! part.
use vstd::prelude::*;

verus! {

/// The scale of a sweep of the domain (linear or logarithmic), distinct from
/// the visual scale of an axis.
#[derive(Debug, Clone, Copy, PartialEq, Eq, Structural)]
pub enum SweepScale {
    Linear,
    Log,
}

impl Default for SweepScale {
    /// Linear.
    fn default() -> (s: Self)
        ensures
            s == SweepScale::Linear,
    {
        SweepScale::Linear
    }
}

/// The base shape of synthetic data, to which noise is added.
#[derive(Debug, Clone, Copy, PartialEq, Eq, Structural)]
pub enum RandomShape {
    /// Pure noise around the offset.
    Noise,
    /// A line whose slope is the amplitude.
    Ramp,
    /// A sine of that amplitude (one cycle over the domain).
    Sine,
}

impl Default for RandomShape {
    /// Pure noise.
    fn default() -> (s: Self)
        ensures
            s == RandomShape::Noise,
    {
        RandomShape::Noise
    }
}

/// The seed that series get by default.
pub fn default_seed() -> (s: u64)
    ensures
        s == 42,
{
    42
}

/// The xorshift64* generator.
#[derive(Debug)]
pub struct XorShift64 {
    pub state: u64,
}

/// The state a seed gives: moved by a constant, and never 0 (xorshift stays at
/// 0 forever).
pub open spec fn estado_inicial(seed: u64) -> u64 {
    let s = vstd::wrapping::u64_specs::wrapping_add(seed, 0x9E3779B97F4A7C15);
    if s == 0 {
        1
    } else {
        s
    }
}

/// One xorshift step of the state.
pub open spec fn paso(x: u64) -> u64 {
    let a = x ^ (x << 13u64);
    let b = a ^ (a >> 7u64);
    b ^ (b << 17u64)
}

/// The number a state gives out.
pub open spec fn salida(x: u64) -> u64 {
    vstd::wrapping::u64_specs::wrapping_mul(x, 0x2545F4914F6CDD1D)
}

impl XorShift64 {
    /// A generator for `seed`.
    pub fn new(seed: u64) -> (g: XorShift64)
        ensures
            g.state == estado_inicial(seed),
    {
        let s = seed.wrapping_add(0x9E3779B97F4A7C15);
        XorShift64 { state: if s == 0 { 1 } else { s } }
    }

    /// The next number: one xorshift step of the state, multiplied (wrapping)
    /// by the xorshift64* constant.
    pub fn next_u64(&mut self) -> (r: u64)
        ensures
            final(self).state == paso(old(self).state),
            r == salida(paso(old(self).state)),
    {
        let mut x = self.state;
        x = x ^ (x << 13u64);
        x = x ^ (x >> 7u64);
        x = x ^ (x << 17u64);
        self.state = x;
        x.wrapping_mul(0x2545F4914F6CDD1D)
    }
}

/// A generator never starts at 0.
pub proof fn el_estado_inicial_no_es_cero(seed: u64)
    ensures
        estado_inicial(seed) != 0,
{
}

/// A xorshift step never takes a state that is not 0 to 0, so a generator
/// never gets stuck there.
pub proof fn el_paso_no_lleva_a_cero(x: u64)
    requires
        x != 0,
    ensures
        paso(x) != 0,
{
    let a = x ^ (x << 13u64);
    let b = a ^ (a >> 7u64);
    assert(x != 0 ==> x ^ (x << 13u64) != 0) by (bit_vector);
    assert(a != 0 ==> a ^ (a >> 7u64) != 0) by (bit_vector);
    assert(b != 0 ==> b ^ (b << 17u64) != 0) by (bit_vector);
}

} // verus!
