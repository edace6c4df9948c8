use vstd::prelude::*;

verus! {

/// Distance between the smallest and the largest raw sample, and the value that the
/// unsigned form of a sample takes at its largest.
pub const UNSIGNED_MAX: u32 = 0xffff_ffff;

/// One channel of continuous signal at one instant: a signed fixed-point fraction with
/// one integer bit and 31 fractional bits, so that `bits` stands for `bits / 2^31`,
/// in `[-1, 1)`.
#[derive(Clone, Copy, Debug, PartialEq, Eq, Structural)]
pub struct Value {
    pub bits: i32,
}

impl Value {
    /// The sample shifted up by one, so that `-1` maps to `0` and the largest sample to
    /// `u32::MAX`, read as a fraction of `2^32`.
    pub open spec fn unsigned(self) -> nat {
        (self.bits as int + 0x8000_0000) as nat
    }

    pub fn from_bits(bits: i32) -> (r: Value)
        ensures
            r.bits == bits,
    {
        Value { bits }
    }

    pub fn to_bits(self) -> (r: i32)
        ensures
            r == self.bits,
    {
        self.bits
    }

    pub fn zero() -> (r: Value)
        ensures
            r.bits == 0,
    {
        Value { bits: 0 }
    }

    /// The unsigned form of this sample.
    pub fn to_u(self) -> (r: u32)
        ensures
            r as nat == self.unsigned(),
    {
        (self.bits as i64 + 0x8000_0000i64) as u32
    }

    /// The sample whose unsigned form is `u`.
    pub fn from_u(u: u32) -> (r: Value)
        ensures
            r.unsigned() == u as nat,
    {
        Value { bits: (u as i64 - 0x8000_0000i64) as i32 }
    }
}

/// The two kinds of stream that a wire may carry.
#[derive(Clone, Copy, Debug, PartialEq, Eq, Structural)]
pub enum ValueKind {
    Continuous,
    Discrete,
}

/// What a slot carries: its kind and, for a continuous slot, its number of channels.
#[derive(Clone, Copy, Debug, PartialEq, Eq, Structural)]
pub struct ValueType {
    pub kind: ValueKind,
    pub channels: Option<u8>,
}

impl ValueType {
    pub fn continuous(channels: u8) -> (r: ValueType)
        ensures
            r.kind == ValueKind::Continuous,
            r.channels == Some(channels),
    {
        ValueType { kind: ValueKind::Continuous, channels: Some(channels) }
    }

    pub fn discrete() -> (r: ValueType)
        ensures
            r.kind == ValueKind::Discrete,
            r.channels.is_none(),
    {
        ValueType { kind: ValueKind::Discrete, channels: None }
    }
}

} // verus!
