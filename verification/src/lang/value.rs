//! Runtime values and their kinds.
//!
//! A number is carried as the bit pattern of an IEEE 754 single-precision
//! value. The library never computes with numbers; it reads from the
//! pattern only what its rules depend on (the sign, whether the number is
//! zero, whether it is finite) and leaves arithmetic to the host.

use vstd::prelude::*;

verus! {

/// A number, as the bit pattern of a single-precision value.
#[derive(Clone, Copy, Debug, PartialEq, Eq, Structural)]
pub struct Number {
    pub bits: u32,
}

/// The pattern of the number one.
pub const ONE: u32 = 0x3f80_0000;

/// The pattern of the number minus one.
pub const MINUS_ONE: u32 = 0xbf80_0000;

impl Number {
    /// Whether the pattern is that of zero, of either sign.
    pub open spec fn spec_is_zero(self) -> bool {
        self.bits & 0x7fff_ffff == 0
    }

    /// Whether the pattern is that of a number, and not of an infinity or
    /// of a value that is no number.
    pub open spec fn spec_is_finite(self) -> bool {
        (self.bits >> 23) & 0xff != 0xff
    }

    /// Whether the sign is set on a pattern that is not zero.
    pub open spec fn spec_is_negative(self) -> bool {
        self.bits >> 31 == 1 && !self.spec_is_zero()
    }

    /// The exponent field of the pattern.
    pub open spec fn exponent(self) -> u32 {
        (self.bits >> 23) & 0xff
    }

    /// The significand of a pattern whose exponent field is not zero: the
    /// fraction field behind a leading one.
    pub open spec fn significand(self) -> u64 {
        ((self.bits & 0x7f_ffff) | 0x80_0000) as u64
    }

    /// The number without its fraction, as a conversion to an unsigned
    /// integer gives it: zero for a number below one and for what is no
    /// number, the greatest integer for a number that 64 bits cannot hold.
    /// The significand stands for its value times two to the power of the
    /// exponent field less 150.
    pub open spec fn spec_whole(self) -> u64 {
        if self.bits >> 31 == 1 || self.exponent() < 127 {
            0
        } else if self.exponent() == 0xff {
            if self.bits & 0x7f_ffff == 0 {
                u64::MAX
            } else {
                0
            }
        } else if self.exponent() <= 150 {
            self.significand() >> ((150 - self.exponent()) as u64)
        } else if self.exponent() <= 190 {
            self.significand() << ((self.exponent() - 150) as u64)
        } else {
            u64::MAX
        }
    }

    /// The number without its fraction.
    #[verifier::when_used_as_spec(spec_whole)]
    pub fn whole(self) -> (r: u64)
        ensures
            r == self.spec_whole(),
    {
        let bits: u32 = self.bits;
        let exponent: u32 = (bits >> 23) & 0xff;
        let fraction: u32 = bits & 0x7f_ffff;
        assert(exponent <= 0xff) by (bit_vector)
            requires
                exponent == (bits >> 23) & 0xff,
        ;
        if bits >> 31 == 1 || exponent < 127 {
            0
        } else if exponent == 0xff {
            if fraction == 0 {
                u64::MAX
            } else {
                0
            }
        } else {
            let significand: u64 = (fraction | 0x80_0000) as u64;
            if exponent <= 150 {
                significand >> ((150 - exponent) as u64)
            } else if exponent <= 190 {
                significand << ((exponent - 150) as u64)
            } else {
                u64::MAX
            }
        }
    }

    /// Whether the number is zero, of either sign.
    #[verifier::when_used_as_spec(spec_is_zero)]
    pub fn is_zero(self) -> (r: bool)
        ensures
            r == self.spec_is_zero(),
    {
        self.bits & 0x7fff_ffff == 0
    }

    /// Whether the number is finite.
    #[verifier::when_used_as_spec(spec_is_finite)]
    pub fn is_finite(self) -> (r: bool)
        ensures
            r == self.spec_is_finite(),
    {
        (self.bits >> 23) & 0xff != 0xff
    }

    /// Whether the number is below zero.
    #[verifier::when_used_as_spec(spec_is_negative)]
    pub fn is_negative(self) -> (r: bool)
        ensures
            r == self.spec_is_negative(),
    {
        self.bits >> 31 == 1 && !self.is_zero()
    }
}

/// The kinds of runtime values, and `Any` for a parameter that takes each.
#[derive(Clone, Copy, Debug, PartialEq, Eq, Structural)]
pub enum RuntimeType {
    Number,
    String,
    Bool,
    Any,
    Null,
}

/// A value that a program computes.
#[derive(Debug, PartialEq)]
pub enum RuntimeValue {
    Number(Number),
    String(String),
    Bool(bool),
    Null,
}

/// A runtime value as a mathematical value.
pub enum Value {
    Number(Number),
    Text(Seq<char>),
    Bool(bool),
    Null,
}

impl Value {
    /// The kind of the value.
    pub open spec fn kind(self) -> RuntimeType {
        match self {
            Value::Number(_) => RuntimeType::Number,
            Value::Text(_) => RuntimeType::String,
            Value::Bool(_) => RuntimeType::Bool,
            Value::Null => RuntimeType::Null,
        }
    }

    /// Whether a parameter of kind `expected` takes the value.
    pub open spec fn fits(self, expected: RuntimeType) -> bool {
        expected == RuntimeType::Any || self.kind() == expected
    }
}

impl View for RuntimeValue {
    type V = Value;

    open spec fn view(&self) -> Value {
        match self {
            RuntimeValue::Number(value) => Value::Number(*value),
            RuntimeValue::String(value) => Value::Text(value@),
            RuntimeValue::Bool(value) => Value::Bool(*value),
            RuntimeValue::Null => Value::Null,
        }
    }
}

impl Clone for RuntimeValue {
    fn clone(&self) -> (r: Self)
        ensures
            r == *self,
    {
        match self {
            RuntimeValue::Number(value) => RuntimeValue::Number(*value),
            RuntimeValue::String(value) => RuntimeValue::String(value.clone()),
            RuntimeValue::Bool(value) => RuntimeValue::Bool(*value),
            RuntimeValue::Null => RuntimeValue::Null,
        }
    }
}

impl RuntimeValue {
    /// The kind of the value.
    pub fn to_type(&self) -> (r: RuntimeType)
        ensures
            r == self@.kind(),
    {
        match self {
            RuntimeValue::Bool(..) => RuntimeType::Bool,
            RuntimeValue::Number(..) => RuntimeType::Number,
            RuntimeValue::String(..) => RuntimeType::String,
            RuntimeValue::Null => RuntimeType::Null,
        }
    }

    /// Whether a parameter of kind `runtime_type` takes the value.
    pub fn matches_type(&self, runtime_type: &RuntimeType) -> (r: bool)
        ensures
            r == self@.fits(*runtime_type),
    {
        match (self.to_type(), runtime_type) {
            (RuntimeType::Number, RuntimeType::Number) => true,
            (RuntimeType::Bool, RuntimeType::Bool) => true,
            (RuntimeType::String, RuntimeType::String) => true,
            (RuntimeType::Null, RuntimeType::Null) => true,
            (_, RuntimeType::Any) => true,
            _ => false,
        }
    }
}

/// The models of a sequence of values.
pub open spec fn values(items: Seq<RuntimeValue>) -> Seq<Value> {
    items.map_values(|v: RuntimeValue| v@)
}

} // verus!
