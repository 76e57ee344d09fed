//! The element types of an array, and the values that can be elements.

use crate::ascii::lemma_ascii_bytes;
use crate::byte_order::limit;
use vstd::prelude::*;
use vstd::string::StringSliceAdditionalSpecFns;

verus! {

/// The type of the elements of an array, named by its type code: a letter
/// for the kind (`i` signed integer, `u` unsigned integer, `f` IEEE float)
/// and a digit for the width in bytes.
#[derive(Clone, Copy, Debug, PartialEq, Eq, Structural)]
pub enum ElementType {
    I1,
    I2,
    I4,
    I8,
    U1,
    U2,
    U4,
    U8,
    F4,
    F8,
}

impl ElementType {
    /// The number of bytes that one element takes.
    pub open spec fn spec_width(self) -> nat {
        match self {
            ElementType::I1 | ElementType::U1 => 1,
            ElementType::I2 | ElementType::U2 => 2,
            ElementType::I4 | ElementType::U4 | ElementType::F4 => 4,
            ElementType::I8 | ElementType::U8 | ElementType::F8 => 8,
        }
    }

    /// The two-character type code, without a byte-order prefix.
    pub open spec fn spec_code(self) -> Seq<u8> {
        match self {
            ElementType::I1 => "i1".spec_bytes(),
            ElementType::I2 => "i2".spec_bytes(),
            ElementType::I4 => "i4".spec_bytes(),
            ElementType::I8 => "i8".spec_bytes(),
            ElementType::U1 => "u1".spec_bytes(),
            ElementType::U2 => "u2".spec_bytes(),
            ElementType::U4 => "u4".spec_bytes(),
            ElementType::U8 => "u8".spec_bytes(),
            ElementType::F4 => "f4".spec_bytes(),
            ElementType::F8 => "f8".spec_bytes(),
        }
    }

    /// The number of bytes that one element takes.
    pub fn width(self) -> (width: usize)
        ensures
            width == self.spec_width(),
    {
        match self {
            ElementType::I1 | ElementType::U1 => 1,
            ElementType::I2 | ElementType::U2 => 2,
            ElementType::I4 | ElementType::U4 | ElementType::F4 => 4,
            ElementType::I8 | ElementType::U8 | ElementType::F8 => 8,
        }
    }

    /// The two-character type code, without a byte-order prefix.
    pub fn code(self) -> (code: &'static [u8])
        ensures
            code@ == self.spec_code(),
    {
        match self {
            ElementType::I1 => "i1".as_bytes(),
            ElementType::I2 => "i2".as_bytes(),
            ElementType::I4 => "i4".as_bytes(),
            ElementType::I8 => "i8".as_bytes(),
            ElementType::U1 => "u1".as_bytes(),
            ElementType::U2 => "u2".as_bytes(),
            ElementType::U4 => "u4".as_bytes(),
            ElementType::U8 => "u8".as_bytes(),
            ElementType::F4 => "f4".as_bytes(),
            ElementType::F8 => "f8".as_bytes(),
        }
    }
}

/// A type code is two characters: the letter of the kind, then the width in
/// bytes as a decimal digit.
pub proof fn lemma_code(ty: ElementType)
    ensures
        ty.spec_code().len() == 2,
        ty.spec_code()[0] == match ty {
            ElementType::I1 | ElementType::I2 | ElementType::I4 | ElementType::I8 => 0x69u8,
            ElementType::U1 | ElementType::U2 | ElementType::U4 | ElementType::U8 => 0x75u8,
            ElementType::F4 | ElementType::F8 => 0x66u8,
        },
        ty.spec_code()[1] == 0x30 + ty.spec_width(),
{
    reveal_strlit("i1");
    reveal_strlit("i2");
    reveal_strlit("i4");
    reveal_strlit("i8");
    reveal_strlit("u1");
    reveal_strlit("u2");
    reveal_strlit("u4");
    reveal_strlit("u8");
    reveal_strlit("f4");
    reveal_strlit("f8");
    match ty {
        ElementType::I1 => lemma_ascii_bytes("i1"),
        ElementType::I2 => lemma_ascii_bytes("i2"),
        ElementType::I4 => lemma_ascii_bytes("i4"),
        ElementType::I8 => lemma_ascii_bytes("i8"),
        ElementType::U1 => lemma_ascii_bytes("u1"),
        ElementType::U2 => lemma_ascii_bytes("u2"),
        ElementType::U4 => lemma_ascii_bytes("u4"),
        ElementType::U8 => lemma_ascii_bytes("u8"),
        ElementType::F4 => lemma_ascii_bytes("f4"),
        ElementType::F8 => lemma_ascii_bytes("f8"),
    }
}

/// Each element type has a type code of its own.
pub proof fn lemma_code_injective(a: ElementType, b: ElementType)
    requires
        a.spec_code() == b.spec_code(),
    ensures
        a == b,
{
    lemma_code(a);
    lemma_code(b);
}

/// The words of one, two, four and eight bytes.
pub proof fn lemma_limits()
    ensures
        limit(1) == 0x100,
        limit(2) == 0x1_0000,
        limit(4) == 0x1_0000_0000,
        limit(8) == 0x1_0000_0000_0000_0000,
{
    reveal_with_fuel(limit, 9);
}

/// The word of `width` bytes that holds `value` in two's complement.
pub open spec fn twos_complement(width: nat, value: int) -> nat {
    if value >= 0 {
        value as nat
    } else {
        (value + limit(width)) as nat
    }
}

/// The signed value that a word of `width` bytes holds in two's complement.
pub open spec fn from_twos_complement(width: nat, bits: nat) -> int {
    if 2 * bits < limit(width) {
        bits as int
    } else {
        bits - limit(width)
    }
}

/// A value that can be an element of an array: it has an element type, and
/// a bit pattern as wide as that type says.
pub trait Element: Sized {
    /// The element type of every value of this type.
    spec fn kind() -> ElementType;

    /// The bit pattern of this value, as a number: the value itself for an
    /// unsigned integer, two's complement for a signed one, the IEEE
    /// encoding for a float.
    spec fn bits(&self) -> nat;

    /// The value with the given bit pattern.
    spec fn of_bits(bits: nat) -> Self;

    /// The bit pattern fits the width of the element type, and determines
    /// the value.
    proof fn lemma_bits(&self)
        ensures
            self.bits() < limit(Self::kind().spec_width()),
            Self::of_bits(self.bits()) == *self,
    ;

    /// The element type of every value of this type.
    fn element_type() -> (ty: ElementType)
        ensures
            ty == Self::kind(),
    ;

    /// The bit pattern of this value.
    fn word(&self) -> (word: u64)
        ensures
            word == self.bits(),
    ;
}

impl Element for u8 {
    open spec fn kind() -> ElementType {
        ElementType::U1
    }

    open spec fn bits(&self) -> nat {
        *self as nat
    }

    open spec fn of_bits(bits: nat) -> u8 {
        bits as u8
    }

    proof fn lemma_bits(&self) {
        lemma_limits();
    }

    fn element_type() -> (ty: ElementType) {
        ElementType::U1
    }

    fn word(&self) -> (word: u64) {
        *self as u64
    }
}

impl Element for u16 {
    open spec fn kind() -> ElementType {
        ElementType::U2
    }

    open spec fn bits(&self) -> nat {
        *self as nat
    }

    open spec fn of_bits(bits: nat) -> u16 {
        bits as u16
    }

    proof fn lemma_bits(&self) {
        lemma_limits();
    }

    fn element_type() -> (ty: ElementType) {
        ElementType::U2
    }

    fn word(&self) -> (word: u64) {
        *self as u64
    }
}

impl Element for u32 {
    open spec fn kind() -> ElementType {
        ElementType::U4
    }

    open spec fn bits(&self) -> nat {
        *self as nat
    }

    open spec fn of_bits(bits: nat) -> u32 {
        bits as u32
    }

    proof fn lemma_bits(&self) {
        lemma_limits();
    }

    fn element_type() -> (ty: ElementType) {
        ElementType::U4
    }

    fn word(&self) -> (word: u64) {
        *self as u64
    }
}

impl Element for u64 {
    open spec fn kind() -> ElementType {
        ElementType::U8
    }

    open spec fn bits(&self) -> nat {
        *self as nat
    }

    open spec fn of_bits(bits: nat) -> u64 {
        bits as u64
    }

    proof fn lemma_bits(&self) {
        lemma_limits();
    }

    fn element_type() -> (ty: ElementType) {
        ElementType::U8
    }

    fn word(&self) -> (word: u64) {
        *self
    }
}

impl Element for i8 {
    open spec fn kind() -> ElementType {
        ElementType::I1
    }

    open spec fn bits(&self) -> nat {
        twos_complement(1, *self as int)
    }

    open spec fn of_bits(bits: nat) -> i8 {
        from_twos_complement(1, bits) as i8
    }

    proof fn lemma_bits(&self) {
        lemma_limits();
    }

    fn element_type() -> (ty: ElementType) {
        ElementType::I1
    }

    fn word(&self) -> (word: u64) {
        proof {
            lemma_limits();
        }
        if *self >= 0 {
            *self as u64
        } else {
            (*self as i64 + 0x100) as u64
        }
    }
}

impl Element for i16 {
    open spec fn kind() -> ElementType {
        ElementType::I2
    }

    open spec fn bits(&self) -> nat {
        twos_complement(2, *self as int)
    }

    open spec fn of_bits(bits: nat) -> i16 {
        from_twos_complement(2, bits) as i16
    }

    proof fn lemma_bits(&self) {
        lemma_limits();
    }

    fn element_type() -> (ty: ElementType) {
        ElementType::I2
    }

    fn word(&self) -> (word: u64) {
        proof {
            lemma_limits();
        }
        if *self >= 0 {
            *self as u64
        } else {
            (*self as i64 + 0x1_0000) as u64
        }
    }
}

impl Element for i32 {
    open spec fn kind() -> ElementType {
        ElementType::I4
    }

    open spec fn bits(&self) -> nat {
        twos_complement(4, *self as int)
    }

    open spec fn of_bits(bits: nat) -> i32 {
        from_twos_complement(4, bits) as i32
    }

    proof fn lemma_bits(&self) {
        lemma_limits();
    }

    fn element_type() -> (ty: ElementType) {
        ElementType::I4
    }

    fn word(&self) -> (word: u64) {
        proof {
            lemma_limits();
        }
        if *self >= 0 {
            *self as u64
        } else {
            (*self as i64 + 0x1_0000_0000) as u64
        }
    }
}

impl Element for i64 {
    open spec fn kind() -> ElementType {
        ElementType::I8
    }

    open spec fn bits(&self) -> nat {
        twos_complement(8, *self as int)
    }

    open spec fn of_bits(bits: nat) -> i64 {
        from_twos_complement(8, bits) as i64
    }

    proof fn lemma_bits(&self) {
        lemma_limits();
    }

    fn element_type() -> (ty: ElementType) {
        ElementType::I8
    }

    fn word(&self) -> (word: u64) {
        proof {
            lemma_limits();
        }
        if *self >= 0 {
            *self as u64
        } else {
            (*self as i128 + 0x1_0000_0000_0000_0000) as u64
        }
    }
}

/// A single-precision IEEE float, held as its 32-bit encoding. Two values
/// are equal when their encodings are, bit for bit.
#[derive(Clone, Copy, Debug, PartialEq, Eq, Structural)]
pub struct Float32 {
    pub bits: u32,
}

impl Float32 {
    /// The float with the given encoding.
    pub fn from_bits(bits: u32) -> (value: Float32)
        ensures
            value.bits == bits,
    {
        Float32 { bits }
    }

    /// The encoding of this float.
    pub fn to_bits(self) -> (bits: u32)
        ensures
            bits == self.bits,
    {
        self.bits
    }
}

impl Element for Float32 {
    open spec fn kind() -> ElementType {
        ElementType::F4
    }

    open spec fn bits(&self) -> nat {
        self.bits as nat
    }

    open spec fn of_bits(bits: nat) -> Float32 {
        Float32 { bits: bits as u32 }
    }

    proof fn lemma_bits(&self) {
        lemma_limits();
    }

    fn element_type() -> (ty: ElementType) {
        ElementType::F4
    }

    fn word(&self) -> (word: u64) {
        self.bits as u64
    }
}

/// A double-precision IEEE float, held as its 64-bit encoding. Two values
/// are equal when their encodings are, bit for bit.
#[derive(Clone, Copy, Debug, PartialEq, Eq, Structural)]
pub struct Float64 {
    pub bits: u64,
}

impl Float64 {
    /// The float with the given encoding.
    pub fn from_bits(bits: u64) -> (value: Float64)
        ensures
            value.bits == bits,
    {
        Float64 { bits }
    }

    /// The encoding of this float.
    pub fn to_bits(self) -> (bits: u64)
        ensures
            bits == self.bits,
    {
        self.bits
    }
}

impl Element for Float64 {
    open spec fn kind() -> ElementType {
        ElementType::F8
    }

    open spec fn bits(&self) -> nat {
        self.bits as nat
    }

    open spec fn of_bits(bits: nat) -> Float64 {
        Float64 { bits: bits as u64 }
    }

    proof fn lemma_bits(&self) {
        lemma_limits();
    }

    fn element_type() -> (ty: ElementType) {
        ElementType::F8
    }

    fn word(&self) -> (word: u64) {
        self.bits
    }
}

} // verus!
