//! The element types of tensors.

use vstd::prelude::*;

use crate::text::same_text;

verus! {

/// An element type.
#[derive(Debug, Clone, Copy, PartialEq, Eq, Structural)]
pub enum Dtype {
    Bool,
    U8,
    U16,
    I16,
    F16,
    BF16,
    U32,
    I32,
    F32,
    U64,
    F64,
}

/// The element type of this name.
pub open spec fn dtype_named(name: Seq<char>) -> Option<Dtype> {
    if name == "BOOL"@ {
        Some(Dtype::Bool)
    } else if name == "U8"@ {
        Some(Dtype::U8)
    } else if name == "U16"@ {
        Some(Dtype::U16)
    } else if name == "I16"@ {
        Some(Dtype::I16)
    } else if name == "F16"@ {
        Some(Dtype::F16)
    } else if name == "BF16"@ {
        Some(Dtype::BF16)
    } else if name == "U32"@ {
        Some(Dtype::U32)
    } else if name == "I32"@ {
        Some(Dtype::I32)
    } else if name == "F32"@ {
        Some(Dtype::F32)
    } else if name == "U64"@ {
        Some(Dtype::U64)
    } else if name == "F64"@ {
        Some(Dtype::F64)
    } else {
        None
    }
}

/// The element type of this name, where there is one.
pub fn find_dtype(name: &str) -> (dtype: Option<Dtype>)
    ensures
        dtype == dtype_named(name@),
{
    if same_text(name, "BOOL") {
        Some(Dtype::Bool)
    } else if same_text(name, "U8") {
        Some(Dtype::U8)
    } else if same_text(name, "U16") {
        Some(Dtype::U16)
    } else if same_text(name, "I16") {
        Some(Dtype::I16)
    } else if same_text(name, "F16") {
        Some(Dtype::F16)
    } else if same_text(name, "BF16") {
        Some(Dtype::BF16)
    } else if same_text(name, "U32") {
        Some(Dtype::U32)
    } else if same_text(name, "I32") {
        Some(Dtype::I32)
    } else if same_text(name, "F32") {
        Some(Dtype::F32)
    } else if same_text(name, "U64") {
        Some(Dtype::U64)
    } else if same_text(name, "F64") {
        Some(Dtype::F64)
    } else {
        None
    }
}

/// The element type of this name, which must be one.
pub fn dtype_from_name(name: &str) -> (dtype: Dtype)
    requires
        dtype_named(name@) is Some,
    ensures
        dtype_named(name@) == Some(dtype),
{
    find_dtype(name).unwrap()
}

/// The name of an element type, as its `Debug` form gives it.
pub open spec fn debug_name(dtype: Dtype) -> Seq<char> {
    match dtype {
        Dtype::Bool => "Bool"@,
        Dtype::U8 => "U8"@,
        Dtype::U16 => "U16"@,
        Dtype::I16 => "I16"@,
        Dtype::F16 => "F16"@,
        Dtype::BF16 => "BF16"@,
        Dtype::U32 => "U32"@,
        Dtype::I32 => "I32"@,
        Dtype::F32 => "F32"@,
        Dtype::U64 => "U64"@,
        Dtype::F64 => "F64"@,
    }
}

/// How many bits an element of this type takes.
pub open spec fn bits(dtype: Dtype) -> nat {
    match dtype {
        Dtype::Bool | Dtype::U8 => 8,
        Dtype::U16 | Dtype::I16 | Dtype::F16 | Dtype::BF16 => 16,
        Dtype::U32 | Dtype::I32 | Dtype::F32 => 32,
        Dtype::U64 | Dtype::F64 => 64,
    }
}

impl Dtype {
    /// How many bytes an element of this type takes.
    pub fn width(self) -> (bytes: u64)
        ensures
            8 * bytes == bits(self),
    {
        match self {
            Dtype::Bool | Dtype::U8 => 1,
            Dtype::U16 | Dtype::I16 | Dtype::F16 | Dtype::BF16 => 2,
            Dtype::U32 | Dtype::I32 | Dtype::F32 => 4,
            Dtype::U64 | Dtype::F64 => 8,
        }
    }

    /// The name of the element type, as its `Debug` form gives it.
    pub fn label(self) -> (name: &'static str)
        ensures
            name@ == debug_name(self),
    {
        match self {
            Dtype::Bool => "Bool",
            Dtype::U8 => "U8",
            Dtype::U16 => "U16",
            Dtype::I16 => "I16",
            Dtype::F16 => "F16",
            Dtype::BF16 => "BF16",
            Dtype::U32 => "U32",
            Dtype::I32 => "I32",
            Dtype::F32 => "F32",
            Dtype::U64 => "U64",
            Dtype::F64 => "F64",
        }
    }
}

/// The single precision number with the value of a half-size number (bf16), both as bits.
pub fn bf16_to_f32(bits: u16) -> (wide: u32)
    ensures
        wide == bits * 0x1_0000,
{
    bits as u32 * 0x1_0000
}

/// A single precision number cut to half its size (bf16), both as bits: the upper half.
pub fn f32_to_bf16(bits: u32) -> (half: u16)
    ensures
        half == bits / 0x1_0000,
{
    (bits / 0x1_0000) as u16
}

/// A half-size number is not changed by widening it and cutting it again.
pub proof fn bf16_survives_f32(bits: u16)
    ensures
        (bits * 0x1_0000) / 0x1_0000 == bits,
{
}

/// Cutting a number keeps its upper half and clears the lower one: it comes no further
/// from its bits than the lower half can hold.
pub proof fn cut_keeps_upper_half(bits: u32)
    ensures
        (bits / 0x1_0000) * 0x1_0000 <= bits < (bits / 0x1_0000) * 0x1_0000 + 0x1_0000,
{
}

} // verus!
