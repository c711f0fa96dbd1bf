//! The catalog of wire types: the closed set of element types a record
//! header can announce, each with its fixed byte width, except the two
//! composite kinds whose width depends on context.

use vstd::prelude::*;

verus! {

/// The data type of the sensor data carried by one record.
///
/// Every variant but `Complex` and `Nested` has a fixed byte width on the
/// wire. A `Complex` element's layout is defined by the most recently seen
/// type-template record of the same frame; a `Nested` payload is itself a
/// record stream.
#[derive(Clone, Copy, Debug, PartialEq, Eq, Structural)]
pub enum Type {
    /// Single byte signed integer, tag byte `b`.
    I8,
    /// Single byte unsigned integer, tag byte `B`.
    U8,
    /// Single byte of C-style ASCII text, tag byte `c`; size and repeat
    /// together set the length of the (optionally NUL-terminated) run.
    Char,
    /// 64-bit IEEE 754 value, tag byte `d`, kept as its raw bit pattern.
    F64,
    /// 32-bit IEEE 754 value, tag byte `f`, kept as its raw bit pattern.
    F32,
    /// Four character key appearing as a value, tag byte `F`.
    FourCC,
    /// 128-bit identifier, tag byte `G`.
    U128,
    /// 64-bit signed integer, tag byte `j`.
    I64,
    /// 64-bit unsigned integer, tag byte `J`.
    U64,
    /// 32-bit signed integer, tag byte `l`.
    I32,
    /// 32-bit unsigned integer, tag byte `L`.
    U32,
    /// 32-bit fixed-point rational Q15.16, tag byte `q`, kept as its raw
    /// two's-complement bit pattern.
    Fixed32,
    /// 64-bit fixed-point rational Q31.32, tag byte `Q`, kept as its raw
    /// two's-complement bit pattern.
    Fixed64,
    /// 16-bit signed integer, tag byte `s`.
    I16,
    /// 16-bit unsigned integer, tag byte `S`.
    U16,
    /// UTC date and time as 16 bytes of text `yymmddhhmmss.sss`, tag byte `U`.
    Date,
    /// Element layout defined by a preceding type-template record, tag byte `?`.
    Complex,
    /// The payload is itself a stream of records, tag byte NUL.
    Nested,
}

impl Type {
    /// The tag byte that announces this type in a record header.
    pub open spec fn spec_tag_byte(self) -> u8 {
        match self {
            Type::I8 => 98u8,
            Type::U8 => 66u8,
            Type::Char => 99u8,
            Type::F64 => 100u8,
            Type::F32 => 102u8,
            Type::FourCC => 70u8,
            Type::U128 => 71u8,
            Type::I64 => 106u8,
            Type::U64 => 74u8,
            Type::I32 => 108u8,
            Type::U32 => 76u8,
            Type::Fixed32 => 113u8,
            Type::Fixed64 => 81u8,
            Type::I16 => 115u8,
            Type::U16 => 83u8,
            Type::Date => 85u8,
            Type::Complex => 63u8,
            Type::Nested => 0,
        }
    }

    /// The type a header tag byte announces, or `None` for a byte outside
    /// the recognized set.
    pub open spec fn spec_from_byte(b: u8) -> Option<Type> {
        if b == 98u8 {
            Some(Type::I8)
        } else if b == 66u8 {
            Some(Type::U8)
        } else if b == 99u8 {
            Some(Type::Char)
        } else if b == 100u8 {
            Some(Type::F64)
        } else if b == 102u8 {
            Some(Type::F32)
        } else if b == 70u8 {
            Some(Type::FourCC)
        } else if b == 71u8 {
            Some(Type::U128)
        } else if b == 106u8 {
            Some(Type::I64)
        } else if b == 74u8 {
            Some(Type::U64)
        } else if b == 108u8 {
            Some(Type::I32)
        } else if b == 76u8 {
            Some(Type::U32)
        } else if b == 113u8 {
            Some(Type::Fixed32)
        } else if b == 81u8 {
            Some(Type::Fixed64)
        } else if b == 115u8 {
            Some(Type::I16)
        } else if b == 83u8 {
            Some(Type::U16)
        } else if b == 85u8 {
            Some(Type::Date)
        } else if b == 63u8 {
            Some(Type::Complex)
        } else if b == 0 {
            Some(Type::Nested)
        } else {
            None
        }
    }

    /// Resolve a header tag byte to its type, or `None` for an unrecognized
    /// byte.
    pub fn from_byte(b: u8) -> (t: Option<Type>)
        ensures
            t == Type::spec_from_byte(b),
    {
        match b {
            98u8 => Some(Type::I8),
            66u8 => Some(Type::U8),
            99u8 => Some(Type::Char),
            100u8 => Some(Type::F64),
            102u8 => Some(Type::F32),
            70u8 => Some(Type::FourCC),
            71u8 => Some(Type::U128),
            106u8 => Some(Type::I64),
            74u8 => Some(Type::U64),
            108u8 => Some(Type::I32),
            76u8 => Some(Type::U32),
            113u8 => Some(Type::Fixed32),
            81u8 => Some(Type::Fixed64),
            115u8 => Some(Type::I16),
            83u8 => Some(Type::U16),
            85u8 => Some(Type::Date),
            63u8 => Some(Type::Complex),
            0 => Some(Type::Nested),
            _ => None,
        }
    }

    /// The fixed byte width of one element of this type, or `None` for
    /// `Complex` and `Nested`, whose true width depends on context and must
    /// be supplied by the caller.
    pub open spec fn spec_width(self) -> Option<usize> {
        match self {
            Type::I8 | Type::U8 | Type::Char => Some(1usize),
            Type::I16 | Type::U16 => Some(2usize),
            Type::F32 | Type::FourCC | Type::I32 | Type::U32 | Type::Fixed32 => Some(4usize),
            Type::F64 | Type::I64 | Type::U64 | Type::Fixed64 => Some(8usize),
            Type::U128 | Type::Date => Some(16usize),
            Type::Complex | Type::Nested => None,
        }
    }

    /// The fixed byte width of one element, or `None` for the two kinds
    /// whose width is contextual.
    pub fn width(&self) -> (w: Option<usize>)
        ensures
            w == self.spec_width(),
    {
        match self {
            Type::I8 | Type::U8 | Type::Char => Some(1),
            Type::I16 | Type::U16 => Some(2),
            Type::F32 | Type::FourCC | Type::I32 | Type::U32 | Type::Fixed32 => Some(4),
            Type::F64 | Type::I64 | Type::U64 | Type::Fixed64 => Some(8),
            Type::U128 | Type::Date => Some(16),
            Type::Complex | Type::Nested => None,
        }
    }

    /// The size reported by [`Type::size`]: the fixed width where one
    /// exists, and a fallback of 1 for `Complex` and `Nested`.
    pub open spec fn spec_size(self) -> usize {
        match self.spec_width() {
            Some(w) => w,
            None => 1usize,
        }
    }

    /// The size of one element of this type in bytes.
    ///
    /// `Complex` and `Nested` have no fixed width of their own; this
    /// reports 1 for them. Decoding logic must not rely on that fallback:
    /// it uses [`Type::width`], which makes the contextual dependency
    /// explicit.
    pub fn size(&self) -> (s: usize)
        ensures
            s == self.spec_size(),
    {
        match self.width() {
            Some(w) => w,
            None => 1,
        }
    }

    /// Every type of the catalog, in declaration order.
    pub open spec fn spec_all() -> Seq<Type> {
        seq![
            Type::I8,
            Type::U8,
            Type::Char,
            Type::F64,
            Type::F32,
            Type::FourCC,
            Type::U128,
            Type::I64,
            Type::U64,
            Type::I32,
            Type::U32,
            Type::Fixed32,
            Type::Fixed64,
            Type::I16,
            Type::U16,
            Type::Date,
            Type::Complex,
            Type::Nested,
        ]
    }

    /// Every type of the catalog, in declaration order.
    pub fn all() -> (ts: Vec<Type>)
        ensures
            ts@ == Type::spec_all(),
    {
        let ts: Vec<Type> = vec![
            Type::I8,
            Type::U8,
            Type::Char,
            Type::F64,
            Type::F32,
            Type::FourCC,
            Type::U128,
            Type::I64,
            Type::U64,
            Type::I32,
            Type::U32,
            Type::Fixed32,
            Type::Fixed64,
            Type::I16,
            Type::U16,
            Type::Date,
            Type::Complex,
            Type::Nested,
        ];
        proof {
            assert(ts@ =~= Type::spec_all());
        }
        ts
    }

    /// The name of this type, as a freshly allocated string.
    pub fn name(&self) -> (s: String)
        ensures
            s@ == self.spec_name(),
    {
        match self {
            Type::I8 => "I8".to_owned(),
            Type::U8 => "U8".to_owned(),
            Type::Char => "Char".to_owned(),
            Type::F64 => "F64".to_owned(),
            Type::F32 => "F32".to_owned(),
            Type::FourCC => "FourCC".to_owned(),
            Type::U128 => "U128".to_owned(),
            Type::I64 => "I64".to_owned(),
            Type::U64 => "U64".to_owned(),
            Type::I32 => "I32".to_owned(),
            Type::U32 => "U32".to_owned(),
            Type::Fixed32 => "Fixed32".to_owned(),
            Type::Fixed64 => "Fixed64".to_owned(),
            Type::I16 => "I16".to_owned(),
            Type::U16 => "U16".to_owned(),
            Type::Date => "Date".to_owned(),
            Type::Complex => "Complex".to_owned(),
            Type::Nested => "Nested".to_owned(),
        }
    }

    /// The name of this type as a sequence of characters.
    pub open spec fn spec_name(self) -> Seq<char> {
        match self {
            Type::I8 => "I8"@,
            Type::U8 => "U8"@,
            Type::Char => "Char"@,
            Type::F64 => "F64"@,
            Type::F32 => "F32"@,
            Type::FourCC => "FourCC"@,
            Type::U128 => "U128"@,
            Type::I64 => "I64"@,
            Type::U64 => "U64"@,
            Type::I32 => "I32"@,
            Type::U32 => "U32"@,
            Type::Fixed32 => "Fixed32"@,
            Type::Fixed64 => "Fixed64"@,
            Type::I16 => "I16"@,
            Type::U16 => "U16"@,
            Type::Date => "Date"@,
            Type::Complex => "Complex"@,
            Type::Nested => "Nested"@,
        }
    }
}

} // verus!
