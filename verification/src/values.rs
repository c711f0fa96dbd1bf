//! The decoded representation: a record is a key paired with a tagged
//! value, and a stream is an ordered sequence of records. Each executable
//! type has an abstract view used by the decoder's contracts.

use vstd::prelude::*;
use crate::tags::Tag;
use crate::tags::TagV;
use crate::timestamp::UtcTime;
use crate::types::Type;

verus! {

/// The decoded value of one record.
///
/// Scalar variants carry the native representation of their wire type.
/// The two floating-point kinds and the two fixed-point kinds carry their
/// raw wire bit patterns, losslessly; callers that want machine floats or
/// rationals reinterpret the bits.
#[derive(Debug)]
pub enum Value {
    /// A single byte signed integer.
    I8(i8),
    /// A single byte unsigned integer.
    U8(u8),
    /// A single ASCII character.
    Char(char),
    /// A character run decoded as one text string, NUL-truncated.
    String(String),
    /// The raw bit pattern of a 64-bit IEEE 754 value.
    F64(u64),
    /// The raw bit pattern of a 32-bit IEEE 754 value.
    F32(u32),
    /// A four character key appearing as a value.
    Tag(Tag),
    /// A 128-bit identifier.
    U128(u128),
    /// A 64-bit signed integer.
    I64(i64),
    /// A 64-bit unsigned integer.
    U64(u64),
    /// A 32-bit signed integer.
    I32(i32),
    /// A 32-bit unsigned integer.
    U32(u32),
    /// The raw two's-complement bit pattern of a Q15.16 fixed-point
    /// rational: the stored integer divided by 2 to the 16th.
    Fixed32(i32),
    /// The raw two's-complement bit pattern of a Q31.32 fixed-point
    /// rational: the stored integer divided by 2 to the 32nd.
    Fixed64(i64),
    /// A 16-bit signed integer.
    I16(i16),
    /// A 16-bit unsigned integer.
    U16(u16),
    /// A UTC date and time.
    Date(UtcTime),
    /// One element sequence per repeat, each laid out by the remembered
    /// type template.
    Complex(Vec<Vec<Value>>),
    /// An embedded stream of records, decoded in a fresh frame.
    Nested(Vec<KeyValue>),
    /// One element sequence per repeat of a simple, possibly repeated,
    /// possibly multi-element record.
    Simple(Vec<Vec<Value>>),
    /// A type template: the layout declared for later complex records of
    /// the same frame.
    Type(Vec<Type>),
    /// A character run decoded as repeated fixed-width text fields, each
    /// independently NUL-truncated.
    Strings(Vec<String>),
}

/// One decoded record: a key and its value. Order among records is
/// significant and preserved.
#[derive(Debug)]
pub struct KeyValue {
    /// The record's four-character key.
    pub key: Tag,
    /// The record's decoded value.
    pub value: Value,
}

/// The abstract form of a decoded value, over mathematical sequences.
pub enum ValueV {
    /// A single byte signed integer.
    I8(i8),
    /// A single byte unsigned integer.
    U8(u8),
    /// A single ASCII character.
    Char(char),
    /// A character run decoded as one text string, NUL-truncated.
    String(Seq<char>),
    /// The raw bit pattern of a 64-bit IEEE 754 value.
    F64(u64),
    /// The raw bit pattern of a 32-bit IEEE 754 value.
    F32(u32),
    /// A four character key appearing as a value.
    Tag(TagV),
    /// A 128-bit identifier.
    U128(u128),
    /// A 64-bit signed integer.
    I64(i64),
    /// A 64-bit unsigned integer.
    U64(u64),
    /// A 32-bit signed integer.
    I32(i32),
    /// A 32-bit unsigned integer.
    U32(u32),
    /// The raw two's-complement bit pattern of a Q15.16 fixed-point
    /// rational.
    Fixed32(i32),
    /// The raw two's-complement bit pattern of a Q31.32 fixed-point
    /// rational.
    Fixed64(i64),
    /// A 16-bit signed integer.
    I16(i16),
    /// A 16-bit unsigned integer.
    U16(u16),
    /// A UTC date and time.
    Date(UtcTime),
    /// One element sequence per repeat, laid out by the remembered type
    /// template.
    Complex(Seq<Seq<ValueV>>),
    /// An embedded stream of records.
    Nested(Seq<RecordV>),
    /// One element sequence per repeat of a simple record.
    Simple(Seq<Seq<ValueV>>),
    /// A type template.
    Type(Seq<Type>),
    /// Repeated fixed-width text fields.
    Strings(Seq<Seq<char>>),
}

/// The abstract form of one decoded record.
pub struct RecordV {
    /// The record's key.
    pub key: TagV,
    /// The record's value.
    pub value: ValueV,
}

/// The abstract form of a decoded value.
pub open spec fn value_view(v: Value) -> ValueV
    decreases v,
{
    match v {
        Value::I8(x) => ValueV::I8(x),
        Value::U8(x) => ValueV::U8(x),
        Value::Char(x) => ValueV::Char(x),
        Value::String(s) => ValueV::String(s@),
        Value::F64(x) => ValueV::F64(x),
        Value::F32(x) => ValueV::F32(x),
        Value::Tag(t) => ValueV::Tag(t@),
        Value::U128(x) => ValueV::U128(x),
        Value::I64(x) => ValueV::I64(x),
        Value::U64(x) => ValueV::U64(x),
        Value::I32(x) => ValueV::I32(x),
        Value::U32(x) => ValueV::U32(x),
        Value::Fixed32(x) => ValueV::Fixed32(x),
        Value::Fixed64(x) => ValueV::Fixed64(x),
        Value::I16(x) => ValueV::I16(x),
        Value::U16(x) => ValueV::U16(x),
        Value::Date(d) => ValueV::Date(d),
        Value::Complex(rows) => ValueV::Complex(rows_view(rows@)),
        Value::Nested(kvs) => ValueV::Nested(records_view(kvs@)),
        Value::Simple(rows) => ValueV::Simple(rows_view(rows@)),
        Value::Type(ts) => ValueV::Type(ts@),
        Value::Strings(ss) => ValueV::Strings(strings_view(ss@)),
    }
}

/// The abstract form of a sequence of values.
pub open spec fn values_view(vs: Seq<Value>) -> Seq<ValueV>
    decreases vs,
{
    if vs.len() == 0 {
        Seq::empty()
    } else {
        seq![value_view(vs[0])] + values_view(vs.drop_first())
    }
}

/// The abstract form of a sequence of element sequences.
pub open spec fn rows_view(rows: Seq<Vec<Value>>) -> Seq<Seq<ValueV>>
    decreases rows,
{
    if rows.len() == 0 {
        Seq::empty()
    } else {
        seq![values_view(rows[0]@)] + rows_view(rows.drop_first())
    }
}

/// The abstract form of one record.
pub open spec fn kv_view(kv: KeyValue) -> RecordV
    decreases kv,
{
    RecordV { key: kv.key@, value: value_view(kv.value) }
}

/// The abstract form of a sequence of records.
pub open spec fn records_view(kvs: Seq<KeyValue>) -> Seq<RecordV>
    decreases kvs,
{
    if kvs.len() == 0 {
        Seq::empty()
    } else {
        seq![kv_view(kvs[0])] + records_view(kvs.drop_first())
    }
}

/// The abstract form of a sequence of text strings.
pub open spec fn strings_view(ss: Seq<String>) -> Seq<Seq<char>> {
    ss.map_values(|s: String| s@)
}

impl View for Value {
    type V = ValueV;

    open spec fn view(&self) -> ValueV {
        value_view(*self)
    }
}

impl View for KeyValue {
    type V = RecordV;

    open spec fn view(&self) -> RecordV {
        kv_view(*self)
    }
}

// --- Pointwise characterizations of the sequence views -------------------

/// `values_view` maps the sequence pointwise.
pub proof fn lemma_values_view(vs: Seq<Value>)
    ensures
        values_view(vs).len() == vs.len(),
        forall|i: int| 0 <= i < vs.len() ==> values_view(vs)[i] == value_view(#[trigger] vs[i]),
    decreases vs,
{
    if vs.len() > 0 {
        lemma_values_view(vs.drop_first());
        assert forall|i: int| 0 <= i < vs.len() implies values_view(vs)[i] == value_view(
            #[trigger] vs[i],
        ) by {
            if i > 0 {
                assert(values_view(vs)[i] == values_view(vs.drop_first())[i - 1]);
                assert(vs.drop_first()[i - 1] == vs[i]);
            }
        }
    }
}

/// `rows_view` maps the sequence pointwise.
pub proof fn lemma_rows_view(rows: Seq<Vec<Value>>)
    ensures
        rows_view(rows).len() == rows.len(),
        forall|i: int| 0 <= i < rows.len() ==> rows_view(rows)[i] == values_view(
            #[trigger] rows[i]@,
        ),
    decreases rows,
{
    if rows.len() > 0 {
        lemma_rows_view(rows.drop_first());
        assert forall|i: int| 0 <= i < rows.len() implies rows_view(rows)[i] == values_view(
            #[trigger] rows[i]@,
        ) by {
            if i > 0 {
                assert(rows_view(rows)[i] == rows_view(rows.drop_first())[i - 1]);
                assert(rows.drop_first()[i - 1] == rows[i]);
            }
        }
    }
}

/// `records_view` maps the sequence pointwise.
pub proof fn lemma_records_view(kvs: Seq<KeyValue>)
    ensures
        records_view(kvs).len() == kvs.len(),
        forall|i: int| 0 <= i < kvs.len() ==> records_view(kvs)[i] == (#[trigger] kvs[i])@,
    decreases kvs,
{
    if kvs.len() > 0 {
        lemma_records_view(kvs.drop_first());
        assert forall|i: int| 0 <= i < kvs.len() implies records_view(kvs)[i] == (
        #[trigger] kvs[i])@ by {
            if i > 0 {
                assert(records_view(kvs)[i] == records_view(kvs.drop_first())[i - 1]);
                assert(kvs.drop_first()[i - 1] == kvs[i]);
            }
        }
    }
}

/// Appending a value appends its abstract form.
pub proof fn lemma_values_view_push(vs: Seq<Value>, v: Value)
    ensures
        values_view(vs.push(v)) == values_view(vs).push(value_view(v)),
{
    lemma_values_view(vs.push(v));
    lemma_values_view(vs);
    let lhs = values_view(vs.push(v));
    let rhs = values_view(vs).push(value_view(v));
    assert forall|i: int| 0 <= i < lhs.len() implies lhs[i] == rhs[i] by {
        if i < vs.len() {
            assert(vs.push(v)[i] == vs[i]);
        } else {
            assert(vs.push(v)[i] == v);
        }
    }
    assert(lhs =~= rhs);
}

/// Appending an element sequence appends its abstract form.
pub proof fn lemma_rows_view_push(rows: Seq<Vec<Value>>, row: Vec<Value>)
    ensures
        rows_view(rows.push(row)) == rows_view(rows).push(values_view(row@)),
{
    lemma_rows_view(rows.push(row));
    lemma_rows_view(rows);
    let lhs = rows_view(rows.push(row));
    let rhs = rows_view(rows).push(values_view(row@));
    assert forall|i: int| 0 <= i < lhs.len() implies lhs[i] == rhs[i] by {
        if i < rows.len() {
            assert(rows.push(row)[i] == rows[i]);
            assert(rows.push(row)[i]@ == rows[i]@);
        } else {
            assert(rows.push(row)[i] == row);
            assert(rows.push(row)[i]@ == row@);
        }
    }
    assert(lhs =~= rhs);
}

/// Appending a record appends its abstract form.
pub proof fn lemma_records_view_push(kvs: Seq<KeyValue>, kv: KeyValue)
    ensures
        records_view(kvs.push(kv)) == records_view(kvs).push(kv@),
{
    lemma_records_view(kvs.push(kv));
    lemma_records_view(kvs);
    let lhs = records_view(kvs.push(kv));
    let rhs = records_view(kvs).push(kv@);
    assert forall|i: int| 0 <= i < lhs.len() implies lhs[i] == rhs[i] by {
        if i < kvs.len() {
            assert(kvs.push(kv)[i] == kvs[i]);
        } else {
            assert(kvs.push(kv)[i] == kv);
        }
    }
    assert(lhs =~= rhs);
}

/// Appending a string appends its characters.
pub proof fn lemma_strings_view_push(ss: Seq<String>, s: String)
    ensures
        strings_view(ss.push(s)) == strings_view(ss).push(s@),
{
    assert(strings_view(ss.push(s)) =~= strings_view(ss).push(s@));
}

// --- The type of a value -------------------------------------------------

impl Value {
    /// The wire type a value decodes from, or `None` for the three
    /// assembled shapes (`Simple`, `Type`, `Strings`) that no single
    /// catalog entry produces.
    pub open spec fn spec_datatype(self) -> Option<Type> {
        match self {
            Value::I8(_) => Some(Type::I8),
            Value::U8(_) => Some(Type::U8),
            Value::Char(_) => Some(Type::Char),
            Value::String(_) => Some(Type::Char),
            Value::F64(_) => Some(Type::F64),
            Value::F32(_) => Some(Type::F32),
            Value::Tag(_) => Some(Type::FourCC),
            Value::U128(_) => Some(Type::U128),
            Value::I64(_) => Some(Type::I64),
            Value::U64(_) => Some(Type::U64),
            Value::I32(_) => Some(Type::I32),
            Value::U32(_) => Some(Type::U32),
            Value::Fixed32(_) => Some(Type::Fixed32),
            Value::Fixed64(_) => Some(Type::Fixed64),
            Value::I16(_) => Some(Type::I16),
            Value::U16(_) => Some(Type::U16),
            Value::Date(_) => Some(Type::Date),
            Value::Complex(_) => Some(Type::Complex),
            Value::Nested(_) => Some(Type::Nested),
            Value::Simple(_) => None,
            Value::Type(_) => None,
            Value::Strings(_) => None,
        }
    }

    /// The wire type this value decodes from, or `None` for the three
    /// assembled shapes that no single catalog entry produces.
    pub fn datatype(&self) -> (t: Option<Type>)
        ensures
            t == self.spec_datatype(),
    {
        match self {
            Value::I8(_) => Some(Type::I8),
            Value::U8(_) => Some(Type::U8),
            Value::Char(_) => Some(Type::Char),
            Value::String(_) => Some(Type::Char),
            Value::F64(_) => Some(Type::F64),
            Value::F32(_) => Some(Type::F32),
            Value::Tag(_) => Some(Type::FourCC),
            Value::U128(_) => Some(Type::U128),
            Value::I64(_) => Some(Type::I64),
            Value::U64(_) => Some(Type::U64),
            Value::I32(_) => Some(Type::I32),
            Value::U32(_) => Some(Type::U32),
            Value::Fixed32(_) => Some(Type::Fixed32),
            Value::Fixed64(_) => Some(Type::Fixed64),
            Value::I16(_) => Some(Type::I16),
            Value::U16(_) => Some(Type::U16),
            Value::Date(_) => Some(Type::Date),
            Value::Complex(_) => Some(Type::Complex),
            Value::Nested(_) => Some(Type::Nested),
            Value::Simple(_) => None,
            Value::Type(_) => None,
            Value::Strings(_) => None,
        }
    }
}

} // verus!
