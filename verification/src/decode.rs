//! The record decoder: the recursive-descent engine that reads one
//! Key-Length-Value header at a time, resolves element counts and widths,
//! dispatches to the type catalog, remembers type templates for later
//! complex records, recurses into nested sub-streams, and keeps the cursor
//! 4-byte aligned.
//!
//! The whole grammar is stated first as spec functions over byte
//! sequences; every executable function is proved to return exactly what
//! the spec functions say.

use vstd::prelude::*;
use crate::errors::DecodeError;
use crate::tags::Tag;
use crate::tags::tag_of_bytes;
use crate::timestamp::UtcTime;
use crate::timestamp::spec_parse_timestamp;
use crate::types::Type;
use crate::values::KeyValue;
use crate::values::RecordV;
use crate::values::Value;
use crate::values::ValueV;
use crate::values::records_view;
use crate::values::rows_view;
use crate::values::strings_view;
use crate::values::value_view;
use crate::values::values_view;
use crate::wire::as_i8;
use crate::wire::as_i16;
use crate::wire::as_i32;
use crate::wire::as_i64;
use crate::wire::chars_of;
use crate::wire::element_count;
use crate::wire::padding_of;
use crate::wire::read_be_u16;
use crate::wire::read_be_u32;
use crate::wire::read_be_u64;
use crate::wire::read_be_u128;
use crate::wire::spec_as_i8;
use crate::wire::spec_as_i16;
use crate::wire::spec_as_i32;
use crate::wire::spec_as_i64;
use crate::wire::spec_be_u16;
use crate::wire::spec_be_u32;
use crate::wire::spec_be_u64;
use crate::wire::spec_be_u128;
use crate::wire::spec_element_count;
use crate::wire::spec_padding;
use crate::wire::take_until_nul;
use crate::wire::text_until_nul;

verus! {

/// The maximum depth of nested records a decode will follow before
/// failing closed with [`DecodeError::DepthExceeded`]: a hard bound on
/// stack use against adversarially deep input.
pub const MAX_NESTING_DEPTH: u32 = 32;

// =========================================================================
// The grammar, as spec functions
// =========================================================================

/// The fixed width of a scalar type, as a mathematical number; 0 for the
/// two kinds that have none.
pub open spec fn spec_width_of(t: Type) -> nat {
    match t.spec_width() {
        Some(w) => w as nat,
        None => 0,
    }
}

/// The width of one complex element under a template: the sum of the
/// fixed widths of the template's entries.
pub open spec fn spec_template_width(ts: Seq<Type>) -> nat
    decreases ts,
{
    if ts.len() == 0 {
        0
    } else {
        spec_width_of(ts[0]) + spec_template_width(ts.drop_first())
    }
}

/// The template declared by the pre-NUL bytes of a type-template run:
/// each byte that names a fixed-width catalog type contributes that type,
/// in order; unrecognized bytes and the two contextual kinds are skipped
/// (they are diagnostics, not errors).
pub open spec fn spec_template_of(b: Seq<u8>) -> Seq<Type>
    decreases b,
{
    if b.len() == 0 {
        Seq::empty()
    } else {
        let rest = spec_template_of(b.drop_first());
        match Type::spec_from_byte(b[0]) {
            Some(t) => if t.spec_width() is Some {
                seq![t] + rest
            } else {
                rest
            },
            None => rest,
        }
    }
}

/// One scalar element of type `t` decoded at `pos`: exactly the type's
/// width is consumed. Fails with `TruncatedInput` when fewer bytes remain
/// than the width, and with `InvalidTimestamp` when a date field does not
/// parse. Meaningful only for the fixed-width catalog entries.
pub open spec fn spec_scalar(t: Type, data: Seq<u8>, pos: int) -> Result<ValueV, DecodeError>
    recommends
        0 <= pos <= data.len(),
        t.spec_width() is Some,
{
    let w = spec_width_of(t) as int;
    if pos + w > data.len() {
        Err(DecodeError::TruncatedInput)
    } else {
        match t {
            Type::I8 => Ok(ValueV::I8(spec_as_i8(data[pos]))),
            Type::U8 => Ok(ValueV::U8(data[pos])),
            Type::Char => Ok(ValueV::Char(data[pos] as char)),
            Type::I16 => Ok(ValueV::I16(spec_as_i16(spec_be_u16(data, pos)))),
            Type::U16 => Ok(ValueV::U16(spec_be_u16(data, pos))),
            Type::I32 => Ok(ValueV::I32(spec_as_i32(spec_be_u32(data, pos)))),
            Type::U32 => Ok(ValueV::U32(spec_be_u32(data, pos))),
            Type::F32 => Ok(ValueV::F32(spec_be_u32(data, pos))),
            Type::Fixed32 => Ok(ValueV::Fixed32(spec_as_i32(spec_be_u32(data, pos)))),
            Type::I64 => Ok(ValueV::I64(spec_as_i64(spec_be_u64(data, pos)))),
            Type::U64 => Ok(ValueV::U64(spec_be_u64(data, pos))),
            Type::F64 => Ok(ValueV::F64(spec_be_u64(data, pos))),
            Type::Fixed64 => Ok(ValueV::Fixed64(spec_as_i64(spec_be_u64(data, pos)))),
            Type::U128 => Ok(ValueV::U128(spec_be_u128(data, pos))),
            Type::FourCC => Ok(
                ValueV::Tag(tag_of_bytes(data[pos], data[pos + 1], data[pos + 2], data[pos + 3])),
            ),
            Type::Date => match spec_parse_timestamp(data.subrange(pos, pos + 16)) {
                Some(u) => Ok(ValueV::Date(u)),
                None => Err(DecodeError::InvalidTimestamp),
            },
            // not catalog entries: never reached under the recommends
            Type::Complex | Type::Nested => Err(DecodeError::UnknownType),
        }
    }
}

/// `n` consecutive scalar elements of type `t` starting at `pos`.
pub open spec fn spec_scalars(t: Type, data: Seq<u8>, pos: int, n: nat) -> Result<
    Seq<ValueV>,
    DecodeError,
>
    decreases n,
{
    if n == 0 {
        Ok(Seq::empty())
    } else {
        match spec_scalar(t, data, pos) {
            Err(e) => Err(e),
            Ok(v) => match spec_scalars(t, data, pos + spec_width_of(t), (n - 1) as nat) {
                Err(e) => Err(e),
                Ok(rest) => Ok(seq![v] + rest),
            },
        }
    }
}

/// `repeat` rows of `count` scalar elements each: the general simple
/// record shape.
pub open spec fn spec_simple_rows(
    t: Type,
    data: Seq<u8>,
    pos: int,
    count: nat,
    repeat: nat,
) -> Result<Seq<Seq<ValueV>>, DecodeError>
    decreases repeat,
{
    if repeat == 0 {
        Ok(Seq::empty())
    } else {
        match spec_scalars(t, data, pos, count) {
            Err(e) => Err(e),
            Ok(row) => match spec_simple_rows(
                t,
                data,
                pos + count * spec_width_of(t),
                count,
                (repeat - 1) as nat,
            ) {
                Err(e) => Err(e),
                Ok(rest) => Ok(seq![row] + rest),
            },
        }
    }
}

/// One complex element: one scalar per template entry, in template order.
pub open spec fn spec_template_row(ts: Seq<Type>, data: Seq<u8>, pos: int) -> Result<
    Seq<ValueV>,
    DecodeError,
>
    decreases ts,
{
    if ts.len() == 0 {
        Ok(Seq::empty())
    } else {
        match spec_scalar(ts[0], data, pos) {
            Err(e) => Err(e),
            Ok(v) => match spec_template_row(ts.drop_first(), data, pos + spec_width_of(ts[0])) {
                Err(e) => Err(e),
                Ok(rest) => Ok(seq![v] + rest),
            },
        }
    }
}

/// `repeat` complex elements, each laid out by the template.
pub open spec fn spec_complex_rows(ts: Seq<Type>, data: Seq<u8>, pos: int, repeat: nat) -> Result<
    Seq<Seq<ValueV>>,
    DecodeError,
>
    decreases repeat,
{
    if repeat == 0 {
        Ok(Seq::empty())
    } else {
        match spec_template_row(ts, data, pos) {
            Err(e) => Err(e),
            Ok(row) => match spec_complex_rows(
                ts,
                data,
                pos + spec_template_width(ts),
                (repeat - 1) as nat,
            ) {
                Err(e) => Err(e),
                Ok(rest) => Ok(seq![row] + rest),
            },
        }
    }
}

/// `repeat` fixed-width text fields of `chunk` bytes each, each
/// independently NUL-truncated. Reads are tolerant of running off the end
/// of the buffer: a short final field keeps what was there.
pub open spec fn spec_string_rows(data: Seq<u8>, pos: int, chunk: nat, repeat: nat) -> Seq<
    Seq<char>,
>
    recommends
        0 <= pos <= data.len(),
    decreases repeat,
{
    if repeat == 0 {
        Seq::empty()
    } else {
        let end = if pos + chunk > data.len() {
            data.len() as int
        } else {
            pos + chunk
        };
        let piece = chars_of(take_until_nul(data.subrange(pos, end)));
        seq![piece] + spec_string_rows(data, end, chunk, (repeat - 1) as nat)
    }
}

/// The cursor after skipping `padding` bytes from `p`, never leaving the
/// buffer: a missing final padding run is tolerated.
pub open spec fn spec_skip_padding(p: int, padding: int, len: int) -> int {
    if p + padding > len {
        len
    } else {
        p + padding
    }
}

/// One record decoded at `pos` of a frame whose remembered template is
/// `tmpl`: the record itself, the cursor after the record's payload and
/// padding, and the template for the records that follow (replaced only
/// by a type-template record).
///
/// The header is 8 bytes: the 4-byte key, the type tag byte, the per
/// element size byte, and the big-endian 2-byte repeat count.
pub open spec fn spec_record(data: Seq<u8>, pos: int, tmpl: Option<Seq<Type>>, depth: nat) -> Result<
    (RecordV, int, Option<Seq<Type>>),
    DecodeError,
>
    recommends
        0 <= pos,
        pos + 8 <= data.len(),
    decreases depth, (if data.len() - pos >= 0 { data.len() - pos } else { 0 }), 0int,
{
    let len = data.len() as int;
    let key = tag_of_bytes(data[pos], data[pos + 1], data[pos + 2], data[pos + 3]);
    match Type::spec_from_byte(data[pos + 4]) {
        None => Err(DecodeError::UnknownType),
        Some(typ) => {
            if typ is Complex && tmpl is None {
                Err(DecodeError::NoTypeTemplate)
            } else {
                let size = data[pos + 5] as nat;
                let repeat = spec_be_u16(data, pos + 6) as nat;
                let num_bytes = size * repeat;
                let body = pos + 8;
                let ew: nat = if typ is Complex {
                    spec_template_width(tmpl.unwrap())
                } else {
                    typ.spec_size() as nat
                };
                let count = spec_element_count(size, ew);
                let padding = spec_padding(num_bytes as int);
                match typ {
                    Type::Char => {
                        if count == 1 {
                            let run_end = if body + repeat > len {
                                len
                            } else {
                                body + repeat
                            };
                            let run = take_until_nul(data.subrange(body, run_end));
                            if key is TYPE {
                                let ts = spec_template_of(run);
                                Ok(
                                    (
                                        RecordV { key, value: ValueV::Type(ts) },
                                        spec_skip_padding(run_end, padding, len),
                                        Some(ts),
                                    ),
                                )
                            } else {
                                Ok(
                                    (
                                        RecordV { key, value: ValueV::String(chars_of(run)) },
                                        spec_skip_padding(run_end, padding, len),
                                        tmpl,
                                    ),
                                )
                            }
                        } else {
                            let rows = spec_string_rows(data, body, count, repeat);
                            let newp = if body + count * repeat > len {
                                len
                            } else {
                                body + count * repeat
                            };
                            Ok(
                                (
                                    RecordV { key, value: ValueV::Strings(rows) },
                                    spec_skip_padding(newp, padding, len),
                                    tmpl,
                                ),
                            )
                        }
                    },
                    Type::Complex => {
                        let ts = tmpl.unwrap();
                        match spec_complex_rows(ts, data, body, repeat) {
                            Err(e) => Err(e),
                            Ok(rows) => Ok(
                                (
                                    RecordV { key, value: ValueV::Complex(rows) },
                                    spec_skip_padding(
                                        body + repeat * spec_template_width(ts),
                                        padding,
                                        len,
                                    ),
                                    tmpl,
                                ),
                            ),
                        }
                    },
                    Type::Nested => {
                        if num_bytes > len - body {
                            Err(DecodeError::TruncatedInput)
                        } else if depth == 0 {
                            Err(DecodeError::DepthExceeded)
                        } else {
                            match spec_frame_at(
                                data.subrange(body, body + num_bytes),
                                0,
                                None,
                                (depth - 1) as nat,
                            ) {
                                Err(e) => Err(e),
                                Ok(rs) => Ok(
                                    (
                                        RecordV { key, value: ValueV::Nested(rs) },
                                        spec_skip_padding(body + num_bytes, padding, len),
                                        tmpl,
                                    ),
                                ),
                            }
                        }
                    },
                    _ => {
                        match spec_simple_rows(typ, data, body, count, repeat) {
                            Err(e) => Err(e),
                            Ok(rows) => Ok(
                                (
                                    RecordV { key, value: ValueV::Simple(rows) },
                                    spec_skip_padding(body + repeat * (count * ew), padding, len),
                                    tmpl,
                                ),
                            ),
                        }
                    },
                }
            }
        },
    }
}

/// The records of a frame from `pos` to the end of the buffer, under the
/// remembered template `tmpl`. A frame ends exactly at the end of its
/// buffer; a non-empty remainder too short for a header is a
/// `MalformedHeader` failure, and any record failure fails the frame.
pub open spec fn spec_frame_at(
    data: Seq<u8>,
    pos: int,
    tmpl: Option<Seq<Type>>,
    depth: nat,
) -> Result<Seq<RecordV>, DecodeError>
    recommends
        0 <= pos <= data.len(),
    decreases depth, (if data.len() - pos >= 0 { data.len() - pos } else { 0 }), 1int,
{
    if pos >= data.len() {
        Ok(Seq::empty())
    } else if pos + 8 > data.len() {
        Err(DecodeError::MalformedHeader)
    } else {
        match spec_record(data, pos, tmpl, depth) {
            Err(e) => Err(e),
            Ok((rec, p2, t2)) => {
                // A decoded record's cursor always lands in pos + 8 ..= len
                // (see `lemma_record_bounds`); the clamp restates that where
                // the termination measure can see it and changes nothing.
                let p3 = if p2 < pos + 8 {
                    pos + 8
                } else if p2 > data.len() {
                    data.len() as int
                } else {
                    p2
                };
                match spec_frame_at(data, p3, t2, depth) {
                    Err(e) => Err(e),
                    Ok(rest) => Ok(seq![rec] + rest),
                }
            },
        }
    }
}

/// The records of one whole frame: a fresh frame starts with no remembered
/// template.
pub open spec fn spec_frame(data: Seq<u8>, depth: nat) -> Result<Seq<RecordV>, DecodeError> {
    spec_frame_at(data, 0, None, depth)
}

// =========================================================================
// Bounds of successful reads
// =========================================================================

/// A successful scalar read sits within the buffer.
proof fn lemma_scalar_bounds(t: Type, data: Seq<u8>, pos: int)
    ensures
        spec_scalar(t, data, pos) is Ok ==> pos + spec_width_of(t) <= data.len(),
{
}

/// A successful run of `n` scalars consumes exactly `n` widths within the
/// buffer.
proof fn lemma_scalars_bounds(t: Type, data: Seq<u8>, pos: int, n: nat)
    requires
        spec_scalars(t, data, pos, n) is Ok,
        n > 0,
    ensures
        pos + n * spec_width_of(t) <= data.len(),
    decreases n,
{
    let w = spec_width_of(t) as int;
    lemma_scalar_bounds(t, data, pos);
    if n > 1 {
        lemma_scalars_bounds(t, data, pos + w, (n - 1) as nat);
    }
    assert(pos + w + (n - 1) * w == pos + n * w) by (nonlinear_arith);
}

/// A successful simple record body of `repeat` rows of `count` elements
/// consumes exactly its total within the buffer.
proof fn lemma_simple_rows_bounds(t: Type, data: Seq<u8>, pos: int, count: nat, repeat: nat)
    requires
        spec_simple_rows(t, data, pos, count, repeat) is Ok,
        count > 0,
        repeat > 0,
    ensures
        pos + repeat * (count * spec_width_of(t)) <= data.len(),
    decreases repeat,
{
    let w = spec_width_of(t);
    let r1 = (repeat - 1) as nat;
    lemma_scalars_bounds(t, data, pos, count);
    if repeat > 1 {
        lemma_simple_rows_bounds(t, data, pos + count * w, count, r1);
    } else {
        assert(spec_simple_rows(t, data, pos + count * w, count, r1) is Ok);
        assert(r1 * (count * w) == 0) by (nonlinear_arith)
            requires
                r1 == 0,
        ;
    }
    assert(pos + count * w + r1 * (count * w) == pos + repeat * (count * w)) by (nonlinear_arith)
        requires
            r1 == repeat - 1,
    ;
}

/// A successful complex element consumes exactly the template's width
/// within the buffer.
proof fn lemma_template_row_bounds(ts: Seq<Type>, data: Seq<u8>, pos: int)
    requires
        spec_template_row(ts, data, pos) is Ok,
        ts.len() > 0,
    ensures
        pos + spec_template_width(ts) <= data.len(),
    decreases ts,
{
    lemma_scalar_bounds(ts[0], data, pos);
    if ts.len() > 1 {
        lemma_template_row_bounds(ts.drop_first(), data, pos + spec_width_of(ts[0]));
    } else {
        assert(ts.drop_first().len() == 0);
        assert(spec_template_width(ts.drop_first()) == 0);
    }
}

/// A successful complex record body of `repeat` elements consumes exactly
/// its total within the buffer.
proof fn lemma_complex_rows_bounds(ts: Seq<Type>, data: Seq<u8>, pos: int, repeat: nat)
    requires
        spec_complex_rows(ts, data, pos, repeat) is Ok,
        ts.len() > 0,
        repeat > 0,
    ensures
        pos + repeat * spec_template_width(ts) <= data.len(),
    decreases repeat,
{
    let tw = spec_template_width(ts);
    let r1 = (repeat - 1) as nat;
    lemma_template_row_bounds(ts, data, pos);
    if repeat > 1 {
        lemma_complex_rows_bounds(ts, data, pos + tw, r1);
    } else {
        assert(r1 * tw == 0) by (nonlinear_arith)
            requires
                r1 == 0,
        ;
    }
    assert(pos + tw + r1 * tw == pos + repeat * tw) by (nonlinear_arith)
        requires
            r1 == repeat - 1,
    ;
}

/// A successfully decoded record leaves the cursor past its own header
/// and within the buffer: the clamp of `spec_frame_at` never changes the
/// cursor.
pub proof fn lemma_record_bounds(data: Seq<u8>, pos: int, tmpl: Option<Seq<Type>>, depth: nat)
    requires
        0 <= pos,
        pos + 8 <= data.len(),
    ensures
        spec_record(data, pos, tmpl, depth) matches Ok((rec, p2, t2)) ==> pos + 8 <= p2
            <= data.len(),
{
    let len = data.len() as int;
    let body = pos + 8;
    if spec_record(data, pos, tmpl, depth) is Ok {
        match Type::spec_from_byte(data[pos + 4]) {
            None => {},
            Some(typ) => {
                let size = data[pos + 5] as nat;
                let repeat = spec_be_u16(data, pos + 6) as nat;
                let num_bytes = size * repeat;
                let ew: nat = if typ is Complex {
                    spec_template_width(tmpl.unwrap())
                } else {
                    typ.spec_size() as nat
                };
                let count = spec_element_count(size, ew);
                match typ {
                    Type::Char => {
                        assert(count * repeat >= 0) by (nonlinear_arith);
                    },
                    Type::Complex => {
                        let ts = tmpl.unwrap();
                        if spec_complex_rows(ts, data, body, repeat) is Ok {
                            if repeat > 0 && ts.len() > 0 {
                                lemma_complex_rows_bounds(ts, data, body, repeat);
                            } else {
                                assert(repeat * spec_template_width(ts) == 0) by (nonlinear_arith)
                                    requires
                                        repeat == 0 || spec_template_width(ts) == 0,
                                ;
                            }
                            assert(repeat * spec_template_width(ts) >= 0) by (nonlinear_arith);
                        }
                    },
                    Type::Nested => {},
                    _ => {
                        if spec_simple_rows(typ, data, body, count, repeat) is Ok {
                            if repeat > 0 && count > 0 {
                                assert(ew == spec_width_of(typ));
                                lemma_simple_rows_bounds(typ, data, body, count, repeat);
                            } else {
                                assert(repeat * (count * ew) == 0) by (nonlinear_arith)
                                    requires
                                        repeat == 0 || count == 0,
                                ;
                            }
                            assert(repeat * (count * ew) >= 0) by (nonlinear_arith);
                        }
                    },
                }
            },
        }
    }
}

/// Unfolding one step of `spec_frame_at` at a position where a record
/// decodes: the frame is that record followed by the rest of the frame
/// from the record's cursor, under the record's template.
pub proof fn lemma_frame_at_step(data: Seq<u8>, pos: int, tmpl: Option<Seq<Type>>, depth: nat)
    requires
        0 <= pos,
        pos + 8 <= data.len(),
    ensures
        spec_frame_at(data, pos, tmpl, depth) == match spec_record(data, pos, tmpl, depth) {
            Err(e) => Err(e),
            Ok((rec, p2, t2)) => match spec_frame_at(data, p2, t2, depth) {
                Err(e) => Err(e),
                Ok(rest) => Ok(seq![rec] + rest),
            },
        },
{
    lemma_record_bounds(data, pos, tmpl, depth);
}

// =========================================================================
// Properties of templates
// =========================================================================

/// Extending a template run by one byte appends that byte's entry, if it
/// names a fixed-width type, and nothing otherwise.
proof fn lemma_template_of_snoc(b: Seq<u8>, x: u8)
    ensures
        spec_template_of(b.push(x)) == (match Type::spec_from_byte(x) {
            Some(t) => if t.spec_width() is Some {
                spec_template_of(b).push(t)
            } else {
                spec_template_of(b)
            },
            None => spec_template_of(b),
        }),
    decreases b.len(),
{
    if b.len() == 0 {
        assert(b.push(x).drop_first() =~= Seq::<u8>::empty());
        assert(spec_template_of(Seq::<u8>::empty()) == Seq::<Type>::empty());
        match Type::spec_from_byte(x) {
            Some(t) => {
                if t.spec_width() is Some {
                    assert(seq![t] + Seq::<Type>::empty() =~= Seq::<Type>::empty().push(t));
                }
            },
            None => {},
        }
    } else {
        assert(b.push(x).drop_first() =~= b.drop_first().push(x));
        lemma_template_of_snoc(b.drop_first(), x);
        assert(b.push(x)[0] == b[0]);
        match Type::spec_from_byte(b[0]) {
            Some(t0) => {
                if t0.spec_width() is Some {
                    match Type::spec_from_byte(x) {
                        Some(t) => {
                            if t.spec_width() is Some {
                                assert(seq![t0] + spec_template_of(b.drop_first()).push(t) =~= (
                                seq![t0] + spec_template_of(b.drop_first())).push(t));
                            }
                        },
                        None => {},
                    }
                }
            },
            None => {},
        }
    }
}

/// Every entry of a parsed template is a fixed-width catalog type, and a
/// template never has more entries than its run has bytes.
proof fn lemma_template_of_wf(b: Seq<u8>)
    ensures
        spec_template_of(b).len() <= b.len(),
        forall|i: int| 0 <= i < spec_template_of(b).len() ==> (#[trigger] spec_template_of(
            b,
        )[i]).spec_width() is Some,
    decreases b.len(),
{
    if b.len() > 0 {
        lemma_template_of_wf(b.drop_first());
    }
}

/// Extending a template by one entry adds that entry's width.
proof fn lemma_template_width_snoc(ts: Seq<Type>, t: Type)
    ensures
        spec_template_width(ts.push(t)) == spec_template_width(ts) + spec_width_of(t),
    decreases ts.len(),
{
    if ts.len() == 0 {
        assert(ts.push(t).drop_first() =~= Seq::<Type>::empty());
        assert(spec_template_width(Seq::<Type>::empty()) == 0);
    } else {
        assert(ts.push(t).drop_first() =~= ts.drop_first().push(t));
        lemma_template_width_snoc(ts.drop_first(), t);
    }
}

// =========================================================================
// The executable decoder
// =========================================================================

/// Read the four key bytes at `pos` and resolve them to a tag. Unknown
/// keys are preserved, never errors; only a buffer too short to hold four
/// bytes fails.
pub fn read_tag(data: &[u8], pos: usize) -> (r: Result<Tag, DecodeError>)
    ensures
        match r {
            Ok(t) => pos + 4 <= data@.len() && t@ == tag_of_bytes(
                data@[pos as int],
                data@[pos as int + 1],
                data@[pos as int + 2],
                data@[pos as int + 3],
            ),
            Err(e) => pos + 4 > data@.len() && e == DecodeError::TruncatedInput,
        },
{
    if pos > data.len() || data.len() - pos < 4 {
        return Err(DecodeError::TruncatedInput);
    }
    Ok(Tag::from_bytes(data[pos], data[pos + 1], data[pos + 2], data[pos + 3]))
}

impl Type {
    /// Decode exactly one scalar element of this type at `pos`, consuming
    /// exactly the type's width: the catalog's per-type read. Only the
    /// fixed-width entries can be read this way; `Complex` and `Nested`
    /// have no width of their own.
    pub fn read(&self, data: &[u8], pos: usize) -> (r: Result<(Value, usize), DecodeError>)
        requires
            self.spec_width() is Some,
            pos <= data@.len(),
        ensures
            match r {
                Ok((v, p2)) => spec_scalar(*self, data@, pos as int) == Ok::<ValueV, DecodeError>(
                    v@,
                ) && p2 == pos + spec_width_of(*self),
                Err(e) => spec_scalar(*self, data@, pos as int) == Err::<ValueV, DecodeError>(e),
            },
    {
        let w = match self.width() {
            Some(w) => w,
            None => 0,
        };
        if data.len() - pos < w {
            return Err(DecodeError::TruncatedInput);
        }
        match self {
            Type::I8 => Ok((Value::I8(as_i8(data[pos])), pos + 1)),
            Type::U8 => Ok((Value::U8(data[pos]), pos + 1)),
            Type::Char => Ok((Value::Char(data[pos] as char), pos + 1)),
            Type::I16 => Ok((Value::I16(as_i16(read_be_u16(data, pos))), pos + 2)),
            Type::U16 => Ok((Value::U16(read_be_u16(data, pos)), pos + 2)),
            Type::I32 => Ok((Value::I32(as_i32(read_be_u32(data, pos))), pos + 4)),
            Type::U32 => Ok((Value::U32(read_be_u32(data, pos)), pos + 4)),
            Type::F32 => Ok((Value::F32(read_be_u32(data, pos)), pos + 4)),
            Type::Fixed32 => Ok((Value::Fixed32(as_i32(read_be_u32(data, pos))), pos + 4)),
            Type::I64 => Ok((Value::I64(as_i64(read_be_u64(data, pos))), pos + 8)),
            Type::U64 => Ok((Value::U64(read_be_u64(data, pos)), pos + 8)),
            Type::F64 => Ok((Value::F64(read_be_u64(data, pos)), pos + 8)),
            Type::Fixed64 => Ok((Value::Fixed64(as_i64(read_be_u64(data, pos))), pos + 8)),
            Type::U128 => Ok((Value::U128(read_be_u128(data, pos)), pos + 16)),
            Type::FourCC => Ok(
                (
                    Value::Tag(
                        Tag::from_bytes(data[pos], data[pos + 1], data[pos + 2], data[pos + 3]),
                    ),
                    pos + 4,
                ),
            ),
            Type::Date => match UtcTime::parse(&data[pos..pos + 16]) {
                Some(u) => Ok((Value::Date(u), pos + 16)),
                None => Err(DecodeError::InvalidTimestamp),
            },
            Type::Complex | Type::Nested => Err(DecodeError::UnknownType),
        }
    }
}

/// Parse the pre-NUL bytes of a type-template run into the template they
/// declare: recognized fixed-width entries in order, anything else
/// skipped.
fn parse_template(run: &[u8]) -> (ts: Vec<Type>)
    ensures
        ts@ == spec_template_of(take_until_nul(run@)),
        ts@.len() <= run@.len(),
        forall|i: int| 0 <= i < ts@.len() ==> (#[trigger] ts@[i]).spec_width() is Some,
{
    let mut ts: Vec<Type> = Vec::new();
    let mut i: usize = 0;
    loop
        invariant
            0 <= i <= run@.len(),
            forall|j: int| 0 <= j < i ==> run@[j] != 0,
            ts@ == spec_template_of(run@.take(i as int)),
        decreases run@.len() - i,
    {
        if i == run.len() {
            proof {
                crate::wire::lemma_first_nul_is(run@, i as int);
                assert(run@.take(i as int) =~= take_until_nul(run@));
                lemma_template_of_wf(take_until_nul(run@));
            }
            return ts;
        }
        let c = run[i];
        if c == 0 {
            proof {
                crate::wire::lemma_first_nul_is(run@, i as int);
                assert(run@.take(i as int) =~= take_until_nul(run@));
                lemma_template_of_wf(take_until_nul(run@));
                crate::wire::lemma_first_nul(run@);
            }
            return ts;
        }
        proof {
            assert(run@.take(i + 1) =~= run@.take(i as int).push(run@[i as int]));
            lemma_template_of_snoc(run@.take(i as int), run@[i as int]);
        }
        match Type::from_byte(c) {
            Some(t) => {
                if t.width().is_some() {
                    ts.push(t);
                }
            },
            None => {},
        }
        i = i + 1;
    }
}

/// The width of one complex element under a template: the sum of its
/// entries' fixed widths.
fn template_width(ts: &Vec<Type>) -> (w: usize)
    requires
        ts@.len() <= 65535,
    ensures
        w as nat == spec_template_width(ts@),
        w <= 16 * ts@.len(),
{
    let mut w: usize = 0;
    let mut i: usize = 0;
    proof {
        assert(ts@.take(0) =~= Seq::<Type>::empty());
    }
    while i < ts.len()
        invariant
            0 <= i <= ts@.len(),
            ts@.len() <= 65535,
            w as nat == spec_template_width(ts@.take(i as int)),
            w <= 16 * i,
        decreases ts@.len() - i,
    {
        proof {
            assert(ts@.take(i + 1) =~= ts@.take(i as int).push(ts@[i as int]));
            lemma_template_width_snoc(ts@.take(i as int), ts@[i as int]);
        }
        let ew = match ts[i].width() {
            Some(x) => x,
            None => 0,
        };
        w = w + ew;
        i = i + 1;
    }
    proof {
        assert(ts@.take(ts@.len() as int) =~= ts@);
    }
    w
}

/// Read `repeat` text fields of `chunk` bytes each starting at `body`,
/// each independently NUL-truncated; a short final field keeps what was
/// there.
fn read_string_rows(data: &[u8], body: usize, chunk: usize, repeat: usize) -> (r: (
    Vec<String>,
    usize,
))
    requires
        body <= data@.len(),
    ensures
        strings_view(r.0@) == spec_string_rows(data@, body as int, chunk as nat, repeat as nat),
        r.1 as int == (if body + chunk * repeat > data@.len() {
            data@.len() as int
        } else {
            body + chunk * repeat
        }),
        body <= r.1 <= data@.len(),
{
    let len = data.len();
    let mut rows: Vec<String> = Vec::new();
    let mut p = body;
    let mut r: usize = 0;
    proof {
        assert(chunk * 0 == 0) by (nonlinear_arith);
    }
    while r < repeat
        invariant
            body <= p <= len,
            r <= repeat,
            len == data@.len(),
            rows@.len() == r,
            p as int == (if body + chunk * r > len {
                len as int
            } else {
                body + chunk * r
            }),
            spec_string_rows(data@, body as int, chunk as nat, repeat as nat) == strings_view(
                rows@,
            ) + spec_string_rows(data@, p as int, chunk as nat, (repeat - r) as nat),
        decreases repeat - r,
    {
        let chunk_end = if chunk > len - p {
            len
        } else {
            p + chunk
        };
        let ghost rest0 = spec_string_rows(data@, p as int, chunk as nat, (repeat - r) as nat);
        let ghost piece0 = chars_of(take_until_nul(data@.subrange(p as int, chunk_end as int)));
        proof {
            assert(rest0 == seq![piece0] + spec_string_rows(
                data@,
                chunk_end as int,
                chunk as nat,
                (repeat - r - 1) as nat,
            ));
        }
        let piece = text_until_nul(&data[p..chunk_end]);
        proof {
            crate::values::lemma_strings_view_push(rows@, piece);
            assert(strings_view(rows@) + (seq![piece0] + spec_string_rows(
                data@,
                chunk_end as int,
                chunk as nat,
                (repeat - r - 1) as nat,
            )) =~= strings_view(rows@.push(piece)) + spec_string_rows(
                data@,
                chunk_end as int,
                chunk as nat,
                (repeat - r - 1) as nat,
            ));
            assert(chunk * (r + 1) == chunk * r + chunk) by (nonlinear_arith);
        }
        rows.push(piece);
        p = chunk_end;
        r = r + 1;
    }
    proof {
        assert(strings_view(rows@) + spec_string_rows(data@, p as int, chunk as nat, 0nat)
            =~= strings_view(rows@));
    }
    (rows, p)
}

/// Read `repeat` rows of `count` scalar elements of type `t`, the
/// general simple record body.
#[verifier::loop_isolation(false)]
fn read_simple_rows(t: Type, data: &[u8], body: usize, count: usize, repeat: usize) -> (r: Result<
    (Vec<Vec<Value>>, usize),
    DecodeError,
>)
    requires
        t.spec_width() is Some,
        body <= data@.len(),
    ensures
        match r {
            Ok((rows, p)) => spec_simple_rows(t, data@, body as int, count as nat, repeat as nat)
                == Ok::<Seq<Seq<ValueV>>, DecodeError>(rows_view(rows@)) && p as int == body + (
            repeat as nat) * ((count as nat) * spec_width_of(t)) && body <= p <= data@.len(),
            Err(e) => spec_simple_rows(t, data@, body as int, count as nat, repeat as nat) == Err::<
                Seq<Seq<ValueV>>,
                DecodeError,
            >(e),
        },
{
    let len = data.len();
    let ghost w = spec_width_of(t);
    let ghost cw = (count as nat) * w;
    let mut rows: Vec<Vec<Value>> = Vec::new();
    let mut p = body;
    let mut r: usize = 0;
    proof {
        assert((0nat) * cw == 0 && (0nat) * w == 0) by (nonlinear_arith);
    }
    while r < repeat
        invariant
            t.spec_width() is Some,
            w == spec_width_of(t),
            cw == (count as nat) * w,
            body <= p <= len,
            r <= repeat,
            len == data@.len(),
            rows@.len() == r,
            p as int == body + (r as nat) * cw,
            spec_simple_rows(t, data@, body as int, count as nat, repeat as nat) == (
            match spec_simple_rows(t, data@, p as int, count as nat, (repeat - r) as nat) {
                Ok(rest) => Ok::<Seq<Seq<ValueV>>, DecodeError>(rows_view(rows@) + rest),
                Err(e) => Err::<Seq<Seq<ValueV>>, DecodeError>(e),
            }),
        decreases repeat - r,
    {
        let mut row: Vec<Value> = Vec::new();
        let mut q = p;
        let mut j: usize = 0;
        proof {
            assert((0nat) * w == 0) by (nonlinear_arith);
        }
        while j < count
            invariant
                t.spec_width() is Some,
                w == spec_width_of(t),
                p <= q <= len,
                j <= count,
                len == data@.len(),
                row@.len() == j,
                q as int == p + (j as nat) * w,
                spec_scalars(t, data@, p as int, count as nat) == (match spec_scalars(
                    t,
                    data@,
                    q as int,
                    (count - j) as nat,
                ) {
                    Ok(rest) => Ok::<Seq<ValueV>, DecodeError>(values_view(row@) + rest),
                    Err(e) => Err::<Seq<ValueV>, DecodeError>(e),
                }),
            decreases count - j,
        {
            match t.read(data, q) {
                Err(e) => {
                    proof {
                        assert(spec_scalars(t, data@, q as int, (count - j) as nat) == Err::<
                            Seq<ValueV>,
                            DecodeError,
                        >(e));
                        assert(spec_scalars(t, data@, p as int, count as nat) == Err::<
                            Seq<ValueV>,
                            DecodeError,
                        >(e));
                        assert(spec_simple_rows(
                            t,
                            data@,
                            p as int,
                            count as nat,
                            (repeat - r) as nat,
                        ) == Err::<Seq<Seq<ValueV>>, DecodeError>(e));
                    }
                    return Err(e);
                },
                Ok((v, q2)) => {
                    proof {
                        crate::values::lemma_values_view_push(row@, v);
                        assert(values_view(row@) + (seq![value_view(v)] + (match spec_scalars(
                            t,
                            data@,
                            q2 as int,
                            (count - j - 1) as nat,
                        ) {
                            Ok(rest) => rest,
                            Err(_) => Seq::empty(),
                        })) =~= values_view(row@.push(v)) + (match spec_scalars(
                            t,
                            data@,
                            q2 as int,
                            (count - j - 1) as nat,
                        ) {
                            Ok(rest) => rest,
                            Err(_) => Seq::empty(),
                        }));
                        assert((j + 1) as nat * w == (j as nat) * w + w) by (nonlinear_arith);
                    }
                    row.push(v);
                    q = q2;
                    j = j + 1;
                },
            }
        }
        proof {
            assert(values_view(row@) + Seq::<ValueV>::empty() =~= values_view(row@));
            crate::values::lemma_rows_view_push(rows@, row);
            assert((r + 1) as nat * cw == (r as nat) * cw + cw) by (nonlinear_arith);
        }
        let ghost rest1 = match spec_simple_rows(
            t,
            data@,
            q as int,
            count as nat,
            (repeat - r - 1) as nat,
        ) {
            Ok(rest) => rest,
            Err(_) => Seq::empty(),
        };
        proof {
            if spec_simple_rows(t, data@, q as int, count as nat, (repeat - r - 1) as nat) is Ok {
                assert(rows_view(rows@) + (seq![values_view(row@)] + rest1) =~= rows_view(
                    rows@.push(row),
                ) + rest1);
            }
        }
        rows.push(row);
        p = q;
        r = r + 1;
    }
    proof {
        assert(rows_view(rows@) + Seq::<Seq<ValueV>>::empty() =~= rows_view(rows@));
    }
    Ok((rows, p))
}

/// Read `repeat` complex elements, each one scalar per entry of the
/// remembered template, in template order.
#[verifier::loop_isolation(false)]
fn read_complex_rows(ts: &Vec<Type>, data: &[u8], body: usize, repeat: usize) -> (r: Result<
    (Vec<Vec<Value>>, usize),
    DecodeError,
>)
    requires
        forall|i: int| 0 <= i < ts@.len() ==> (#[trigger] ts@[i]).spec_width() is Some,
        body <= data@.len(),
    ensures
        match r {
            Ok((rows, p)) => spec_complex_rows(ts@, data@, body as int, repeat as nat) == Ok::<
                Seq<Seq<ValueV>>,
                DecodeError,
            >(rows_view(rows@)) && p as int == body + (repeat as nat) * spec_template_width(ts@)
                && body <= p <= data@.len(),
            Err(e) => spec_complex_rows(ts@, data@, body as int, repeat as nat) == Err::<
                Seq<Seq<ValueV>>,
                DecodeError,
            >(e),
        },
{
    let len = data.len();
    let ghost tw = spec_template_width(ts@);
    let mut rows: Vec<Vec<Value>> = Vec::new();
    let mut p = body;
    let mut r: usize = 0;
    proof {
        assert((0nat) * tw == 0) by (nonlinear_arith);
    }
    while r < repeat
        invariant
            forall|i: int| 0 <= i < ts@.len() ==> (#[trigger] ts@[i]).spec_width() is Some,
            tw == spec_template_width(ts@),
            body <= p <= len,
            r <= repeat,
            len == data@.len(),
            rows@.len() == r,
            p as int == body + (r as nat) * tw,
            spec_complex_rows(ts@, data@, body as int, repeat as nat) == (match spec_complex_rows(
                ts@,
                data@,
                p as int,
                (repeat - r) as nat,
            ) {
                Ok(rest) => Ok::<Seq<Seq<ValueV>>, DecodeError>(rows_view(rows@) + rest),
                Err(e) => Err::<Seq<Seq<ValueV>>, DecodeError>(e),
            }),
        decreases repeat - r,
    {
        let mut row: Vec<Value> = Vec::new();
        let mut q = p;
        let mut j: usize = 0;
        proof {
            assert(ts@.skip(0) =~= ts@);
            assert(spec_template_width(ts@.take(0)) == 0);
        }
        while j < ts.len()
            invariant
                forall|i: int| 0 <= i < ts@.len() ==> (#[trigger] ts@[i]).spec_width() is Some,
                p <= q <= len,
                j <= ts@.len(),
                len == data@.len(),
                row@.len() == j,
                q as int == p + spec_template_width(ts@.take(j as int)),
                spec_template_row(ts@, data@, p as int) == (match spec_template_row(
                    ts@.skip(j as int),
                    data@,
                    q as int,
                ) {
                    Ok(rest) => Ok::<Seq<ValueV>, DecodeError>(values_view(row@) + rest),
                    Err(e) => Err::<Seq<ValueV>, DecodeError>(e),
                }),
            decreases ts@.len() - j,
        {
            proof {
                assert(ts@.skip(j as int)[0] == ts@[j as int]);
                assert(ts@.skip(j as int).drop_first() =~= ts@.skip(j + 1));
            }
            match ts[j].read(data, q) {
                Err(e) => {
                    proof {
                        assert(spec_template_row(ts@.skip(j as int), data@, q as int) == Err::<
                            Seq<ValueV>,
                            DecodeError,
                        >(e));
                        assert(spec_template_row(ts@, data@, p as int) == Err::<
                            Seq<ValueV>,
                            DecodeError,
                        >(e));
                        assert(spec_complex_rows(ts@, data@, p as int, (repeat - r) as nat)
                            == Err::<Seq<Seq<ValueV>>, DecodeError>(e));
                    }
                    return Err(e);
                },
                Ok((v, q2)) => {
                    proof {
                        crate::values::lemma_values_view_push(row@, v);
                        assert(values_view(row@) + (seq![value_view(v)] + (
                        match spec_template_row(ts@.skip(j + 1), data@, q2 as int) {
                            Ok(rest) => rest,
                            Err(_) => Seq::empty(),
                        })) =~= values_view(row@.push(v)) + (match spec_template_row(
                            ts@.skip(j + 1),
                            data@,
                            q2 as int,
                        ) {
                            Ok(rest) => rest,
                            Err(_) => Seq::empty(),
                        }));
                        assert(ts@.take(j + 1) =~= ts@.take(j as int).push(ts@[j as int]));
                        lemma_template_width_snoc(ts@.take(j as int), ts@[j as int]);
                    }
                    row.push(v);
                    q = q2;
                    j = j + 1;
                },
            }
        }
        proof {
            assert(ts@.skip(ts@.len() as int).len() == 0);
            assert(values_view(row@) + Seq::<ValueV>::empty() =~= values_view(row@));
            assert(ts@.take(ts@.len() as int) =~= ts@);
            crate::values::lemma_rows_view_push(rows@, row);
            assert((r + 1) as nat * tw == (r as nat) * tw + tw) by (nonlinear_arith);
        }
        let ghost rest1 = match spec_complex_rows(ts@, data@, q as int, (repeat - r - 1) as nat) {
            Ok(rest) => rest,
            Err(_) => Seq::empty(),
        };
        proof {
            if spec_complex_rows(ts@, data@, q as int, (repeat - r - 1) as nat) is Ok {
                assert(rows_view(rows@) + (seq![values_view(row@)] + rest1) =~= rows_view(
                    rows@.push(row),
                ) + rest1);
            }
        }
        rows.push(row);
        p = q;
        r = r + 1;
    }
    proof {
        assert(rows_view(rows@) + Seq::<Seq<ValueV>>::empty() =~= rows_view(rows@));
    }
    Ok((rows, p))
}

/// The remembered template of an executable frame, abstractly.
pub open spec fn tmpl_view(t: Option<Vec<Type>>) -> Option<Seq<Type>> {
    match t {
        None => None,
        Some(v) => Some(v@),
    }
}

/// What the decoder knows of its remembered template: it came from a
/// type-template run, so it has at most as many entries as a run can have
/// bytes, each a fixed-width catalog type.
pub open spec fn template_inv(t: Option<Vec<Type>>) -> bool {
    match t {
        None => true,
        Some(v) => v@.len() <= 65535 && forall|i: int|
            0 <= i < v@.len() ==> (#[trigger] v@[i]).spec_width() is Some,
    }
}

/// The abstract form of a decoded frame result.
pub open spec fn frame_res_view(r: Result<Vec<KeyValue>, DecodeError>) -> Result<
    Seq<RecordV>,
    DecodeError,
> {
    match r {
        Ok(v) => Ok(records_view(v@)),
        Err(e) => Err(e),
    }
}

/// Decode one record at `pos` of the frame whose remembered template is
/// `tmpl`, replacing the template when the record is a type template.
#[verifier::loop_isolation(false)]
fn parse_record(data: &[u8], pos: usize, tmpl: &mut Option<Vec<Type>>, depth: u32) -> (r: Result<
    (KeyValue, usize),
    DecodeError,
>)
    requires
        pos + 8 <= data@.len(),
        template_inv(*old(tmpl)),
    ensures
        template_inv(*final(tmpl)),
        match r {
            Ok((kv, p2)) => spec_record(data@, pos as int, tmpl_view(*old(tmpl)), depth as nat)
                == Ok::<(RecordV, int, Option<Seq<Type>>), DecodeError>(
                (kv@, p2 as int, tmpl_view(*final(tmpl))),
            ) && pos + 8 <= p2 <= data@.len(),
            Err(e) => spec_record(data@, pos as int, tmpl_view(*old(tmpl)), depth as nat) == Err::<
                (RecordV, int, Option<Seq<Type>>),
                DecodeError,
            >(e) && *final(tmpl) == *old(tmpl),
        },
    decreases depth, 0int,
{
    let len = data.len();
    let key = Tag::from_bytes(data[pos], data[pos + 1], data[pos + 2], data[pos + 3]);
    let typ = match Type::from_byte(data[pos + 4]) {
        None => {
            return Err(DecodeError::UnknownType);
        },
        Some(t) => t,
    };
    let is_complex = match typ {
        Type::Complex => true,
        _ => false,
    };
    if is_complex && tmpl.is_none() {
        return Err(DecodeError::NoTypeTemplate);
    }
    let size = data[pos + 5] as usize;
    let repeat = read_be_u16(data, pos + 6) as usize;
    proof {
        assert(size * repeat <= 255 * 65535) by (nonlinear_arith)
            requires
                size <= 255 && repeat <= 65535,
        ;
    }
    let num_bytes = size * repeat;
    let body = pos + 8;
    let ghost tv0 = tmpl_view(*old(tmpl));
    let ew: usize = if is_complex {
        match tmpl.as_ref() {
            Some(ts) => template_width(ts),
            None => 0,
        }
    } else {
        typ.size()
    };
    let ghost s_ew: nat = if typ is Complex {
        spec_template_width(tv0.unwrap())
    } else {
        typ.spec_size() as nat
    };
    proof {
        assert(ew as nat == s_ew);
    }
    let count = element_count(size, ew);
    let padding = padding_of(num_bytes);
    match typ {
        Type::Char => {
            if count == 1 {
                let run_end = if repeat > len - body {
                    len
                } else {
                    body + repeat
                };
                let run = &data[body..run_end];
                if key.is_template_marker() {
                    let ts = parse_template(run);
                    let ts_value = ts.clone();
                    proof {
                        assert(ts_value@ =~= ts@);
                    }
                    *tmpl = Some(ts);
                    let p2 = if padding > len - run_end {
                        len
                    } else {
                        run_end + padding
                    };
                    let kv = KeyValue { key, value: Value::Type(ts_value) };
                    return Ok((kv, p2));
                } else {
                    let s = text_until_nul(run);
                    let p2 = if padding > len - run_end {
                        len
                    } else {
                        run_end + padding
                    };
                    let kv = KeyValue { key, value: Value::String(s) };
                    return Ok((kv, p2));
                }
            } else {
                let (rows, newp) = read_string_rows(data, body, count, repeat);
                let p2 = if padding > len - newp {
                    len
                } else {
                    newp + padding
                };
                let kv = KeyValue { key, value: Value::Strings(rows) };
                return Ok((kv, p2));
            }
        },
        Type::Complex => {
            match tmpl.as_ref() {
                None => {
                    proof {
                        assert(false);
                    }
                    return Err(DecodeError::NoTypeTemplate);
                },
                Some(ts) => {
                    match read_complex_rows(ts, data, body, repeat) {
                        Err(e) => {
                            return Err(e);
                        },
                        Ok((rows, newp)) => {
                            let p2 = if padding > len - newp {
                                len
                            } else {
                                newp + padding
                            };
                            let kv = KeyValue { key, value: Value::Complex(rows) };
                            return Ok((kv, p2));
                        },
                    }
                },
            }
        },
        Type::Nested => {
            if num_bytes > len - body {
                return Err(DecodeError::TruncatedInput);
            }
            if depth == 0 {
                return Err(DecodeError::DepthExceeded);
            }
            let sub = &data[body..body + num_bytes];
            match parse_frame(sub, depth - 1) {
                Err(e) => {
                    return Err(e);
                },
                Ok(kids) => {
                    let newp = body + num_bytes;
                    let p2 = if padding > len - newp {
                        len
                    } else {
                        newp + padding
                    };
                    let kv = KeyValue { key, value: Value::Nested(kids) };
                    return Ok((kv, p2));
                },
            }
        },
        _ => {
            match read_simple_rows(typ, data, body, count, repeat) {
                Err(e) => {
                    return Err(e);
                },
                Ok((rows, newp)) => {
                    let p2 = if padding > len - newp {
                        len
                    } else {
                        newp + padding
                    };
                    let kv = KeyValue { key, value: Value::Simple(rows) };
                    return Ok((kv, p2));
                },
            }
        },
    }
}

/// Decode one whole frame: the records of `data` from start to end, with
/// a fresh template state, following nested records at most `depth`
/// levels deep.
#[verifier::loop_isolation(false)]
pub fn parse_frame(data: &[u8], depth: u32) -> (r: Result<Vec<KeyValue>, DecodeError>)
    ensures
        frame_res_view(r) == spec_frame(data@, depth as nat),
    decreases depth, 1int,
{
    let len = data.len();
    let mut res: Vec<KeyValue> = Vec::new();
    let mut tmpl: Option<Vec<Type>> = None;
    let mut pos: usize = 0;
    loop
        invariant
            pos <= len,
            template_inv(tmpl),
            spec_frame(data@, depth as nat) == (match spec_frame_at(
                data@,
                pos as int,
                tmpl_view(tmpl),
                depth as nat,
            ) {
                Ok(rest) => Ok::<Seq<RecordV>, DecodeError>(records_view(res@) + rest),
                Err(e) => Err::<Seq<RecordV>, DecodeError>(e),
            }),
        decreases len - pos,
    {
        if pos == len {
            proof {
                assert(records_view(res@) + Seq::<RecordV>::empty() =~= records_view(res@));
            }
            return Ok(res);
        }
        if len - pos < 8 {
            return Err(DecodeError::MalformedHeader);
        }
        proof {
            lemma_frame_at_step(data@, pos as int, tmpl_view(tmpl), depth as nat);
        }
        match parse_record(data, pos, &mut tmpl, depth) {
            Err(e) => {
                return Err(e);
            },
            Ok((kv, p2)) => {
                let ghost rest2 = match spec_frame_at(
                    data@,
                    p2 as int,
                    tmpl_view(tmpl),
                    depth as nat,
                ) {
                    Ok(rest) => rest,
                    Err(_) => Seq::empty(),
                };
                proof {
                    crate::values::lemma_records_view_push(res@, kv);
                    if spec_frame_at(data@, p2 as int, tmpl_view(tmpl), depth as nat) is Ok {
                        assert(records_view(res@) + (seq![kv@] + rest2) =~= records_view(
                            res@.push(kv),
                        ) + rest2);
                    }
                }
                res.push(kv);
                pos = p2;
            },
        }
    }
}

/// Decode a whole metadata buffer into its ordered sequence of records,
/// or report the first failure. This is the top-level entry point; it
/// follows nested records up to [`MAX_NESTING_DEPTH`] levels.
pub fn parse_gpmf(input: &[u8]) -> (r: Result<Vec<KeyValue>, DecodeError>)
    ensures
        frame_res_view(r) == spec_frame(input@, MAX_NESTING_DEPTH as nat),
{
    parse_frame(input, MAX_NESTING_DEPTH)
}

// =========================================================================
// Laws of the decoder
// =========================================================================

/// Decoding a fixed-point field can never overflow: any bit pattern of
/// the right width decodes, the extreme patterns decode to the extreme
/// representable values, and the sum of the two extremes is itself
/// representable for both widths.
pub proof fn lemma_fixed_point_extremes(data: Seq<u8>, pos: int)
    requires
        0 <= pos,
    ensures
        spec_scalar(Type::Fixed32, data, pos) is Ok <==> pos + 4 <= data.len(),
        spec_scalar(Type::Fixed64, data, pos) is Ok <==> pos + 8 <= data.len(),
        spec_scalar(Type::Fixed32, seq![0x7fu8, 0xffu8, 0xffu8, 0xffu8], 0) == Ok::<
            ValueV,
            DecodeError,
        >(ValueV::Fixed32(i32::MAX)),
        spec_scalar(Type::Fixed32, seq![0x80u8, 0u8, 0u8, 0u8], 0) == Ok::<ValueV, DecodeError>(
            ValueV::Fixed32(i32::MIN),
        ),
        i32::MIN <= i32::MAX + i32::MIN <= i32::MAX,
        spec_scalar(
            Type::Fixed64,
            seq![0x7fu8, 0xffu8, 0xffu8, 0xffu8, 0xffu8, 0xffu8, 0xffu8, 0xffu8],
            0,
        ) == Ok::<ValueV, DecodeError>(ValueV::Fixed64(i64::MAX)),
        spec_scalar(Type::Fixed64, seq![0x80u8, 0u8, 0u8, 0u8, 0u8, 0u8, 0u8, 0u8], 0) == Ok::<
            ValueV,
            DecodeError,
        >(ValueV::Fixed64(i64::MIN)),
        i64::MIN <= i64::MAX + i64::MIN <= i64::MAX,
{
}

/// A nested record's recursive decode consumes exactly `declared size ×
/// repeat count` bytes of the parent buffer, whatever the nested content
/// holds: the outer cursor's advance is computed from the header alone.
/// The nested payload is decoded as a fresh frame that inherits no
/// template, and the outer record's own template passes through
/// unchanged.
pub proof fn lemma_nested_consumes(data: Seq<u8>, pos: int, tmpl: Option<Seq<Type>>, depth: nat)
    requires
        0 <= pos,
        pos + 8 <= data.len(),
        Type::spec_from_byte(data[pos + 4]) == Some(Type::Nested),
    ensures
        spec_record(data, pos, tmpl, depth) matches Ok((rec, p2, t2)) ==> {
            let num_bytes = (data[pos + 5] as nat) * (spec_be_u16(data, pos + 6) as nat);
            &&& p2 == spec_skip_padding(
                pos + 8 + num_bytes,
                spec_padding(num_bytes as int),
                data.len() as int,
            )
            &&& depth > 0
            &&& rec.value == ValueV::Nested(
                spec_frame(data.subrange(pos + 8, pos + 8 + num_bytes), (depth - 1) as nat).unwrap(),
            )
            &&& t2 == tmpl
        },
{
}

/// Neither a scalar read nor a complex row can report a missing type
/// template: that failure arises only from dispatching a complex record
/// itself.
proof fn lemma_scalar_not_template_err(t: Type, data: Seq<u8>, pos: int)
    ensures
        spec_scalar(t, data, pos) != Err::<ValueV, DecodeError>(DecodeError::NoTypeTemplate),
{
}

/// A row of template entries never reports a missing type template.
proof fn lemma_template_row_not_template_err(ts: Seq<Type>, data: Seq<u8>, pos: int)
    ensures
        spec_template_row(ts, data, pos) != Err::<Seq<ValueV>, DecodeError>(
            DecodeError::NoTypeTemplate,
        ),
    decreases ts,
{
    if ts.len() > 0 {
        lemma_scalar_not_template_err(ts[0], data, pos);
        lemma_template_row_not_template_err(ts.drop_first(), data, pos + spec_width_of(ts[0]));
    }
}

/// A complex record body never reports a missing type template.
proof fn lemma_complex_rows_not_template_err(ts: Seq<Type>, data: Seq<u8>, pos: int, repeat: nat)
    ensures
        spec_complex_rows(ts, data, pos, repeat) != Err::<Seq<Seq<ValueV>>, DecodeError>(
            DecodeError::NoTypeTemplate,
        ),
    decreases repeat,
{
    if repeat > 0 {
        lemma_template_row_not_template_err(ts, data, pos);
        lemma_complex_rows_not_template_err(
            ts,
            data,
            pos + spec_template_width(ts),
            (repeat - 1) as nat,
        );
    }
}

/// A complex record fails with `NoTypeTemplate` exactly when no type
/// template is remembered in its frame: once any template record has
/// preceded it, that failure cannot be reported, whatever else the record
/// holds.
pub proof fn lemma_complex_needs_template(
    data: Seq<u8>,
    pos: int,
    tmpl: Option<Seq<Type>>,
    depth: nat,
)
    requires
        0 <= pos,
        pos + 8 <= data.len(),
        Type::spec_from_byte(data[pos + 4]) == Some(Type::Complex),
    ensures
        tmpl is None <==> spec_record(data, pos, tmpl, depth) == Err::<
            (RecordV, int, Option<Seq<Type>>),
            DecodeError,
        >(DecodeError::NoTypeTemplate),
{
    if tmpl is Some {
        let repeat = spec_be_u16(data, pos + 6) as nat;
        lemma_complex_rows_not_template_err(tmpl.unwrap(), data, pos + 8, repeat);
    }
}

} // verus!
