//! The record decoder: interprets exactly one fixed-width record of a
//! flat value array, field by field in schema order, resolving enum and
//! string-table indirections.

use vstd::prelude::*;
use crate::schema::{Field, FieldKind};

verus! {

/// A decoded field: either resolved text (an enum label or a string-table
/// entry) or the raw number.
#[derive(Debug, Clone, PartialEq, Eq)]
pub enum FieldValue {
    Text(String),
    Num(u64),
}

/// Which part of the ingestion pass an error belongs to.
#[derive(Debug, Clone, Copy, PartialEq, Eq, Structural)]
pub enum Stage {
    ObjectDecode,
    ReferenceDecode,
    LocationDecode,
}

/// A fatal decoding failure, carrying the stage and, where one exists,
/// the record it was noticed at.
#[derive(Debug, Clone, Copy, PartialEq, Eq, Structural)]
pub enum DecodeError {
    /// A flat array's length is not an exact multiple of its stride.
    Stride { stage: Stage, len: usize, stride: usize },
    /// A record would run past the end of its value array.
    Truncated { stage: Stage, record: usize },
    /// An index-typed field points outside its label list or the string table.
    Field { stage: Stage, record: usize, field: usize },
    /// A decoded field does not have the shape the builder requires there.
    Shape { stage: Stage, record: usize, field: usize },
    /// A translated position lies outside the object array or off a
    /// record boundary.
    Target { stage: Stage, record: usize, position: u64 },
    /// An object declares more references than reference records remain.
    CountOverrun { object: usize },
    /// Reference records remain after every object's declared references
    /// were decoded.
    CountLeftover { remaining: usize },
}

/// What one raw value decodes to under a field kind: an enum label, a
/// string-table entry, or the number itself; nothing when an index is
/// out of range.
pub open spec fn decode_field_spec(kind: FieldKind, raw: u64, strings: Seq<String>) -> Option<
    FieldValue,
> {
    match kind {
        FieldKind::Labels(labels) => {
            if (raw as int) < labels@.len() {
                Some(FieldValue::Text(labels@[raw as int]))
            } else {
                None
            }
        },
        FieldKind::StringRef => {
            if (raw as int) < strings.len() {
                Some(FieldValue::Text(strings[raw as int]))
            } else {
                None
            }
        },
        FieldKind::Number => Some(FieldValue::Num(raw)),
        FieldKind::NodeRef => Some(FieldValue::Num(raw)),
    }
}

/// Decodes one raw value under a field kind.
pub fn decode_field(kind: &FieldKind, raw: u64, strings: &Vec<String>) -> (r: Option<FieldValue>)
    ensures
        r == decode_field_spec(*kind, raw, strings@),
{
    match kind {
        FieldKind::Labels(labels) => {
            if raw < labels.len() as u64 {
                Some(FieldValue::Text(labels[raw as usize].clone()))
            } else {
                None
            }
        },
        FieldKind::StringRef => {
            if raw < strings.len() as u64 {
                Some(FieldValue::Text(strings[raw as usize].clone()))
            } else {
                None
            }
        },
        FieldKind::Number => Some(FieldValue::Num(raw)),
        FieldKind::NodeRef => Some(FieldValue::Num(raw)),
    }
}

/// The decoded record that starts at `offset`: one value per schema
/// field, in schema order; nothing when the record runs past the end of
/// the array or some field fails to decode.
pub open spec fn decode_record_spec(
    fields: Seq<Field>,
    values: Seq<u64>,
    strings: Seq<String>,
    offset: int,
) -> Option<Seq<FieldValue>> {
    if offset + fields.len() <= values.len() && (forall|i: int|
        0 <= i < fields.len() ==> (#[trigger] decode_field_spec(
            fields[i].kind,
            values[offset + i],
            strings,
        )) is Some) {
        Some(
            Seq::new(
                fields.len(),
                |i: int| decode_field_spec(fields[i].kind, values[offset + i], strings).unwrap(),
            ),
        )
    } else {
        None
    }
}

/// Decodes exactly one record, consuming `fields.len()` values starting
/// at `offset`, and reports the new offset. `stage` and `record` only
/// name the caller's position for error reporting.
pub fn decode_record(
    stage: Stage,
    record: usize,
    fields: &Vec<Field>,
    values: &Vec<u64>,
    strings: &Vec<String>,
    offset: usize,
) -> (r: Result<(Vec<FieldValue>, usize), DecodeError>)
    ensures
        match r {
            Ok(p) => {
                &&& decode_record_spec(fields@, values@, strings@, offset as int) == Some(p.0@)
                &&& p.1 == offset + fields@.len()
            },
            Err(e) => {
                &&& decode_record_spec(fields@, values@, strings@, offset as int) is None
                &&& match e {
                    DecodeError::Truncated { stage: s, record: rec } => {
                        &&& s == stage
                        &&& rec == record
                        &&& offset + fields@.len() > values@.len()
                    },
                    DecodeError::Field { stage: s, record: rec, field: k } => {
                        &&& s == stage
                        &&& rec == record
                        &&& offset + fields@.len() <= values@.len()
                        &&& 0 <= k < fields@.len()
                        &&& decode_field_spec(
                            fields@[k as int].kind,
                            values@[offset + k],
                            strings@,
                        ) is None
                        &&& forall|j: int|
                            0 <= j < k ==> (#[trigger] decode_field_spec(
                                fields@[j].kind,
                                values@[offset + j],
                                strings@,
                            )) is Some
                    },
                    _ => false,
                }
            },
        },
{
    let vlen: usize = values.len();
    if fields.len() > vlen || offset > vlen - fields.len() {
        return Err(DecodeError::Truncated { stage, record });
    }
    let mut vals: Vec<FieldValue> = Vec::new();
    let mut k: usize = 0;
    while k < fields.len()
        invariant
            k <= fields@.len(),
            vlen == values@.len(),
            offset + fields@.len() <= values@.len(),
            vals@.len() == k,
            forall|j: int|
                0 <= j < k ==> (#[trigger] decode_field_spec(
                    fields@[j].kind,
                    values@[offset + j],
                    strings@,
                )) is Some,
            forall|j: int|
                0 <= j < k ==> vals@[j] == decode_field_spec(
                    fields@[j].kind,
                    values@[offset + j],
                    strings@,
                ).unwrap(),
        decreases fields@.len() - k,
    {
        match decode_field(&fields[k].kind, values[offset + k], strings) {
            Some(v) => vals.push(v),
            None => {
                return Err(DecodeError::Field { stage, record, field: k });
            },
        }
        k += 1;
    }
    proof {
        let expected = decode_record_spec(fields@, values@, strings@, offset as int);
        assert(expected is Some);
        assert(vals@ =~= expected.unwrap());
    }
    Ok((vals, offset + fields.len()))
}

} // verus!
