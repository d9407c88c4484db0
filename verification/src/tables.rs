//! The three table builders: they walk the flat value arrays in
//! schema-length strides, decode each record, translate positions into
//! object identifiers, and emit the relational entities.

use vstd::prelude::*;
use vstd::arithmetic::div_mod::lemma_fundamental_div_mod;
use crate::decode::{
    decode_field_spec, decode_record, decode_record_spec, DecodeError, FieldValue, Stage,
};
use crate::schema::{EdgeSchema, NodeSchema};
use crate::text::{dec_str, u64_to_dec};

verus! {

/// One row of the object table.
#[derive(Debug, Clone, PartialEq, Eq)]
pub struct ObjectRow {
    pub id: u64,
    pub name: String,
    pub kind: String,
    pub self_size: u64,
    pub reference_count: u64,
}

/// The object entity decoded from the record at stride position `j`:
/// its identifier, name, kind, size and declared reference count, read
/// at the schema-resolved offsets. Nothing when the record fails to
/// decode or a required field has the wrong shape.
pub open spec fn object_row_spec(
    schema: NodeSchema,
    nodes: Seq<u64>,
    strings: Seq<String>,
    j: int,
) -> Option<ObjectRow> {
    match decode_record_spec(schema.fields@, nodes, strings, j * schema.stride()) {
        Some(rec) => {
            match (
                rec[schema.id_offset as int],
                rec[schema.name_offset as int],
                rec[schema.type_offset as int],
                rec[schema.self_size_offset as int],
                rec[schema.count_offset as int],
            ) {
                (
                    FieldValue::Num(id),
                    FieldValue::Text(name),
                    FieldValue::Text(kind),
                    FieldValue::Num(self_size),
                    FieldValue::Num(reference_count),
                ) => Some(ObjectRow { id, name, kind, self_size, reference_count }),
                _ => None,
            }
        },
        None => None,
    }
}

/// The exact condition under which the object builder reports `e`: a
/// stride misfit of the object array, or a first record that does not
/// decode to a well-shaped object.
pub open spec fn object_build_error(
    schema: NodeSchema,
    nodes: Seq<u64>,
    strings: Seq<String>,
    e: DecodeError,
) -> bool {
    let stride = schema.stride();
    let n = nodes.len() as int / stride;
    match e {
        DecodeError::Stride { stage, len, stride: st } => {
            &&& stage == Stage::ObjectDecode
            &&& len == nodes.len()
            &&& st == schema.fields@.len()
            &&& nodes.len() as int % stride != 0
        },
        DecodeError::Field { stage, record, field } => {
            &&& stage == Stage::ObjectDecode
            &&& nodes.len() as int % stride == 0
            &&& 0 <= record < n
            &&& object_row_spec(schema, nodes, strings, record as int) is None
            &&& forall|i: int|
                0 <= i < record ==> (#[trigger] object_row_spec(schema, nodes, strings, i)) is Some
            &&& 0 <= field < schema.fields@.len()
            &&& decode_field_spec(
                schema.fields@[field as int].kind,
                nodes[record * stride + field],
                strings,
            ) is None
        },
        DecodeError::Shape { stage, record, field } => {
            let rec = decode_record_spec(schema.fields@, nodes, strings, record * stride);
            &&& stage == Stage::ObjectDecode
            &&& nodes.len() as int % stride == 0
            &&& 0 <= record < n
            &&& object_row_spec(schema, nodes, strings, record as int) is None
            &&& forall|i: int|
                0 <= i < record ==> (#[trigger] object_row_spec(schema, nodes, strings, i)) is Some
            &&& rec is Some
            &&& ((field == schema.id_offset && rec.unwrap()[field as int] matches FieldValue::Text(
                _,
            )) || (field == schema.name_offset && rec.unwrap()[field as int]
                matches FieldValue::Num(_)) || (field == schema.type_offset
                && rec.unwrap()[field as int] matches FieldValue::Num(_)) || (field
                == schema.self_size_offset && rec.unwrap()[field as int] matches FieldValue::Text(
                _,
            )) || (field == schema.count_offset && rec.unwrap()[field as int]
                matches FieldValue::Text(_)))
        },
        _ => false,
    }
}

/// Walks the flat object array in schema-length strides and emits one
/// object entity per record, in array order. Succeeds exactly when the
/// array length is a multiple of the stride and every record decodes to
/// a well-shaped object.
pub fn build_objects(schema: &NodeSchema, nodes: &Vec<u64>, strings: &Vec<String>) -> (r: Result<
    Vec<ObjectRow>,
    DecodeError,
>)
    requires
        schema.wf(),
    ensures
        match r {
            Ok(rows) => {
                &&& nodes@.len() as int % schema.stride() == 0
                &&& rows@.len() == nodes@.len() as int / schema.stride()
                &&& forall|j: int|
                    0 <= j < rows@.len() ==> object_row_spec(*schema, nodes@, strings@, j) == Some(
                        #[trigger] rows@[j],
                    )
            },
            Err(e) => object_build_error(*schema, nodes@, strings@, e),
        },
{
    let stride: usize = schema.fields.len();
    let nlen: usize = nodes.len();
    if nlen % stride != 0 {
        return Err(DecodeError::Stride { stage: Stage::ObjectDecode, len: nlen, stride });
    }
    let n: usize = nlen / stride;
    proof {
        lemma_fundamental_div_mod(nlen as int, stride as int);
    }
    let mut rows: Vec<ObjectRow> = Vec::new();
    let mut j: usize = 0;
    let mut offset: usize = 0;
    while j < n
        invariant
            schema.wf(),
            stride == schema.fields@.len(),
            nlen == nodes@.len(),
            nlen % stride == 0,
            n == nlen as int / stride as int,
            nlen == n * stride,
            j <= n,
            offset == j * stride,
            rows@.len() == j,
            forall|i: int|
                0 <= i < j ==> (#[trigger] object_row_spec(*schema, nodes@, strings@, i)) == Some(
                    rows@[i],
                ),
        decreases n - j,
    {
        proof {
            assert(offset + stride <= nlen) by (nonlinear_arith)
                requires
                    offset == j * stride,
                    j < n,
                    nlen == n * stride,
                    stride > 0,
            ;
        }
        let (rec, _new_offset) = match decode_record(
            Stage::ObjectDecode,
            j,
            &schema.fields,
            nodes,
            strings,
            offset,
        ) {
            Ok(p) => p,
            Err(e) => {
                return Err(e);
            },
        };
        let id: u64 = match &rec[schema.id_offset] {
            FieldValue::Num(v) => *v,
            FieldValue::Text(_) => {
                return Err(
                    DecodeError::Shape {
                        stage: Stage::ObjectDecode,
                        record: j,
                        field: schema.id_offset,
                    },
                );
            },
        };
        let name: String = match &rec[schema.name_offset] {
            FieldValue::Text(s) => s.clone(),
            FieldValue::Num(_) => {
                return Err(
                    DecodeError::Shape {
                        stage: Stage::ObjectDecode,
                        record: j,
                        field: schema.name_offset,
                    },
                );
            },
        };
        let kind: String = match &rec[schema.type_offset] {
            FieldValue::Text(s) => s.clone(),
            FieldValue::Num(_) => {
                return Err(
                    DecodeError::Shape {
                        stage: Stage::ObjectDecode,
                        record: j,
                        field: schema.type_offset,
                    },
                );
            },
        };
        let self_size: u64 = match &rec[schema.self_size_offset] {
            FieldValue::Num(v) => *v,
            FieldValue::Text(_) => {
                return Err(
                    DecodeError::Shape {
                        stage: Stage::ObjectDecode,
                        record: j,
                        field: schema.self_size_offset,
                    },
                );
            },
        };
        let reference_count: u64 = match &rec[schema.count_offset] {
            FieldValue::Num(v) => *v,
            FieldValue::Text(_) => {
                return Err(
                    DecodeError::Shape {
                        stage: Stage::ObjectDecode,
                        record: j,
                        field: schema.count_offset,
                    },
                );
            },
        };
        rows.push(ObjectRow { id, name, kind, self_size, reference_count });
        proof {
            assert((j + 1) * stride == j * stride + stride) by (nonlinear_arith);
        }
        offset = offset + stride;
        j += 1;
    }
    Ok(rows)
}

/// One row of the reference table. `to` is already translated: it is
/// the identifier of the object whose record occupies the position the
/// raw reference pointed at.
#[derive(Debug, Clone, PartialEq, Eq)]
pub struct ReferenceRow {
    pub from: u64,
    pub to: u64,
    pub kind: String,
    pub name_or_index: String,
}

/// The mathematical image of a reference row, with the text fields as
/// character sequences.
pub ghost struct ReferenceRowV {
    pub from: u64,
    pub to: u64,
    pub kind: Seq<char>,
    pub name_or_index: Seq<char>,
}

impl View for ReferenceRow {
    type V = ReferenceRowV;

    open spec fn view(&self) -> ReferenceRowV {
        ReferenceRowV {
            from: self.from,
            to: self.to,
            kind: self.kind@,
            name_or_index: self.name_or_index@,
        }
    }
}

/// The reference count that the object at stride position `j` declares,
/// read raw at the schema-resolved count offset.
pub open spec fn declared_count(schema: NodeSchema, nodes: Seq<u64>, j: int) -> int {
    nodes[j * schema.stride() + schema.count_offset] as int
}

/// Index of the first reference record that belongs to the object at
/// stride position `j`: the sum of the counts declared by the objects
/// before it.
pub open spec fn ref_cursor(schema: NodeSchema, nodes: Seq<u64>, j: int) -> int
    decreases j,
{
    if j <= 0 {
        0
    } else {
        ref_cursor(schema, nodes, j - 1) + declared_count(schema, nodes, j - 1)
    }
}

/// The reference cursor never moves backwards: declared counts are
/// non-negative, so each object's reference records begin at or after
/// those of every earlier object.
pub proof fn lemma_ref_cursor_monotone(schema: NodeSchema, nodes: Seq<u64>, i: int, j: int)
    requires
        0 <= i <= j,
    ensures
        ref_cursor(schema, nodes, i) <= ref_cursor(schema, nodes, j),
    decreases j - i,
{
    if i < j {
        lemma_ref_cursor_monotone(schema, nodes, i, j - 1);
    }
}

/// Every object's reference records form one contiguous segment, of
/// exactly the declared length, placed directly behind the segments of
/// all earlier objects.
pub proof fn lemma_reference_count_partition(
    schema: NodeSchema,
    nodes: Seq<u64>,
    j: int,
    n: int,
)
    requires
        0 <= j < n,
    ensures
        ref_cursor(schema, nodes, j + 1) == ref_cursor(schema, nodes, j) + declared_count(
            schema,
            nodes,
            j,
        ),
        ref_cursor(schema, nodes, j + 1) <= ref_cursor(schema, nodes, n),
{
    lemma_ref_cursor_monotone(schema, nodes, j + 1, n);
}

/// The decoded reference record with global index `r`.
pub open spec fn ref_record_spec(
    eschema: EdgeSchema,
    edges: Seq<u64>,
    strings: Seq<String>,
    r: int,
) -> Option<Seq<FieldValue>> {
    decode_record_spec(eschema.fields@, edges, strings, r * eschema.stride())
}

/// The raw target of the reference record with global index `r`: the
/// value of its target field, which is a position inside the flat
/// object array, not an object identifier.
pub open spec fn ref_target_position(
    eschema: EdgeSchema,
    edges: Seq<u64>,
    strings: Seq<String>,
    r: int,
) -> u64 {
    match ref_record_spec(eschema, edges, strings, r) {
        Some(rec) => match rec[eschema.to_offset as int] {
            FieldValue::Num(pos) => pos,
            FieldValue::Text(_) => 0,
        },
        None => 0,
    }
}

/// The `k`-th reference entity of the object at stride position `j`:
/// decoded from the reference record at the cursor, with the target
/// position translated into the identifier stored at that position's
/// record, and a numeric name rendered as decimal text. Nothing when
/// the record fails to decode, a required field has the wrong shape, or
/// the target position lies outside the object array or off a record
/// boundary.
pub open spec fn ref_row_spec(
    nschema: NodeSchema,
    nodes: Seq<u64>,
    eschema: EdgeSchema,
    edges: Seq<u64>,
    strings: Seq<String>,
    j: int,
    k: int,
) -> Option<ReferenceRowV> {
    let r = ref_cursor(nschema, nodes, j) + k;
    match ref_record_spec(eschema, edges, strings, r) {
        Some(rec) => {
            match (rec[eschema.to_offset as int], rec[eschema.type_offset as int]) {
                (FieldValue::Num(pos), FieldValue::Text(kind)) => {
                    if (pos as int) < nodes.len() && (pos as int) % nschema.stride() == 0 {
                        Some(
                            ReferenceRowV {
                                from: nodes[j * nschema.stride() + nschema.id_offset],
                                to: nodes[pos as int + nschema.id_offset],
                                kind: kind@,
                                name_or_index: match rec[eschema.name_or_index_offset as int] {
                                    FieldValue::Text(s) => s@,
                                    FieldValue::Num(v) => dec_str(v),
                                },
                            },
                        )
                    } else {
                        None
                    }
                },
                _ => None,
            }
        },
        None => None,
    }
}

/// The reference record with global index `record` belongs to some
/// object's declared segment and does not decode to a well-formed
/// reference entity.
pub open spec fn failing_reference(
    nschema: NodeSchema,
    nodes: Seq<u64>,
    eschema: EdgeSchema,
    edges: Seq<u64>,
    strings: Seq<String>,
    record: int,
) -> bool {
    exists|j: int, k: int|
        {
            &&& 0 <= j < nodes.len() as int / nschema.stride()
            &&& 0 <= k < declared_count(nschema, nodes, j)
            &&& record == ref_cursor(nschema, nodes, j) + k
            &&& (#[trigger] ref_row_spec(nschema, nodes, eschema, edges, strings, j, k)) is None
        }
}

/// The exact condition under which the reference builder reports `e`.
pub open spec fn reference_build_error(
    nschema: NodeSchema,
    nodes: Seq<u64>,
    eschema: EdgeSchema,
    edges: Seq<u64>,
    strings: Seq<String>,
    e: DecodeError,
) -> bool {
    let nstride = nschema.stride();
    let estride = eschema.stride();
    let n = nodes.len() as int / nstride;
    let total = edges.len() as int / estride;
    let strides_ok = nodes.len() as int % nstride == 0 && edges.len() as int % estride == 0;
    match e {
        DecodeError::Stride { stage, len, stride } => {
            &&& stage == Stage::ReferenceDecode
            &&& ((len == nodes.len() && stride == nschema.fields@.len() && nodes.len() as int
                % nstride != 0) || (len == edges.len() && stride == eschema.fields@.len()
                && nodes.len() as int % nstride == 0 && edges.len() as int % estride != 0))
        },
        DecodeError::CountOverrun { object } => {
            &&& strides_ok
            &&& 0 <= object < n
            &&& ref_cursor(nschema, nodes, object as int) + declared_count(
                nschema,
                nodes,
                object as int,
            ) > total
            &&& forall|i: int|
                0 <= i < object ==> #[trigger] ref_cursor(nschema, nodes, i) + declared_count(
                    nschema,
                    nodes,
                    i,
                ) <= total
        },
        DecodeError::CountLeftover { remaining } => {
            &&& strides_ok
            &&& ref_cursor(nschema, nodes, n) < total
            &&& remaining == total - ref_cursor(nschema, nodes, n)
            &&& forall|i: int|
                0 <= i < n ==> #[trigger] ref_cursor(nschema, nodes, i) + declared_count(
                    nschema,
                    nodes,
                    i,
                ) <= total
        },
        DecodeError::Field { stage, record, field } => {
            &&& stage == Stage::ReferenceDecode
            &&& strides_ok
            &&& failing_reference(nschema, nodes, eschema, edges, strings, record as int)
            &&& 0 <= field < eschema.fields@.len()
            &&& decode_field_spec(
                eschema.fields@[field as int].kind,
                edges[record * estride + field],
                strings,
            ) is None
        },
        DecodeError::Shape { stage, record, field } => {
            let rec = ref_record_spec(eschema, edges, strings, record as int);
            &&& stage == Stage::ReferenceDecode
            &&& strides_ok
            &&& failing_reference(nschema, nodes, eschema, edges, strings, record as int)
            &&& rec is Some
            &&& ((field == eschema.to_offset && rec.unwrap()[field as int] matches FieldValue::Text(
                _,
            )) || (field == eschema.type_offset && rec.unwrap()[field as int]
                matches FieldValue::Num(_)))
        },
        DecodeError::Target { stage, record, position } => {
            let pos = ref_target_position(eschema, edges, strings, record as int) as int;
            &&& stage == Stage::ReferenceDecode
            &&& strides_ok
            &&& failing_reference(nschema, nodes, eschema, edges, strings, record as int)
            &&& position == ref_target_position(eschema, edges, strings, record as int)
            &&& ref_record_spec(eschema, edges, strings, record as int) is Some
            &&& (pos >= nodes.len() || pos % nschema.stride() != 0)
        },
        _ => false,
    }
}

/// Walks the flat object array and the flat reference array with two
/// cursors: for each object, in array order, decodes exactly as many
/// consecutive reference records as the object declares, translating
/// each raw target position into the identifier of the object whose
/// record occupies it. Succeeds exactly when both array lengths are
/// multiples of their strides, the declared counts sum to the number of
/// reference records, and every reference decodes to a well-shaped
/// entity with a valid target.
pub fn build_references(
    nschema: &NodeSchema,
    nodes: &Vec<u64>,
    eschema: &EdgeSchema,
    edges: &Vec<u64>,
    strings: &Vec<String>,
) -> (r: Result<Vec<ReferenceRow>, DecodeError>)
    requires
        nschema.wf(),
        eschema.wf(),
    ensures
        match r {
            Ok(rows) => {
                &&& nodes@.len() as int % nschema.stride() == 0
                &&& edges@.len() as int % eschema.stride() == 0
                &&& ref_cursor(*nschema, nodes@, nodes@.len() as int / nschema.stride())
                    == edges@.len() as int / eschema.stride()
                &&& rows@.len() == edges@.len() as int / eschema.stride()
                &&& forall|j: int, k: int|
                    0 <= j < nodes@.len() as int / nschema.stride() && 0 <= k < declared_count(
                        *nschema,
                        nodes@,
                        j,
                    ) ==> (#[trigger] ref_row_spec(*nschema, nodes@, *eschema, edges@, strings@, j, k))
                        == Some(rows@[ref_cursor(*nschema, nodes@, j) + k]@)
            },
            Err(e) => reference_build_error(*nschema, nodes@, *eschema, edges@, strings@, e),
        },
{
    let nstride: usize = nschema.fields.len();
    let estride: usize = eschema.fields.len();
    let nlen: usize = nodes.len();
    let elen: usize = edges.len();
    if nlen % nstride != 0 {
        return Err(
            DecodeError::Stride { stage: Stage::ReferenceDecode, len: nlen, stride: nstride },
        );
    }
    if elen % estride != 0 {
        return Err(
            DecodeError::Stride { stage: Stage::ReferenceDecode, len: elen, stride: estride },
        );
    }
    let n: usize = nlen / nstride;
    let total: usize = elen / estride;
    proof {
        lemma_fundamental_div_mod(nlen as int, nstride as int);
        lemma_fundamental_div_mod(elen as int, estride as int);
    }
    let mut rows: Vec<ReferenceRow> = Vec::new();
    let mut j: usize = 0;
    let mut cur: usize = 0;
    let mut noffset: usize = 0;
    while j < n
        invariant
            nschema.wf(),
            eschema.wf(),
            nstride == nschema.fields@.len(),
            estride == eschema.fields@.len(),
            nlen == nodes@.len(),
            elen == edges@.len(),
            nlen % nstride == 0,
            elen % estride == 0,
            n == nlen as int / nstride as int,
            total == elen as int / estride as int,
            nlen == n * nstride,
            elen == total * estride,
            j <= n,
            noffset == j * nstride,
            cur == ref_cursor(*nschema, nodes@, j as int),
            cur <= total,
            rows@.len() == cur,
            forall|i: int|
                0 <= i < j ==> #[trigger] ref_cursor(*nschema, nodes@, i) + declared_count(
                    *nschema,
                    nodes@,
                    i,
                ) <= total as int,
            forall|i: int, k: int|
                0 <= i < j && 0 <= k < declared_count(*nschema, nodes@, i) ==> (
                #[trigger] ref_row_spec(*nschema, nodes@, *eschema, edges@, strings@, i, k))
                    == Some(rows@[ref_cursor(*nschema, nodes@, i) + k]@),
        decreases n - j,
    {
        proof {
            assert(noffset + nstride <= nlen) by (nonlinear_arith)
                requires
                    noffset == j * nstride,
                    j < n,
                    nlen == n * nstride,
                    nstride > 0,
            ;
        }
        let from: u64 = nodes[noffset + nschema.id_offset];
        let count_raw: u64 = nodes[noffset + nschema.count_offset];
        if count_raw > (total - cur) as u64 {
            return Err(DecodeError::CountOverrun { object: j });
        }
        let count: usize = count_raw as usize;
        let mut k: usize = 0;
        while k < count
            invariant
                nschema.wf(),
                eschema.wf(),
                nstride == nschema.fields@.len(),
                estride == eschema.fields@.len(),
                nlen == nodes@.len(),
                elen == edges@.len(),
                nlen % nstride == 0,
                elen % estride == 0,
                n == nlen as int / nstride as int,
                total == elen as int / estride as int,
                nlen == n * nstride,
                elen == total * estride,
                j < n,
                noffset == j * nstride,
                noffset + nstride <= nlen,
                k <= count,
                count == declared_count(*nschema, nodes@, j as int),
                ref_cursor(*nschema, nodes@, j as int) + count <= total,
                cur == ref_cursor(*nschema, nodes@, j as int) + k,
                rows@.len() == cur,
                from == nodes@[j * nstride + nschema.id_offset],
                forall|i: int|
                    0 <= i < j ==> #[trigger] ref_cursor(*nschema, nodes@, i) + declared_count(
                        *nschema,
                        nodes@,
                        i,
                    ) <= total as int,
                forall|i: int, kk: int|
                    0 <= i < j && 0 <= kk < declared_count(*nschema, nodes@, i) ==> (
                    #[trigger] ref_row_spec(*nschema, nodes@, *eschema, edges@, strings@, i, kk))
                        == Some(rows@[ref_cursor(*nschema, nodes@, i) + kk]@),
                forall|kk: int|
                    0 <= kk < k ==> (#[trigger] ref_row_spec(
                        *nschema,
                        nodes@,
                        *eschema,
                        edges@,
                        strings@,
                        j as int,
                        kk,
                    )) == Some(rows@[ref_cursor(*nschema, nodes@, j as int) + kk]@),
            decreases count - k,
        {
            proof {
                assert(cur * estride + estride <= elen) by (nonlinear_arith)
                    requires
                        cur < total,
                        elen == total * estride,
                        estride > 0,
                ;
            }
            let eoffset: usize = cur * estride;
            let (rec, _new_offset) = match decode_record(
                Stage::ReferenceDecode,
                cur,
                &eschema.fields,
                edges,
                strings,
                eoffset,
            ) {
                Ok(p) => p,
                Err(e) => {
                    return Err(e);
                },
            };
            let pos_raw: u64 = match &rec[eschema.to_offset] {
                FieldValue::Num(v) => *v,
                FieldValue::Text(_) => {
                    return Err(
                        DecodeError::Shape {
                            stage: Stage::ReferenceDecode,
                            record: cur,
                            field: eschema.to_offset,
                        },
                    );
                },
            };
            if pos_raw >= nlen as u64 {
                return Err(
                    DecodeError::Target {
                        stage: Stage::ReferenceDecode,
                        record: cur,
                        position: pos_raw,
                    },
                );
            }
            let pos: usize = pos_raw as usize;
            if pos % nstride != 0 {
                return Err(
                    DecodeError::Target {
                        stage: Stage::ReferenceDecode,
                        record: cur,
                        position: pos_raw,
                    },
                );
            }
            proof {
                assert(pos + nschema.id_offset < nlen) by (nonlinear_arith)
                    requires
                        pos < nlen,
                        pos % nstride == 0,
                        nlen % nstride == 0,
                        nschema.id_offset < nstride,
                        0 < nstride,
                ;
            }
            let to: u64 = nodes[pos + nschema.id_offset];
            let kind: String = match &rec[eschema.type_offset] {
                FieldValue::Text(s) => s.clone(),
                FieldValue::Num(_) => {
                    return Err(
                        DecodeError::Shape {
                            stage: Stage::ReferenceDecode,
                            record: cur,
                            field: eschema.type_offset,
                        },
                    );
                },
            };
            let name_or_index: String = match &rec[eschema.name_or_index_offset] {
                FieldValue::Text(s) => s.clone(),
                FieldValue::Num(v) => u64_to_dec(*v),
            };
            let row = ReferenceRow { from, to, kind, name_or_index };
            proof {
                assert(ref_row_spec(
                    *nschema,
                    nodes@,
                    *eschema,
                    edges@,
                    strings@,
                    j as int,
                    k as int,
                ) == Some(row@));
            }
            rows.push(row);
            proof {
                lemma_ref_cursor_monotone(*nschema, nodes@, 0, j as int);
                assert forall|i: int, kk: int|
                    0 <= i < j && 0 <= kk < declared_count(*nschema, nodes@, i) implies ref_row_spec(
                    *nschema,
                    nodes@,
                    *eschema,
                    edges@,
                    strings@,
                    i,
                    kk,
                ) == Some(rows@[ref_cursor(*nschema, nodes@, i) + kk]@) by {
                    lemma_ref_cursor_monotone(*nschema, nodes@, 0, i);
                    lemma_ref_cursor_monotone(*nschema, nodes@, i + 1, j as int);
                    assert(ref_cursor(*nschema, nodes@, i) + kk < ref_cursor(
                        *nschema,
                        nodes@,
                        i + 1,
                    ));
                }
                assert forall|kk: int| 0 <= kk <= k implies ref_row_spec(
                    *nschema,
                    nodes@,
                    *eschema,
                    edges@,
                    strings@,
                    j as int,
                    kk,
                ) == Some(rows@[ref_cursor(*nschema, nodes@, j as int) + kk]@) by {
                    lemma_ref_cursor_monotone(*nschema, nodes@, 0, j as int);
                }
            }
            cur += 1;
            k += 1;
        }
        proof {
            assert((j + 1) * nstride == j * nstride + nstride) by (nonlinear_arith);
        }
        noffset += nstride;
        j += 1;
    }
    if cur != total {
        return Err(DecodeError::CountLeftover { remaining: total - cur });
    }
    Ok(rows)
}

/// One row of the location table. `object_id` is already translated
/// from the raw source-object position.
#[derive(Debug, Clone, Copy, PartialEq, Eq, Structural)]
pub struct LocationRow {
    pub object_id: u64,
    pub script_id: u64,
    pub line: u64,
    pub column: u64,
}

/// The location entity decoded from the `g`-th group of four values:
/// the group's object position translated into the identifier stored at
/// that position's record, then script, line and column taken raw.
/// Nothing when the position lies outside the object array or off a
/// record boundary.
pub open spec fn location_row_spec(
    nschema: NodeSchema,
    nodes: Seq<u64>,
    locations: Seq<u64>,
    g: int,
) -> Option<LocationRow> {
    let pos = locations[4 * g] as int;
    if pos < nodes.len() && pos % nschema.stride() == 0 {
        Some(
            LocationRow {
                object_id: nodes[pos + nschema.id_offset],
                script_id: locations[4 * g + 1],
                line: locations[4 * g + 2],
                column: locations[4 * g + 3],
            },
        )
    } else {
        None
    }
}

/// The exact condition under which the location builder reports `e`: a
/// stride misfit of either array, or a first group whose object
/// position does not translate.
pub open spec fn location_build_error(
    nschema: NodeSchema,
    nodes: Seq<u64>,
    locations: Seq<u64>,
    e: DecodeError,
) -> bool {
    let nstride = nschema.stride();
    match e {
        DecodeError::Stride { stage, len, stride } => {
            &&& stage == Stage::LocationDecode
            &&& ((len == nodes.len() && stride == nschema.fields@.len() && nodes.len() as int
                % nstride != 0) || (len == locations.len() && stride == 4 && nodes.len() as int
                % nstride == 0 && locations.len() as int % 4 != 0))
        },
        DecodeError::Target { stage, record, position } => {
            &&& stage == Stage::LocationDecode
            &&& nodes.len() as int % nstride == 0
            &&& locations.len() as int % 4 == 0
            &&& 0 <= record < locations.len() as int / 4
            &&& location_row_spec(nschema, nodes, locations, record as int) is None
            &&& position == locations[4 * record]
            &&& forall|i: int|
                0 <= i < record ==> (#[trigger] location_row_spec(nschema, nodes, locations, i))
                    is Some
        },
        _ => false,
    }
}

/// Walks the flat location array in non-overlapping groups of four
/// values (object position, script, line, column) and emits one
/// location entity per group, in array order, translating each object
/// position into the identifier stored at that position's record.
pub fn build_locations(nschema: &NodeSchema, nodes: &Vec<u64>, locations: &Vec<u64>) -> (r: Result<
    Vec<LocationRow>,
    DecodeError,
>)
    requires
        nschema.wf(),
    ensures
        match r {
            Ok(rows) => {
                &&& nodes@.len() as int % nschema.stride() == 0
                &&& locations@.len() as int % 4 == 0
                &&& rows@.len() == locations@.len() as int / 4
                &&& forall|g: int|
                    0 <= g < rows@.len() ==> location_row_spec(*nschema, nodes@, locations@, g)
                        == Some(#[trigger] rows@[g])
            },
            Err(e) => location_build_error(*nschema, nodes@, locations@, e),
        },
{
    let nstride: usize = nschema.fields.len();
    let nlen: usize = nodes.len();
    let llen: usize = locations.len();
    if nlen % nstride != 0 {
        return Err(
            DecodeError::Stride { stage: Stage::LocationDecode, len: nlen, stride: nstride },
        );
    }
    if llen % 4 != 0 {
        return Err(DecodeError::Stride { stage: Stage::LocationDecode, len: llen, stride: 4 });
    }
    let m: usize = llen / 4;
    proof {
        lemma_fundamental_div_mod(llen as int, 4);
        lemma_fundamental_div_mod(nlen as int, nstride as int);
    }
    let mut rows: Vec<LocationRow> = Vec::new();
    let mut g: usize = 0;
    let mut off: usize = 0;
    while g < m
        invariant
            nschema.wf(),
            nstride == nschema.fields@.len(),
            nlen == nodes@.len(),
            llen == locations@.len(),
            nlen % nstride == 0,
            llen % 4 == 0,
            m == llen as int / 4,
            llen == m * 4,
            g <= m,
            off == 4 * g,
            rows@.len() == g,
            forall|i: int|
                0 <= i < g ==> (#[trigger] location_row_spec(*nschema, nodes@, locations@, i))
                    == Some(rows@[i]),
        decreases m - g,
    {
        let pos_raw: u64 = locations[off];
        if pos_raw >= nlen as u64 {
            return Err(
                DecodeError::Target {
                    stage: Stage::LocationDecode,
                    record: g,
                    position: pos_raw,
                },
            );
        }
        let pos: usize = pos_raw as usize;
        if pos % nstride != 0 {
            return Err(
                DecodeError::Target {
                    stage: Stage::LocationDecode,
                    record: g,
                    position: pos_raw,
                },
            );
        }
        proof {
            assert(pos + nschema.id_offset < nlen) by (nonlinear_arith)
                requires
                    pos < nlen,
                    pos % nstride == 0,
                    nlen % nstride == 0,
                    nschema.id_offset < nstride,
                    0 < nstride,
            ;
        }
        let object_id: u64 = nodes[pos + nschema.id_offset];
        let script_id: u64 = locations[off + 1];
        let line: u64 = locations[off + 2];
        let column: u64 = locations[off + 3];
        rows.push(LocationRow { object_id, script_id, line, column });
        off += 4;
        g += 1;
    }
    Ok(rows)
}

/// Law: every decoded reference's `to` equals the `id` field of the
/// object whose record occupies the translated target position.
pub proof fn lemma_reference_target_resolved(
    nschema: NodeSchema,
    nodes: Seq<u64>,
    eschema: EdgeSchema,
    edges: Seq<u64>,
    strings: Seq<String>,
    j: int,
    k: int,
)
    requires
        nschema.wf(),
        nodes.len() as int % nschema.stride() == 0,
        forall|i: int|
            0 <= i < nodes.len() as int / nschema.stride() ==> (#[trigger] object_row_spec(
                nschema,
                nodes,
                strings,
                i,
            )) is Some,
        0 <= j,
        0 <= k,
        ref_row_spec(nschema, nodes, eschema, edges, strings, j, k) is Some,
    ensures
        ({
            let row = ref_row_spec(nschema, nodes, eschema, edges, strings, j, k).unwrap();
            let pos = ref_target_position(
                eschema,
                edges,
                strings,
                ref_cursor(nschema, nodes, j) + k,
            ) as int;
            let t = pos / nschema.stride();
            &&& 0 <= t < nodes.len() as int / nschema.stride()
            &&& object_row_spec(nschema, nodes, strings, t) is Some
            &&& object_row_spec(nschema, nodes, strings, t).unwrap().id == row.to
        }),
{
    let stride = nschema.stride();
    let n = nodes.len() as int / stride;
    let pos = ref_target_position(eschema, edges, strings, ref_cursor(nschema, nodes, j) + k)
        as int;
    let t = pos / stride;
    lemma_fundamental_div_mod(pos, stride);
    lemma_fundamental_div_mod(nodes.len() as int, stride);
    assert(pos == stride * t);
    assert(0 <= t && t < n) by (nonlinear_arith)
        requires
            pos == stride * t,
            0 <= pos < nodes.len(),
            nodes.len() == stride * n,
            0 < stride,
    ;
    assert(object_row_spec(nschema, nodes, strings, t) is Some);
    assert(t * stride == pos) by (nonlinear_arith)
        requires
            pos == stride * t,
    ;
}

/// Law: every decoded location's `object_id` equals the `id` field of
/// the object whose record occupies the translated source position.
pub proof fn lemma_location_object_resolved(
    nschema: NodeSchema,
    nodes: Seq<u64>,
    strings: Seq<String>,
    locations: Seq<u64>,
    g: int,
)
    requires
        nschema.wf(),
        nodes.len() as int % nschema.stride() == 0,
        forall|i: int|
            0 <= i < nodes.len() as int / nschema.stride() ==> (#[trigger] object_row_spec(
                nschema,
                nodes,
                strings,
                i,
            )) is Some,
        location_row_spec(nschema, nodes, locations, g) is Some,
    ensures
        ({
            let row = location_row_spec(nschema, nodes, locations, g).unwrap();
            let t = (locations[4 * g] as int) / nschema.stride();
            &&& 0 <= t < nodes.len() as int / nschema.stride()
            &&& object_row_spec(nschema, nodes, strings, t) is Some
            &&& object_row_spec(nschema, nodes, strings, t).unwrap().id == row.object_id
        }),
{
    let stride = nschema.stride();
    let n = nodes.len() as int / stride;
    let pos = locations[4 * g] as int;
    let t = pos / stride;
    lemma_fundamental_div_mod(pos, stride);
    lemma_fundamental_div_mod(nodes.len() as int, stride);
    assert(pos == stride * t);
    assert(0 <= t && t < n) by (nonlinear_arith)
        requires
            pos == stride * t,
            0 <= pos < nodes.len(),
            nodes.len() == stride * n,
            0 < stride,
    ;
    assert(object_row_spec(nschema, nodes, strings, t) is Some);
    assert(t * stride == pos) by (nonlinear_arith)
        requires
            pos == stride * t,
    ;
}

} // verus!
