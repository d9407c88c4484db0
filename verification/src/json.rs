//! Reading a parsed JSON value tree into the snapshot's plain data:
//! the two field schemas, the three flat value arrays and the string
//! table. The tree itself is opaque; every look into it goes through a
//! small trusted wrapper around one serde_json accessor, whose result
//! is given an uninterpreted name, and all the shape decisions are made
//! here, in verified code, on what the wrappers hand back. The public
//! contracts say, over those names, exactly when extraction succeeds,
//! what it returns, and which error each malformed shape produces.

use vstd::prelude::*;
use vstd::string::StringExecFns;
use crate::schema::{EdgeSchema, Field, FieldKind, NodeSchema, SchemaError};
use crate::text::str_eq;

verus! {

#[verifier::external_type_specification]
#[verifier::external_body]
pub struct ExValue(serde_json::Value);

/// What serde_json::from_str returns for a text: a value tree exactly
/// when the text is a valid JSON document.
pub uninterp spec fn json_parsed_of(text: Seq<char>) -> Option<serde_json::Value>;

/// What serde_json::Value::get returns for a string key: the value
/// under the key of a JSON object, nothing for any other value or an
/// absent key.
pub uninterp spec fn json_get_of(v: serde_json::Value, key: Seq<char>) -> Option<
    serde_json::Value,
>;

/// What serde_json::Value::get returns for a numeric index: the element
/// of a JSON array, nothing for any other value or an index past the
/// end.
pub uninterp spec fn json_at_of(v: serde_json::Value, i: int) -> Option<serde_json::Value>;

/// What serde_json::Value::as_array reveals of a value: the length of a
/// JSON array, nothing for any other value.
pub uninterp spec fn json_array_len_of(v: serde_json::Value) -> Option<usize>;

/// What serde_json::Value::as_u64 returns: the numeric value when it is
/// an unsigned 64-bit integer, nothing otherwise.
pub uninterp spec fn json_u64_of(v: serde_json::Value) -> Option<u64>;

/// What serde_json::Value::as_str returns: the text of a JSON string,
/// nothing for any other value.
pub uninterp spec fn json_string_of(v: serde_json::Value) -> Option<Seq<char>>;

/// What serde_json::Value::is_array returns.
pub uninterp spec fn json_is_array_of(v: serde_json::Value) -> bool;

/// Relies on serde_json::from_str: parses a JSON document into a value
/// tree; nothing when the text is not valid JSON. The result is a
/// function of the text alone, named `json_parsed_of`.
#[verifier::external_body]
fn parse_json(text: &str) -> (r: Option<serde_json::Value>)
    ensures
        r == json_parsed_of(text@),
{
    serde_json::from_str(text).ok()
}

/// Relies on serde_json::Value::get with a string index; the result is
/// named `json_get_of`.
#[verifier::external_body]
fn json_get<'a>(v: &'a serde_json::Value, key: &str) -> (r: Option<&'a serde_json::Value>)
    ensures
        match r {
            Some(x) => json_get_of(*v, key@) == Some(*x),
            None => json_get_of(*v, key@) is None,
        },
{
    v.get(key)
}

/// Relies on serde_json::Value::get with a numeric index; the result is
/// named `json_at_of`.
#[verifier::external_body]
fn json_at<'a>(v: &'a serde_json::Value, i: usize) -> (r: Option<&'a serde_json::Value>)
    ensures
        match r {
            Some(x) => json_at_of(*v, i as int) == Some(*x),
            None => json_at_of(*v, i as int) is None,
        },
{
    v.get(i)
}

/// Relies on serde_json::Value::as_array; the length of the array is
/// named `json_array_len_of`.
#[verifier::external_body]
fn json_array_len(v: &serde_json::Value) -> (r: Option<usize>)
    ensures
        r == json_array_len_of(*v),
{
    v.as_array().map(|items| items.len())
}

/// Relies on serde_json::Value::as_u64; the result is named
/// `json_u64_of`.
#[verifier::external_body]
fn json_as_u64(v: &serde_json::Value) -> (r: Option<u64>)
    ensures
        r == json_u64_of(*v),
{
    v.as_u64()
}

/// Relies on serde_json::Value::as_str; the text is named
/// `json_string_of`.
#[verifier::external_body]
fn json_as_string(v: &serde_json::Value) -> (r: Option<String>)
    ensures
        match r {
            Some(s) => json_string_of(*v) == Some(s@),
            None => json_string_of(*v) is None,
        },
{
    v.as_str().map(|s| s.to_string())
}

/// Relies on serde_json::Value::is_array; the result is named
/// `json_is_array_of`.
#[verifier::external_body]
fn json_is_array(v: &serde_json::Value) -> (r: bool)
    ensures
        r == json_is_array_of(*v),
{
    v.is_array()
}

/// A fatal failure while reading the parsed document into plain data.
#[derive(Debug, Clone, PartialEq, Eq)]
pub enum SnapshotError {
    /// The input text is not a JSON document.
    Malformed,
    /// A required key is absent.
    MissingKey { key: String },
    /// The value under a key, or one of its elements, has an unexpected
    /// shape (`index` names the element for an array, 0 otherwise).
    UnexpectedShape { key: String, index: usize },
    /// A type descriptor carries a tag that is not one of the supported
    /// type names.
    UnsupportedTag { tag: String },
    /// A required field name is absent from a schema.
    Schema(SchemaError),
}

/// The snapshot as plain data: resolved schemas, flat value arrays and
/// the string table. Everything the three table builders consume.
#[derive(Debug)]
pub struct Snapshot {
    pub node_schema: NodeSchema,
    pub edge_schema: EdgeSchema,
    pub nodes: Vec<u64>,
    pub edges: Vec<u64>,
    pub strings: Vec<String>,
    pub locations: Vec<u64>,
}

impl Snapshot {
    /// Both schemas carry their resolved offsets.
    pub open spec fn wf(&self) -> bool {
        self.node_schema.wf() && self.edge_schema.wf()
    }
}

/// The `i`-th element of a JSON array read as a number.
pub open spec fn number_at(arr: serde_json::Value, i: int) -> Option<u64> {
    match json_at_of(arr, i) {
        Some(item) => json_u64_of(item),
        None => None,
    }
}

/// The `i`-th element of a JSON array read as text.
pub open spec fn string_at(arr: serde_json::Value, i: int) -> Option<Seq<char>> {
    match json_at_of(arr, i) {
        Some(item) => json_string_of(item),
        None => None,
    }
}

/// `out` is exactly the array `arr` read element by element as numbers.
pub open spec fn numbers_match(out: Seq<u64>, arr: serde_json::Value) -> bool {
    &&& json_array_len_of(arr) is Some
    &&& out.len() == json_array_len_of(arr).unwrap()
    &&& forall|i: int| 0 <= i < out.len() ==> (#[trigger] number_at(arr, i)) == Some(out[i])
}

/// `arr` is not an array of numbers: it has no length, or some element
/// is not an unsigned integer.
pub open spec fn numbers_fail(arr: serde_json::Value) -> bool {
    ||| json_array_len_of(arr) is None
    ||| exists|i: int|
        0 <= i < json_array_len_of(arr).unwrap() && (#[trigger] number_at(arr, i)) is None
}

/// `out` is exactly the array `arr` read element by element as text.
pub open spec fn strings_match(out: Seq<String>, arr: serde_json::Value) -> bool {
    &&& json_array_len_of(arr) is Some
    &&& out.len() == json_array_len_of(arr).unwrap()
    &&& forall|i: int| 0 <= i < out.len() ==> (#[trigger] string_at(arr, i)) == Some(out[i]@)
}

/// `arr` is not an array of strings.
pub open spec fn strings_fail(arr: serde_json::Value) -> bool {
    ||| json_array_len_of(arr) is None
    ||| exists|i: int|
        0 <= i < json_array_len_of(arr).unwrap() && (#[trigger] string_at(arr, i)) is None
}

/// The field kind a type-descriptor tag names, if it is supported.
pub open spec fn field_kind_of_tag(tag: Seq<char>) -> Option<FieldKind> {
    if tag == "number"@ {
        Some(FieldKind::Number)
    } else if tag == "string"@ || tag == "string_or_number"@ {
        Some(FieldKind::StringRef)
    } else if tag == "node"@ {
        Some(FieldKind::NodeRef)
    } else {
        None
    }
}

/// The `i`-th field of a schema is well-shaped: its name is a string,
/// its descriptor exists, and the descriptor is either an array of
/// strings or a supported tag.
pub open spec fn field_ok(names: serde_json::Value, types: serde_json::Value, i: int) -> bool {
    &&& string_at(names, i) is Some
    &&& json_at_of(types, i) is Some
    &&& {
        let tv = json_at_of(types, i).unwrap();
        if json_is_array_of(tv) {
            &&& json_array_len_of(tv) is Some
            &&& forall|k: int|
                0 <= k < json_array_len_of(tv).unwrap() ==> (#[trigger] string_at(tv, k)) is Some
        } else {
            json_string_of(tv) is Some && field_kind_of_tag(json_string_of(tv).unwrap()) is Some
        }
    }
}

/// `f` is exactly the `i`-th field of the schema given by the parallel
/// name and descriptor arrays.
pub open spec fn field_matches(
    f: Field,
    names: serde_json::Value,
    types: serde_json::Value,
    i: int,
) -> bool {
    &&& string_at(names, i) == Some(f.name@)
    &&& json_at_of(types, i) is Some
    &&& {
        let tv = json_at_of(types, i).unwrap();
        if json_is_array_of(tv) {
            f.kind matches FieldKind::Labels(ls) && strings_match(ls@, tv)
        } else {
            json_string_of(tv) is Some && field_kind_of_tag(json_string_of(tv).unwrap()) == Some(
                f.kind,
            )
        }
    }
}

/// `fs` is exactly the schema given by the parallel name and descriptor
/// arrays.
pub open spec fn fields_match(
    fs: Seq<Field>,
    names: serde_json::Value,
    types: serde_json::Value,
) -> bool {
    &&& json_array_len_of(names) is Some
    &&& fs.len() == json_array_len_of(names).unwrap()
    &&& forall|i: int| 0 <= i < fs.len() ==> field_matches(#[trigger] fs[i], names, types, i)
}

/// The parallel name and descriptor arrays do not form a schema: a
/// length is missing, the descriptors are fewer than the names, or some
/// field is ill-shaped.
pub open spec fn fields_fail(names: serde_json::Value, types: serde_json::Value) -> bool {
    ||| json_array_len_of(names) is None
    ||| json_array_len_of(types) is None
    ||| json_array_len_of(types).unwrap() < json_array_len_of(names).unwrap()
    ||| exists|i: int|
        0 <= i < json_array_len_of(names).unwrap() && !(#[trigger] field_ok(names, types, i))
}

/// Some descriptor among the first `n` of `types` is a tag equal to
/// `tag`, and that tag is not supported.
pub open spec fn unsupported_tag_in(types: serde_json::Value, n: int, tag: Seq<char>) -> bool {
    exists|i: int|
        {
            &&& 0 <= i < n
            &&& (#[trigger] json_at_of(types, i)) is Some
            &&& !json_is_array_of(json_at_of(types, i).unwrap())
            &&& json_string_of(json_at_of(types, i).unwrap()) == Some(tag)
            &&& field_kind_of_tag(tag) is None
        }
}

/// The array `names` holds no element equal to `name`.
pub open spec fn name_absent(names: serde_json::Value, name: Seq<char>) -> bool {
    &&& json_array_len_of(names) is Some
    &&& forall|i: int|
        0 <= i < json_array_len_of(names).unwrap() ==> (#[trigger] string_at(names, i)) != Some(
            name,
        )
}

/// The document's meta object: the value under "snapshot", then "meta".
pub open spec fn meta_of(v: serde_json::Value) -> Option<serde_json::Value> {
    match json_get_of(v, "snapshot"@) {
        Some(s) => json_get_of(s, "meta"@),
        None => None,
    }
}

/// The value under a key of the document's meta object.
pub open spec fn meta_entry_of(v: serde_json::Value, key: Seq<char>) -> Option<
    serde_json::Value,
> {
    match meta_of(v) {
        Some(m) => json_get_of(m, key),
        None => None,
    }
}

/// Maps a type-descriptor tag to the field kind it names. Exactly the
/// four supported tags are accepted; any other tag is a fatal error
/// carrying the tag itself.
fn parse_tag(tag: String) -> (r: Result<FieldKind, SnapshotError>)
    ensures
        match r {
            Ok(kind) => field_kind_of_tag(tag@) == Some(kind),
            Err(e) => {
                &&& field_kind_of_tag(tag@) is None
                &&& e matches SnapshotError::UnsupportedTag { tag: t } && t@ == tag@
            },
        },
{
    if str_eq(tag.as_str(), "number") {
        Ok(FieldKind::Number)
    } else if str_eq(tag.as_str(), "string") {
        Ok(FieldKind::StringRef)
    } else if str_eq(tag.as_str(), "string_or_number") {
        Ok(FieldKind::StringRef)
    } else if str_eq(tag.as_str(), "node") {
        Ok(FieldKind::NodeRef)
    } else {
        Err(SnapshotError::UnsupportedTag { tag })
    }
}

/// Reads a JSON array of numbers into a plain vector; fails on any
/// element that is not an unsigned integer.
fn extract_numbers(arr: &serde_json::Value, key: &str) -> (r: Result<Vec<u64>, SnapshotError>)
    ensures
        match r {
            Ok(out) => numbers_match(out@, *arr),
            Err(e) => {
                &&& numbers_fail(*arr)
                &&& e matches SnapshotError::UnexpectedShape { key: k, index } && k@ == key@ && (
                (json_array_len_of(*arr) is None && index == 0) || (json_array_len_of(*arr)
                    is Some && index < json_array_len_of(*arr).unwrap() && number_at(
                    *arr,
                    index as int,
                ) is None))
            },
        },
{
    let len: usize = match json_array_len(arr) {
        Some(l) => l,
        None => {
            return Err(SnapshotError::UnexpectedShape { key: key.to_owned(), index: 0 });
        },
    };
    let mut out: Vec<u64> = Vec::new();
    let mut i: usize = 0;
    while i < len
        invariant
            i <= len,
            json_array_len_of(*arr) == Some(len),
            out@.len() == i,
            forall|j: int| 0 <= j < i ==> (#[trigger] number_at(*arr, j)) == Some(out@[j]),
        decreases len - i,
    {
        let item = match json_at(arr, i) {
            Some(x) => x,
            None => {
                return Err(SnapshotError::UnexpectedShape { key: key.to_owned(), index: i });
            },
        };
        match json_as_u64(item) {
            Some(x) => out.push(x),
            None => {
                return Err(SnapshotError::UnexpectedShape { key: key.to_owned(), index: i });
            },
        }
        i += 1;
    }
    Ok(out)
}

/// Reads a JSON array of strings into a plain vector; fails on any
/// element that is not a string.
fn extract_strings(arr: &serde_json::Value, key: &str) -> (r: Result<Vec<String>, SnapshotError>)
    ensures
        match r {
            Ok(out) => strings_match(out@, *arr),
            Err(e) => {
                &&& strings_fail(*arr)
                &&& e matches SnapshotError::UnexpectedShape { key: k, index } && k@ == key@ && (
                (json_array_len_of(*arr) is None && index == 0) || (json_array_len_of(*arr)
                    is Some && index < json_array_len_of(*arr).unwrap() && string_at(
                    *arr,
                    index as int,
                ) is None))
            },
        },
{
    let len: usize = match json_array_len(arr) {
        Some(l) => l,
        None => {
            return Err(SnapshotError::UnexpectedShape { key: key.to_owned(), index: 0 });
        },
    };
    let mut out: Vec<String> = Vec::new();
    let mut i: usize = 0;
    while i < len
        invariant
            i <= len,
            json_array_len_of(*arr) == Some(len),
            out@.len() == i,
            forall|j: int| 0 <= j < i ==> (#[trigger] string_at(*arr, j)) == Some(out@[j]@),
        decreases len - i,
    {
        let item = match json_at(arr, i) {
            Some(x) => x,
            None => {
                return Err(SnapshotError::UnexpectedShape { key: key.to_owned(), index: i });
            },
        };
        match json_as_string(item) {
            Some(s) => out.push(s),
            None => {
                return Err(SnapshotError::UnexpectedShape { key: key.to_owned(), index: i });
            },
        }
        i += 1;
    }
    Ok(out)
}

/// Zips a JSON array of field names with the parallel array of type
/// descriptors into one schema field list. A descriptor is either an
/// array of labels or one of the supported tag names; anything else is
/// a fatal error.
fn extract_fields(
    names: &serde_json::Value,
    types: &serde_json::Value,
    key: &str,
) -> (r: Result<Vec<Field>, SnapshotError>)
    ensures
        match r {
            Ok(out) => {
                &&& fields_match(out@, *names, *types)
                &&& json_array_len_of(*types) is Some
            },
            Err(e) => match e {
                SnapshotError::UnexpectedShape { key: k, index: _ } => {
                    &&& k@ == key@
                    &&& fields_fail(*names, *types)
                },
                SnapshotError::UnsupportedTag { tag } => {
                    &&& json_array_len_of(*names) is Some
                    &&& unsupported_tag_in(
                        *types,
                        json_array_len_of(*names).unwrap() as int,
                        tag@,
                    )
                },
                _ => false,
            },
        },
{
    let len: usize = match json_array_len(names) {
        Some(l) => l,
        None => {
            return Err(SnapshotError::UnexpectedShape { key: key.to_owned(), index: 0 });
        },
    };
    let tlen: usize = match json_array_len(types) {
        Some(l) => l,
        None => {
            return Err(SnapshotError::UnexpectedShape { key: key.to_owned(), index: 0 });
        },
    };
    if tlen < len {
        return Err(SnapshotError::UnexpectedShape { key: key.to_owned(), index: tlen });
    }
    let mut out: Vec<Field> = Vec::new();
    let mut i: usize = 0;
    while i < len
        invariant
            i <= len,
            json_array_len_of(*names) == Some(len),
            json_array_len_of(*types) == Some(tlen),
            len <= tlen,
            out@.len() == i,
            forall|j: int| 0 <= j < i ==> field_matches(#[trigger] out@[j], *names, *types, j),
        decreases len - i,
    {
        let name_value = match json_at(names, i) {
            Some(x) => x,
            None => {
                proof {
                    assert(!field_ok(*names, *types, i as int));
                }
                return Err(SnapshotError::UnexpectedShape { key: key.to_owned(), index: i });
            },
        };
        let name = match json_as_string(name_value) {
            Some(s) => s,
            None => {
                proof {
                    assert(!field_ok(*names, *types, i as int));
                }
                return Err(SnapshotError::UnexpectedShape { key: key.to_owned(), index: i });
            },
        };
        let type_value = match json_at(types, i) {
            Some(x) => x,
            None => {
                proof {
                    assert(!field_ok(*names, *types, i as int));
                }
                return Err(SnapshotError::UnexpectedShape { key: key.to_owned(), index: i });
            },
        };
        let kind = if json_is_array(type_value) {
            let labels = match extract_strings(type_value, key) {
                Ok(ls) => ls,
                Err(e) => {
                    proof {
                        assert(!field_ok(*names, *types, i as int));
                    }
                    return Err(e);
                },
            };
            FieldKind::Labels(labels)
        } else {
            let tag = match json_as_string(type_value) {
                Some(s) => s,
                None => {
                    proof {
                        assert(!field_ok(*names, *types, i as int));
                    }
                    return Err(SnapshotError::UnexpectedShape { key: key.to_owned(), index: i });
                },
            };
            let ghost tag_view = tag@;
            match parse_tag(tag) {
                Ok(k) => k,
                Err(e) => {
                    proof {
                        assert(json_at_of(*types, i as int) is Some && !json_is_array_of(
                            json_at_of(*types, i as int).unwrap(),
                        ) && json_string_of(json_at_of(*types, i as int).unwrap()) == Some(
                            tag_view,
                        ) && field_kind_of_tag(tag_view) is None);
                    }
                    return Err(e);
                },
            }
        };
        out.push(Field { name, kind });
        i += 1;
    }
    Ok(out)
}

/// The value under a key, or the error naming the absent key.
fn get_required<'a>(v: &'a serde_json::Value, key: &str) -> (r: Result<
    &'a serde_json::Value,
    SnapshotError,
>)
    ensures
        match r {
            Ok(x) => json_get_of(*v, key@) == Some(*x),
            Err(e) => {
                &&& json_get_of(*v, key@) is None
                &&& e matches SnapshotError::MissingKey { key: k } && k@ == key@
            },
        },
{
    match json_get(v, key) {
        Some(x) => Ok(x),
        None => Err(SnapshotError::MissingKey { key: key.to_owned() }),
    }
}

/// `s` is exactly the snapshot that the document `v` describes: every
/// required key present, both schemas read field by field from the meta
/// arrays, and the four flat arrays read element by element.
pub open spec fn snapshot_matches(v: serde_json::Value, s: Snapshot) -> bool {
    &&& meta_entry_of(v, "node_fields"@) is Some
    &&& meta_entry_of(v, "node_types"@) is Some
    &&& meta_entry_of(v, "edge_fields"@) is Some
    &&& meta_entry_of(v, "edge_types"@) is Some
    &&& json_get_of(v, "nodes"@) is Some
    &&& json_get_of(v, "edges"@) is Some
    &&& json_get_of(v, "strings"@) is Some
    &&& json_get_of(v, "locations"@) is Some
    &&& fields_match(
        s.node_schema.fields@,
        meta_entry_of(v, "node_fields"@).unwrap(),
        meta_entry_of(v, "node_types"@).unwrap(),
    )
    &&& fields_match(
        s.edge_schema.fields@,
        meta_entry_of(v, "edge_fields"@).unwrap(),
        meta_entry_of(v, "edge_types"@).unwrap(),
    )
    &&& numbers_match(s.nodes@, json_get_of(v, "nodes"@).unwrap())
    &&& numbers_match(s.edges@, json_get_of(v, "edges"@).unwrap())
    &&& strings_match(s.strings@, json_get_of(v, "strings"@).unwrap())
    &&& numbers_match(s.locations@, json_get_of(v, "locations"@).unwrap())
}

/// The exact condition under which reading the document `v` reports
/// `e`: each error variant holds only of the malformed shape it names.
pub open spec fn snapshot_error_matches(v: serde_json::Value, e: SnapshotError) -> bool {
    match e {
        SnapshotError::Malformed => false,
        SnapshotError::MissingKey { key } => {
            ||| (key@ == "snapshot"@ && json_get_of(v, "snapshot"@) is None)
            ||| (key@ == "meta"@ && json_get_of(v, "snapshot"@) is Some && meta_of(v) is None)
            ||| ((key@ == "node_fields"@ || key@ == "node_types"@ || key@ == "edge_fields"@
                || key@ == "edge_types"@) && meta_of(v) is Some && meta_entry_of(v, key@) is None)
            ||| ((key@ == "nodes"@ || key@ == "edges"@ || key@ == "strings"@ || key@
                == "locations"@) && json_get_of(v, key@) is None)
        },
        SnapshotError::UnexpectedShape { key, index: _ } => {
            ||| (key@ == "node_fields"@ && meta_entry_of(v, "node_fields"@) is Some
                && meta_entry_of(v, "node_types"@) is Some && fields_fail(
                meta_entry_of(v, "node_fields"@).unwrap(),
                meta_entry_of(v, "node_types"@).unwrap(),
            ))
            ||| (key@ == "edge_fields"@ && meta_entry_of(v, "edge_fields"@) is Some
                && meta_entry_of(v, "edge_types"@) is Some && fields_fail(
                meta_entry_of(v, "edge_fields"@).unwrap(),
                meta_entry_of(v, "edge_types"@).unwrap(),
            ))
            ||| (key@ == "nodes"@ && json_get_of(v, "nodes"@) is Some && numbers_fail(
                json_get_of(v, "nodes"@).unwrap(),
            ))
            ||| (key@ == "edges"@ && json_get_of(v, "edges"@) is Some && numbers_fail(
                json_get_of(v, "edges"@).unwrap(),
            ))
            ||| (key@ == "strings"@ && json_get_of(v, "strings"@) is Some && strings_fail(
                json_get_of(v, "strings"@).unwrap(),
            ))
            ||| (key@ == "locations"@ && json_get_of(v, "locations"@) is Some && numbers_fail(
                json_get_of(v, "locations"@).unwrap(),
            ))
        },
        SnapshotError::UnsupportedTag { tag } => {
            ||| (meta_entry_of(v, "node_fields"@) is Some && meta_entry_of(v, "node_types"@)
                is Some && json_array_len_of(meta_entry_of(v, "node_fields"@).unwrap()) is Some
                && unsupported_tag_in(
                meta_entry_of(v, "node_types"@).unwrap(),
                json_array_len_of(meta_entry_of(v, "node_fields"@).unwrap()).unwrap() as int,
                tag@,
            ))
            ||| (meta_entry_of(v, "edge_fields"@) is Some && meta_entry_of(v, "edge_types"@)
                is Some && json_array_len_of(meta_entry_of(v, "edge_fields"@).unwrap()) is Some
                && unsupported_tag_in(
                meta_entry_of(v, "edge_types"@).unwrap(),
                json_array_len_of(meta_entry_of(v, "edge_fields"@).unwrap()).unwrap() as int,
                tag@,
            ))
        },
        SnapshotError::Schema(se) => match se {
            SchemaError::MissingField { name } => {
                ||| ((name@ == "id"@ || name@ == "name"@ || name@ == "type"@ || name@
                    == "self_size"@ || name@ == "edge_count"@) && meta_entry_of(
                    v,
                    "node_fields"@,
                ) is Some && name_absent(meta_entry_of(v, "node_fields"@).unwrap(), name@))
                ||| ((name@ == "to_node"@ || name@ == "type"@ || name@ == "name_or_index"@)
                    && meta_entry_of(v, "edge_fields"@) is Some && name_absent(
                    meta_entry_of(v, "edge_fields"@).unwrap(),
                    name@,
                ))
            },
        },
    }
}

/// Reads a parsed snapshot document into plain data: schemas resolved by
/// field name, flat arrays and the string table. Succeeds, with the
/// returned snapshot pinned to the document field by field, exactly when
/// every required key is present, both meta arrays form schemas that
/// carry the required field names, and the flat arrays hold numbers and
/// strings; each malformed shape is reported as the error variant that
/// names it.
pub fn extract_snapshot(v: &serde_json::Value) -> (r: Result<Snapshot, SnapshotError>)
    ensures
        match r {
            Ok(s) => s.wf() && snapshot_matches(*v, s),
            Err(e) => snapshot_error_matches(*v, e),
        },
{
    let snapshot = get_required(v, "snapshot")?;
    let meta = get_required(snapshot, "meta")?;
    let node_names = get_required(meta, "node_fields")?;
    let node_types = get_required(meta, "node_types")?;
    let edge_names = get_required(meta, "edge_fields")?;
    let edge_types = get_required(meta, "edge_types")?;
    let node_field_list = extract_fields(node_names, node_types, "node_fields")?;
    let edge_field_list = extract_fields(edge_names, edge_types, "edge_fields")?;
    let ghost node_fields_view = node_field_list@;
    let node_schema = match NodeSchema::resolve(node_field_list) {
        Ok(s) => s,
        Err(e) => {
            proof {
                lemma_resolve_name_absent(node_fields_view, *node_names, *node_types, e);
            }
            return Err(SnapshotError::Schema(e));
        },
    };
    let ghost edge_fields_view = edge_field_list@;
    let edge_schema = match EdgeSchema::resolve(edge_field_list) {
        Ok(s) => s,
        Err(e) => {
            proof {
                lemma_resolve_name_absent(edge_fields_view, *edge_names, *edge_types, e);
            }
            return Err(SnapshotError::Schema(e));
        },
    };
    let nodes = extract_numbers(get_required(v, "nodes")?, "nodes")?;
    let edges = extract_numbers(get_required(v, "edges")?, "edges")?;
    let strings = extract_strings(get_required(v, "strings")?, "strings")?;
    let locations = extract_numbers(get_required(v, "locations")?, "locations")?;
    Ok(Snapshot { node_schema, edge_schema, nodes, edges, strings, locations })
}

/// A field name that occurs in no field of a list that was read from a
/// name array occurs in no element of that array either.
proof fn lemma_resolve_name_absent(
    fs: Seq<Field>,
    names: serde_json::Value,
    types: serde_json::Value,
    e: SchemaError,
)
    requires
        fields_match(fs, names, types),
        e matches SchemaError::MissingField { name } && forall|j: int|
            0 <= j < fs.len() ==> (#[trigger] fs[j].name)@ != name@,
    ensures
        e matches SchemaError::MissingField { name } && name_absent(names, name@),
{
    let name = e->MissingField_name;
    assert forall|i: int|
        0 <= i < json_array_len_of(names).unwrap() implies (#[trigger] string_at(names, i))
        != Some(name@) by {
        assert(field_matches(fs[i], names, types, i));
        assert(string_at(names, i) == Some(fs[i].name@));
    }
}

/// Parses heap-snapshot text and reads it into plain snapshot data.
/// Fails with `Malformed` exactly when the text is not a JSON document;
/// otherwise behaves as `extract_snapshot` on the parsed tree.
pub fn parse_heap_json(text: &str) -> (r: Result<Snapshot, SnapshotError>)
    ensures
        match r {
            Ok(s) => {
                &&& s.wf()
                &&& json_parsed_of(text@) is Some
                &&& snapshot_matches(json_parsed_of(text@).unwrap(), s)
            },
            Err(e) => {
                ||| (e matches SnapshotError::Malformed && json_parsed_of(text@) is None)
                ||| (json_parsed_of(text@) is Some && snapshot_error_matches(
                    json_parsed_of(text@).unwrap(),
                    e,
                ))
            },
        },
{
    let v = match parse_json(text) {
        Some(v) => v,
        None => {
            return Err(SnapshotError::Malformed);
        },
    };
    extract_snapshot(&v)
}

} // verus!
