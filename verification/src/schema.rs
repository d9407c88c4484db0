//! Field schemas: the ordered (name, kind) lists that say how one
//! fixed-width record of a flat value array is laid out, together with
//! the field offsets that the builders need, resolved once by name.

use vstd::prelude::*;
use crate::text::str_eq;

verus! {

/// How one positional field of a record is decoded.
#[derive(Debug, Clone, PartialEq, Eq)]
pub enum FieldKind {
    /// The raw value is an index into this ordered label list.
    Labels(Vec<String>),
    /// The raw value is an index into the snapshot's string table.
    StringRef,
    /// The raw value is kept as a plain number.
    Number,
    /// The raw value is a position inside the flat object array.
    NodeRef,
}

/// One positional field of a record: its name and its decode kind.
#[derive(Debug, Clone, PartialEq, Eq)]
pub struct Field {
    pub name: String,
    pub kind: FieldKind,
}

/// A required field name is absent from the supplied schema.
#[derive(Debug, Clone, PartialEq, Eq)]
pub enum SchemaError {
    MissingField { name: String },
}

/// The object-record schema, with the offsets of the fields the
/// builders read, resolved by name at schema-load time.
#[derive(Debug, Clone)]
pub struct NodeSchema {
    pub fields: Vec<Field>,
    pub id_offset: usize,
    pub name_offset: usize,
    pub type_offset: usize,
    pub self_size_offset: usize,
    pub count_offset: usize,
}

/// The reference-record schema, with the offsets of the fields the
/// builders read, resolved by name at schema-load time.
#[derive(Debug, Clone)]
pub struct EdgeSchema {
    pub fields: Vec<Field>,
    pub to_offset: usize,
    pub type_offset: usize,
    pub name_or_index_offset: usize,
}

impl NodeSchema {
    /// Width of one object record.
    pub open spec fn stride(&self) -> int {
        self.fields@.len() as int
    }

    /// Every resolved offset lies in the schema and names the field it
    /// was resolved from.
    pub open spec fn wf(&self) -> bool {
        &&& 0 < self.fields@.len()
        &&& self.id_offset < self.fields@.len()
        &&& self.fields@[self.id_offset as int].name@ == "id"@
        &&& self.name_offset < self.fields@.len()
        &&& self.fields@[self.name_offset as int].name@ == "name"@
        &&& self.type_offset < self.fields@.len()
        &&& self.fields@[self.type_offset as int].name@ == "type"@
        &&& self.self_size_offset < self.fields@.len()
        &&& self.fields@[self.self_size_offset as int].name@ == "self_size"@
        &&& self.count_offset < self.fields@.len()
        &&& self.fields@[self.count_offset as int].name@ == "edge_count"@
    }

    /// Looks the required object fields up by name, once, and records
    /// their offsets; reports the first required name that is absent.
    pub fn resolve(fields: Vec<Field>) -> (r: Result<NodeSchema, SchemaError>)
        ensures
            match r {
                Ok(s) => s.fields == fields && s.wf(),
                Err(e) => match e {
                    SchemaError::MissingField { name } => {
                        &&& (name@ == "id"@ || name@ == "name"@ || name@ == "type"@
                            || name@ == "self_size"@ || name@ == "edge_count"@)
                        &&& forall|j: int|
                            0 <= j < fields@.len() ==> (#[trigger] fields@[j].name)@ != name@
                    },
                },
            },
    {
        let id_offset = match find_field(&fields, "id") {
            Some(i) => i,
            None => {
                return Err(SchemaError::MissingField { name: "id".to_owned() });
            },
        };
        let name_offset = match find_field(&fields, "name") {
            Some(i) => i,
            None => {
                return Err(SchemaError::MissingField { name: "name".to_owned() });
            },
        };
        let type_offset = match find_field(&fields, "type") {
            Some(i) => i,
            None => {
                return Err(SchemaError::MissingField { name: "type".to_owned() });
            },
        };
        let self_size_offset = match find_field(&fields, "self_size") {
            Some(i) => i,
            None => {
                return Err(SchemaError::MissingField { name: "self_size".to_owned() });
            },
        };
        let count_offset = match find_field(&fields, "edge_count") {
            Some(i) => i,
            None => {
                return Err(SchemaError::MissingField { name: "edge_count".to_owned() });
            },
        };
        Ok(
            NodeSchema {
                fields,
                id_offset,
                name_offset,
                type_offset,
                self_size_offset,
                count_offset,
            },
        )
    }
}

impl EdgeSchema {
    /// Width of one reference record.
    pub open spec fn stride(&self) -> int {
        self.fields@.len() as int
    }

    /// Every resolved offset lies in the schema and names the field it
    /// was resolved from.
    pub open spec fn wf(&self) -> bool {
        &&& 0 < self.fields@.len()
        &&& self.to_offset < self.fields@.len()
        &&& self.fields@[self.to_offset as int].name@ == "to_node"@
        &&& self.type_offset < self.fields@.len()
        &&& self.fields@[self.type_offset as int].name@ == "type"@
        &&& self.name_or_index_offset < self.fields@.len()
        &&& self.fields@[self.name_or_index_offset as int].name@ == "name_or_index"@
    }

    /// Looks the required reference fields up by name, once, and records
    /// their offsets; reports the first required name that is absent.
    pub fn resolve(fields: Vec<Field>) -> (r: Result<EdgeSchema, SchemaError>)
        ensures
            match r {
                Ok(s) => s.fields == fields && s.wf(),
                Err(e) => match e {
                    SchemaError::MissingField { name } => {
                        &&& (name@ == "to_node"@ || name@ == "type"@ || name@ == "name_or_index"@)
                        &&& forall|j: int|
                            0 <= j < fields@.len() ==> (#[trigger] fields@[j].name)@ != name@
                    },
                },
            },
    {
        let to_offset = match find_field(&fields, "to_node") {
            Some(i) => i,
            None => {
                return Err(SchemaError::MissingField { name: "to_node".to_owned() });
            },
        };
        let type_offset = match find_field(&fields, "type") {
            Some(i) => i,
            None => {
                return Err(SchemaError::MissingField { name: "type".to_owned() });
            },
        };
        let name_or_index_offset = match find_field(&fields, "name_or_index") {
            Some(i) => i,
            None => {
                return Err(SchemaError::MissingField { name: "name_or_index".to_owned() });
            },
        };
        Ok(EdgeSchema { fields, to_offset, type_offset, name_or_index_offset })
    }
}

/// Least index of the field with the given name, if any.
pub fn find_field(fields: &Vec<Field>, name: &str) -> (r: Option<usize>)
    ensures
        match r {
            Some(i) => {
                &&& i < fields@.len()
                &&& fields@[i as int].name@ == name@
                &&& forall|j: int| 0 <= j < i ==> (#[trigger] fields@[j].name)@ != name@
            },
            None => forall|j: int|
                0 <= j < fields@.len() ==> (#[trigger] fields@[j].name)@ != name@,
        },
{
    let mut i: usize = 0;
    while i < fields.len()
        invariant
            i <= fields@.len(),
            forall|j: int| 0 <= j < i ==> (#[trigger] fields@[j].name)@ != name@,
        decreases fields@.len() - i,
    {
        if str_eq(fields[i].name.as_str(), name) {
            return Some(i);
        }
        i += 1;
    }
    None
}

} // verus!
