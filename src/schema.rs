//! Column descriptors, the mapping from declared column types to value kinds,
//! and record shapes.
use vstd::prelude::*;
use crate::text::{is_prefix, starts_with, text_eq, owned};

verus! {

/// The storage types that a column may declare.
#[derive(PartialEq, Eq, Structural, Clone, Copy, Debug)]
pub enum DeclaredType {
    Integer,
    Text,
    Float,
    Blob,
}

/// The nullability-aware in-memory representation of a column's value.
#[derive(PartialEq, Eq, Structural, Clone, Copy, Debug)]
pub enum ValueKind {
    Int64,
    OptionalInt64,
    Text,
    OptionalText,
    Float32,
    OptionalFloat32,
    Blob,
    OptionalBlob,
}

/// One column of a table, the implicit `id` column excluded.
#[derive(Clone, Debug)]
pub struct Column {
    pub name: String,
    pub declared_type: String,
    pub not_null: bool,
    pub foreign_key: Option<String>,
}

/// A user table and its columns in declaration order.
#[derive(Clone, Debug)]
pub struct TableSchema {
    pub name: String,
    pub columns: Vec<Column>,
}

/// What a record holds in one field.
#[derive(Clone, Debug)]
pub struct FieldDescriptor {
    pub name: String,
    pub kind: ValueKind,
    pub is_foreign_key: bool,
}

/// The field layout of one table's records, after the implicit `id`.
#[derive(Clone, Debug)]
pub struct RecordShape {
    pub table: String,
    pub fields: Vec<FieldDescriptor>,
}

/// Why a schema cannot be served.
#[derive(Clone, Debug)]
pub enum SchemaError {
    /// A column declares a type outside the supported set.
    UnsupportedType { table: String, column: String, declared: String },
    /// A table or column name is not a plain identifier.
    InvalidName { name: String },
    /// Two tables share a name.
    DuplicateTable { name: String },
}

pub open spec fn declared_type_of(s: Seq<char>) -> Option<DeclaredType> {
    if s == "INTEGER"@ {
        Some(DeclaredType::Integer)
    } else if s == "TEXT"@ {
        Some(DeclaredType::Text)
    } else if s == "FLOAT"@ {
        Some(DeclaredType::Float)
    } else if s == "BLOB"@ {
        Some(DeclaredType::Blob)
    } else {
        None
    }
}

pub open spec fn kind_for(t: DeclaredType, not_null: bool) -> ValueKind {
    match t {
        DeclaredType::Integer => if not_null { ValueKind::Int64 } else { ValueKind::OptionalInt64 },
        DeclaredType::Text => if not_null { ValueKind::Text } else { ValueKind::OptionalText },
        DeclaredType::Float => if not_null { ValueKind::Float32 } else { ValueKind::OptionalFloat32 },
        DeclaredType::Blob => if not_null { ValueKind::Blob } else { ValueKind::OptionalBlob },
    }
}

/// The value kind of a declared type and not-null flag; `None` for a type
/// outside the supported set.
pub open spec fn kind_of(declared: Seq<char>, not_null: bool) -> Option<ValueKind> {
    match declared_type_of(declared) {
        Some(t) => Some(kind_for(t, not_null)),
        None => None,
    }
}

/// Parses a declared column type.
pub fn parse_declared_type(s: &str) -> (r: Option<DeclaredType>)
    ensures
        r == declared_type_of(s@),
{
    proof {
        reveal_strlit("INTEGER");
        reveal_strlit("TEXT");
        reveal_strlit("FLOAT");
        reveal_strlit("BLOB");
    }
    if text_eq(s, "INTEGER") {
        Some(DeclaredType::Integer)
    } else if text_eq(s, "TEXT") {
        Some(DeclaredType::Text)
    } else if text_eq(s, "FLOAT") {
        Some(DeclaredType::Float)
    } else if text_eq(s, "BLOB") {
        Some(DeclaredType::Blob)
    } else {
        None
    }
}

/// Maps a declared column type and its not-null flag to a value kind.
pub fn map_type(declared: &str, not_null: bool) -> (r: Option<ValueKind>)
    ensures
        r == kind_of(declared@, not_null),
{
    match parse_declared_type(declared) {
        Some(t) => Some(
            match t {
                DeclaredType::Integer => if not_null { ValueKind::Int64 } else { ValueKind::OptionalInt64 },
                DeclaredType::Text => if not_null { ValueKind::Text } else { ValueKind::OptionalText },
                DeclaredType::Float => if not_null { ValueKind::Float32 } else { ValueKind::OptionalFloat32 },
                DeclaredType::Blob => if not_null { ValueKind::Blob } else { ValueKind::OptionalBlob },
            },
        ),
        None => None,
    }
}

/// Tables whose names start with a reserved catalog prefix are not user tables.
pub open spec fn is_user_table_name(name: Seq<char>) -> bool {
    !is_prefix("sqlite_"@, name) && !is_prefix("__"@, name)
}

/// Whether a catalog table is a user table, to be served.
pub fn is_user_table(name: &str) -> (r: bool)
    ensures
        r == is_user_table_name(name@),
{
    !starts_with(name, "sqlite_") && !starts_with(name, "__")
}

pub open spec fn is_ident_start(c: char) -> bool {
    ('a' <= c && c <= 'z') || ('A' <= c && c <= 'Z') || c == '_'
}

pub open spec fn is_ident_char(c: char) -> bool {
    is_ident_start(c) || ('0' <= c && c <= '9')
}

/// A plain identifier: safe as a URL path segment and as an SQL name.
pub open spec fn is_identifier(s: Seq<char>) -> bool {
    s.len() > 0 && is_ident_start(s[0]) && forall|i: int| 0 <= i < s.len() ==> is_ident_char(#[trigger] s[i])
}

/// Whether a name is a plain identifier.
pub fn identifier_ok(s: &str) -> (r: bool)
    ensures
        r == is_identifier(s@),
{
    let n = s.unicode_len();
    if n == 0 {
        return false;
    }
    let c0 = s.get_char(0);
    if !(('a' <= c0 && c0 <= 'z') || ('A' <= c0 && c0 <= 'Z') || c0 == '_') {
        return false;
    }
    let mut i: usize = 0;
    while i < n
        invariant
            n == s@.len(),
            i <= n,
            forall|k: int| 0 <= k < i ==> is_ident_char(#[trigger] s@[k]),
        decreases n - i,
    {
        let c = s.get_char(i);
        if !(('a' <= c && c <= 'z') || ('A' <= c && c <= 'Z') || c == '_' || ('0' <= c && c <= '9')) {
            return false;
        }
        i = i + 1;
    }
    true
}


/// Every column of the table declares a supported type.
pub open spec fn columns_supported(t: TableSchema) -> bool {
    forall|i: int| 0 <= i < t.columns@.len() ==> kind_of(#[trigger] t.columns@[i].declared_type@, t.columns@[i].not_null) is Some
}

/// `f` is the field descriptor of column `c`.
pub open spec fn describes(f: FieldDescriptor, c: Column) -> bool {
    &&& f.name@ == c.name@
    &&& kind_of(c.declared_type@, c.not_null) == Some(f.kind)
    &&& f.is_foreign_key == c.foreign_key is Some
}

/// `s` is the record shape of table `t`: one descriptor per column, in order.
pub open spec fn is_shape_of(s: RecordShape, t: TableSchema) -> bool {
    &&& s.table@ == t.name@
    &&& s.fields@.len() == t.columns@.len()
    &&& forall|i: int| 0 <= i < t.columns@.len() ==> describes(#[trigger] s.fields@[i], t.columns@[i])
}

/// `e` names column `i` of table `t` and its unsupported type.
pub open spec fn is_unsupported_at(e: SchemaError, t: TableSchema, i: int) -> bool {
    &&& 0 <= i < t.columns@.len()
    &&& kind_of(t.columns@[i].declared_type@, t.columns@[i].not_null) is None
    &&& e == (SchemaError::UnsupportedType {
        table: t.name,
        column: t.columns@[i].name,
        declared: t.columns@[i].declared_type,
    })
}

/// Builds the record shape of a table, mapping each column's type in order;
/// fails on the first column whose type is not supported.
pub fn build_record_shape(t: &TableSchema) -> (r: Result<RecordShape, SchemaError>)
    ensures
        r is Ok <==> columns_supported(*t),
        r matches Ok(s) ==> is_shape_of(s, *t),
        r matches Err(e) ==> exists|i: int| is_unsupported_at(e, *t, i),
{
    let mut fields: Vec<FieldDescriptor> = Vec::new();
    let mut i: usize = 0;
    while i < t.columns.len()
        invariant
            i <= t.columns@.len(),
            fields@.len() == i,
            forall|k: int| 0 <= k < i ==> describes(#[trigger] fields@[k], t.columns@[k]),
        decreases t.columns@.len() - i,
    {
        let c = &t.columns[i];
        match map_type(c.declared_type.as_str(), c.not_null) {
            Some(kind) => {
                fields.push(FieldDescriptor {
                    name: c.name.clone(),
                    kind,
                    is_foreign_key: c.foreign_key.is_some(),
                });
            },
            None => {
                let e = SchemaError::UnsupportedType {
                    table: t.name.clone(),
                    column: c.name.clone(),
                    declared: c.declared_type.clone(),
                };
                assert(is_unsupported_at(e, *t, i as int));
                return Err(e);
            },
        }
        i = i + 1;
    }
    let s = RecordShape { table: t.name.clone(), fields };
    assert(columns_supported(*t)) by {
        assert forall|k: int| 0 <= k < t.columns@.len() implies kind_of(
            #[trigger] t.columns@[k].declared_type@,
            t.columns@[k].not_null,
        ) is Some by {
            assert(describes(fields@[k], t.columns@[k]));
        }
    }
    Ok(s)
}

} // verus!
