//! Record values, the decoding of submitted forms into them, and the
//! statements that write and delete records.
use vstd::prelude::*;
use crate::numbers::{integer_of, in_i64_range, parse_i64};
use crate::schema::{FieldDescriptor, RecordShape, TableSchema, ValueKind};
use crate::sql::{delete_sql, delete_text, insert_sql, insert_text, update_sql, update_text};
use crate::text::{owned, text_eq};

verus! {

/// The id that a submission carries to ask for a new record.
pub const NEW_RECORD_ID: i64 = -1;

/// The text that stands for an absent value of a nullable field.
pub const NULL_TEXT: &'static str = "_AX_NULL";

/// One field value of a record. A single-precision float travels as its
/// decimal text.
#[derive(Debug)]
pub enum Value {
    Null,
    Int(i64),
    Text(String),
    Real(String),
    Bytes(Vec<u8>),
}

/// What a value holds.
pub enum ValueView {
    Null,
    Int(int),
    Text(Seq<char>),
    Real(Seq<char>),
    Bytes(Seq<u8>),
}

impl View for Value {
    type V = ValueView;

    open spec fn view(&self) -> ValueView {
        match self {
            Value::Null => ValueView::Null,
            Value::Int(i) => ValueView::Int(*i as int),
            Value::Text(s) => ValueView::Text(s@),
            Value::Real(s) => ValueView::Real(s@),
            Value::Bytes(b) => ValueView::Bytes(b@),
        }
    }
}

pub open spec fn value_views(v: Seq<Value>) -> Seq<ValueView> {
    v.map_values(|x: Value| x@)
}

/// A record: its id, and one value per field of its shape, in order.
#[derive(Debug)]
pub struct Record {
    pub id: i64,
    pub values: Vec<Value>,
}

/// A statement's text and the values bound to its placeholders, in order.
#[derive(Debug)]
pub struct Statement {
    pub sql: String,
    pub params: Vec<Value>,
}

/// Why a submitted form does not fit a record shape.
#[derive(Clone, Debug, PartialEq, Eq)]
pub enum FormError {
    /// A field that has to be given is not in the form.
    Missing { field: String },
    /// An integer field holds text that is not a 64-bit integer.
    BadInteger { field: String },
    /// A binary field cannot be edited through a form.
    BinaryField { field: String },
}

/// The first value given for `key` among the form's pairs.
pub open spec fn form_value(form: Seq<(String, String)>, key: Seq<char>) -> Option<Seq<char>>
    decreases form.len(),
{
    if form.len() == 0 {
        None
    } else if form[0].0@ == key {
        Some(form[0].1@)
    } else {
        form_value(form.drop_first(), key)
    }
}

pub open spec fn is_null_text(s: Seq<char>) -> bool {
    s == "_AX_NULL"@
}

/// The value that a raw form entry gives a field of kind `kind`, or `None`
/// where the entry does not fit.
pub open spec fn decoded_value(kind: ValueKind, raw: Option<Seq<char>>) -> Option<ValueView> {
    let absent = raw is None || is_null_text(raw->0);
    match kind {
        ValueKind::Int64 => match raw {
            Some(s) => match integer_of(s) {
                Some(v) => if in_i64_range(v) { Some(ValueView::Int(v)) } else { None },
                None => None,
            },
            None => None,
        },
        ValueKind::OptionalInt64 => if absent { Some(ValueView::Null) } else {
            match integer_of(raw->0) {
                Some(v) => if in_i64_range(v) { Some(ValueView::Int(v)) } else { None },
                None => None,
            }
        },
        ValueKind::Text => match raw {
            Some(s) => Some(ValueView::Text(s)),
            None => None,
        },
        ValueKind::OptionalText => if absent { Some(ValueView::Null) } else { Some(ValueView::Text(raw->0)) },
        ValueKind::Float32 => match raw {
            Some(s) => Some(ValueView::Real(s)),
            None => None,
        },
        ValueKind::OptionalFloat32 => if absent { Some(ValueView::Null) } else { Some(ValueView::Real(raw->0)) },
        ValueKind::Blob => None,
        ValueKind::OptionalBlob => if absent { Some(ValueView::Null) } else { None },
    }
}

/// Every field of the shape decodes from the form.
pub open spec fn form_fits(shape: RecordShape, form: Seq<(String, String)>) -> bool {
    &&& form_value(form, "id"@) matches Some(s) && integer_of(s) matches Some(v) && in_i64_range(v)
    &&& forall|i: int| 0 <= i < shape.fields@.len()
        ==> decoded_value(shape.fields@[i].kind, form_value(form, #[trigger] shape.fields@[i].name@)) is Some
}

/// The first value given for `key` among the form's pairs.
pub fn lookup<'a>(form: &'a Vec<(String, String)>, key: &str) -> (r: Option<&'a String>)
    ensures
        match form_value(form@, key@) {
            Some(s) => r matches Some(v) && v@ == s,
            None => r is None,
        },
{
    let mut i: usize = 0;
    assert(form@.subrange(0, form@.len() as int) =~= form@);
    while i < form.len()
        invariant
            i <= form@.len(),
            form_value(form@, key@) == form_value(form@.subrange(i as int, form@.len() as int), key@),
        decreases form@.len() - i,
    {
        let ghost rest = form@.subrange(i as int, form@.len() as int);
        assert(rest.drop_first() =~= form@.subrange(i + 1, form@.len() as int));
        if text_eq(form[i].0.as_str(), key) {
            return Some(&form[i].1);
        }
        i = i + 1;
    }
    None
}

/// Decodes the raw form entry of one field.
fn decode_field(f: &FieldDescriptor, raw: Option<&String>) -> (r: Result<Value, FormError>)
    ensures
        match decoded_value(f.kind, match raw { Some(s) => Some(s@), None => None }) {
            Some(v) => r matches Ok(x) && x@ == v,
            None => r is Err,
        },
{
    proof {
        reveal_strlit("_AX_NULL");
    }
    let absent = match raw {
        Some(s) => text_eq(s.as_str(), NULL_TEXT),
        None => true,
    };
    match f.kind {
        ValueKind::Int64 | ValueKind::OptionalInt64 => {
            if absent && f.kind == ValueKind::OptionalInt64 {
                return Ok(Value::Null);
            }
            match raw {
                Some(s) => match parse_i64(s.as_str()) {
                    Some(v) => Ok(Value::Int(v)),
                    None => Err(FormError::BadInteger { field: f.name.clone() }),
                },
                None => Err(FormError::Missing { field: f.name.clone() }),
            }
        },
        ValueKind::Text | ValueKind::OptionalText => {
            if absent && f.kind == ValueKind::OptionalText {
                return Ok(Value::Null);
            }
            match raw {
                Some(s) => Ok(Value::Text(s.clone())),
                None => Err(FormError::Missing { field: f.name.clone() }),
            }
        },
        ValueKind::Float32 | ValueKind::OptionalFloat32 => {
            if absent && f.kind == ValueKind::OptionalFloat32 {
                return Ok(Value::Null);
            }
            match raw {
                Some(s) => Ok(Value::Real(s.clone())),
                None => Err(FormError::Missing { field: f.name.clone() }),
            }
        },
        ValueKind::Blob | ValueKind::OptionalBlob => {
            if absent && f.kind == ValueKind::OptionalBlob {
                return Ok(Value::Null);
            }
            Err(FormError::BinaryField { field: f.name.clone() })
        },
    }
}

/// Reads the `id` entry of a submitted form.
pub fn decode_id(form: &Vec<(String, String)>) -> (r: Result<i64, FormError>)
    ensures
        match form_value(form@, "id"@) {
            Some(s) => match r {
                Ok(id) => integer_of(s) == Some(id as int),
                Err(e) => !(integer_of(s) matches Some(v) && in_i64_range(v)) && (e matches FormError::BadInteger { field } && field@ == "id"@),
            },
            None => r matches Err(FormError::Missing { field }) && field@ == "id"@,
        },
{
    proof {
        reveal_strlit("id");
    }
    match lookup(form, "id") {
        Some(s) => match parse_i64(s.as_str()) {
            Some(v) => Ok(v),
            None => Err(FormError::BadInteger { field: owned("id") }),
        },
        None => Err(FormError::Missing { field: owned("id") }),
    }
}

/// Decodes a submitted form into a record of the shape: the `id` entry and,
/// for each field in order, its entry read by the field's kind. A nullable
/// field that is absent or holds the null text is null.
pub fn decode_submission(shape: &RecordShape, form: &Vec<(String, String)>) -> (r: Result<Record, FormError>)
    ensures
        r is Ok <==> form_fits(*shape, form@),
        r matches Ok(sub) ==> {
            &&& form_value(form@, "id"@) matches Some(s) && integer_of(s) == Some(sub.id as int)
            &&& sub.values@.len() == shape.fields@.len()
            &&& forall|i: int| 0 <= i < shape.fields@.len()
                ==> decoded_value(shape.fields@[i].kind, form_value(form@, shape.fields@[i].name@))
                    == Some(#[trigger] sub.values@[i]@)
        },
{
    let id = match decode_id(form) {
        Ok(v) => v,
        Err(e) => {
            return Err(e);
        },
    };
    let mut values: Vec<Value> = Vec::new();
    let mut i: usize = 0;
    while i < shape.fields.len()
        invariant
            i <= shape.fields@.len(),
            values@.len() == i,
            forall|k: int| 0 <= k < i
                ==> decoded_value(shape.fields@[k].kind, form_value(form@, shape.fields@[k].name@))
                    == Some(#[trigger] values@[k]@),
        decreases shape.fields@.len() - i,
    {
        let f = &shape.fields[i];
        match decode_field(f, lookup(form, f.name.as_str())) {
            Ok(v) => {
                values.push(v);
            },
            Err(e) => {
                assert(decoded_value(shape.fields@[i as int].kind, form_value(form@, shape.fields@[i as int].name@)) is None);
                return Err(e);
            },
        }
        i = i + 1;
    }
    assert forall|k: int| 0 <= k < shape.fields@.len() implies decoded_value(
        shape.fields@[k].kind,
        form_value(form@, #[trigger] shape.fields@[k].name@),
    ) is Some by {
        assert(decoded_value(shape.fields@[k].kind, form_value(form@, shape.fields@[k].name@)) == Some(values@[k]@));
    }
    Ok(Record { id, values })
}

/// The statement that stores a submission: an insert of its values where the
/// id is the new-record id, else an update of the record with that id, its
/// values followed by the id.
pub fn write_statement(t: &TableSchema, sub: Record) -> (r: Statement)
    ensures
        sub.id == NEW_RECORD_ID ==> r.sql@ == insert_text(*t) && value_views(r.params@) == value_views(sub.values@),
        sub.id != NEW_RECORD_ID ==> r.sql@ == update_text(*t)
            && value_views(r.params@) == value_views(sub.values@).push(ValueView::Int(sub.id as int)),
{
    let Record { id, values } = sub;
    if id == NEW_RECORD_ID {
        Statement { sql: insert_sql(t), params: values }
    } else {
        let mut params = values;
        let ghost before = params@;
        params.push(Value::Int(id));
        assert(value_views(params@) =~= value_views(before).push(ValueView::Int(id as int)));
        Statement { sql: update_sql(t), params }
    }
}

/// The statement that deletes the record with id `id`.
pub fn delete_statement(t: &TableSchema, id: i64) -> (r: Statement)
    ensures
        r.sql@ == delete_text(*t),
        value_views(r.params@) == seq![ValueView::Int(id as int)],
{
    let mut params: Vec<Value> = Vec::new();
    params.push(Value::Int(id));
    assert(value_views(params@) =~= seq![ValueView::Int(id as int)]);
    Statement { sql: delete_sql(t), params }
}

} // verus!
