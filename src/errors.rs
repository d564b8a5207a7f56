use vstd::prelude::*;

verus! {

/// The value types a field can hold, as named in error reports.
#[derive(PartialEq, Eq, Structural, Clone, Copy, Debug)]
pub enum ValueKind {
    Str,
    U64,
    I64,
    F64,
    Bool,
    Date,
    Facet,
    Bytes,
    Json,
    IpAddr,
}

/// Why a query cannot be compiled against a schema.
#[derive(Debug)]
pub enum InvalidQuery {
    /// The path names no field, and no catch-all field takes it, or a field
    /// that is not a JSON object is given a sub-path.
    FieldDoesNotExist { full_path: String },
    /// The path names the root of a JSON object field, which cannot be
    /// searched as a whole.
    JsonFieldRootNotSearchable { full_path: String },
    /// A search value cannot be read as the field's type.
    InvalidSearchTerm { expected_value_type: ValueKind, field_name: String, value: String },
    /// A range bound cannot be read as the field's type.
    InvalidBoundary { expected_value_type: ValueKind, field_name: String },
    /// A range query targets a field that is not fast.
    SchemaError { field_name: String },
    /// A range query targets a field whose type has no order.
    RangeQueryNotSupportedForField { value_type: ValueKind, field_name: String },
    /// The query targets a field of a type it cannot be run on.
    UnsupportedFieldType { value_type: ValueKind, field_name: String },
    /// A free-text node reached the compiler before it was parsed.
    UserQueryNotParsed,
}

/// The mathematical content of an [`InvalidQuery`].
pub enum QueryError {
    FieldDoesNotExist { full_path: Seq<char> },
    JsonFieldRootNotSearchable { full_path: Seq<char> },
    InvalidSearchTerm { expected_value_type: ValueKind, field_name: Seq<char>, value: Seq<char> },
    InvalidBoundary { expected_value_type: ValueKind, field_name: Seq<char> },
    SchemaError { field_name: Seq<char> },
    RangeQueryNotSupportedForField { value_type: ValueKind, field_name: Seq<char> },
    UnsupportedFieldType { value_type: ValueKind, field_name: Seq<char> },
    UserQueryNotParsed,
}

impl View for InvalidQuery {
    type V = QueryError;

    open spec fn view(&self) -> QueryError {
        match self {
            InvalidQuery::FieldDoesNotExist { full_path } => QueryError::FieldDoesNotExist {
                full_path: full_path@,
            },
            InvalidQuery::JsonFieldRootNotSearchable { full_path } =>
                QueryError::JsonFieldRootNotSearchable { full_path: full_path@ },
            InvalidQuery::InvalidSearchTerm { expected_value_type, field_name, value } =>
                QueryError::InvalidSearchTerm {
                expected_value_type: *expected_value_type,
                field_name: field_name@,
                value: value@,
            },
            InvalidQuery::InvalidBoundary { expected_value_type, field_name } =>
                QueryError::InvalidBoundary {
                expected_value_type: *expected_value_type,
                field_name: field_name@,
            },
            InvalidQuery::SchemaError { field_name } => QueryError::SchemaError {
                field_name: field_name@,
            },
            InvalidQuery::RangeQueryNotSupportedForField { value_type, field_name } =>
                QueryError::RangeQueryNotSupportedForField {
                value_type: *value_type,
                field_name: field_name@,
            },
            InvalidQuery::UnsupportedFieldType { value_type, field_name } =>
                QueryError::UnsupportedFieldType { value_type: *value_type, field_name: field_name@ },
            InvalidQuery::UserQueryNotParsed => QueryError::UserQueryNotParsed,
        }
    }
}

} // verus!
