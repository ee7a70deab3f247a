//! Failures reported by the encoder.

use crate::columnar::{ColumnModel, ColumnarValue};
use crate::value::{values_model, Record, Value, ValueModel};
use vstd::prelude::*;

verus! {

/// Why an instance could not be encoded. Each failure names what triggered it.
#[derive(Debug, PartialEq, Eq)]
pub enum EncodeError {
    /// The registry holds no such message type.
    UnknownMessageType { package: String, message_name: String },
    /// The instance has a column that the message type does not declare.
    UnknownField { column: String },
    /// The struct value has no row.
    EmptyInput,
    /// The struct value has more than one row.
    MultipleInstances { rows: usize },
    /// The array given for a member is of another kind than the member's type.
    TypeMismatch { field: String },
    /// The member refers to a type outside the `msg` namespace.
    UnsupportedNamespace { field: String },
    /// The member is a wide-character string.
    NotImplemented { field: String },
    /// No default can be made for the member: it refers to a message type that the
    /// registry does not hold.
    NoDefaultAvailable { field: String },
    /// A fixed array of the wrong length, or a bounded sequence or string over its bound.
    BoundViolation { field: String },
    /// Message types nest deeper than the encoder follows them, as they do when a type
    /// contains itself.
    CyclicType { package: String, message_name: String },
}

/// The view of an [`EncodeError`].
pub enum ErrorModel {
    UnknownMessageType { package: Seq<char>, message_name: Seq<char> },
    UnknownField { column: Seq<char> },
    EmptyInput,
    MultipleInstances { rows: nat },
    TypeMismatch { field: Seq<char> },
    UnsupportedNamespace { field: Seq<char> },
    NotImplemented { field: Seq<char> },
    NoDefaultAvailable { field: Seq<char> },
    BoundViolation { field: Seq<char> },
    CyclicType { package: Seq<char>, message_name: Seq<char> },
}

impl View for EncodeError {
    type V = ErrorModel;

    open spec fn view(&self) -> ErrorModel {
        match self {
            EncodeError::UnknownMessageType { package, message_name } => {
                ErrorModel::UnknownMessageType { package: package@, message_name: message_name@ }
            },
            EncodeError::UnknownField { column } => ErrorModel::UnknownField { column: column@ },
            EncodeError::EmptyInput => ErrorModel::EmptyInput,
            EncodeError::MultipleInstances { rows } => ErrorModel::MultipleInstances {
                rows: *rows as nat,
            },
            EncodeError::TypeMismatch { field } => ErrorModel::TypeMismatch { field: field@ },
            EncodeError::UnsupportedNamespace { field } => ErrorModel::UnsupportedNamespace {
                field: field@,
            },
            EncodeError::NotImplemented { field } => ErrorModel::NotImplemented { field: field@ },
            EncodeError::NoDefaultAvailable { field } => ErrorModel::NoDefaultAvailable {
                field: field@,
            },
            EncodeError::BoundViolation { field } => ErrorModel::BoundViolation { field: field@ },
            EncodeError::CyclicType { package, message_name } => ErrorModel::CyclicType {
                package: package@,
                message_name: message_name@,
            },
        }
    }
}

/// What an attempt to encode a value came to.
pub open spec fn value_outcome(outcome: Result<Value, EncodeError>) -> Result<
    ValueModel,
    ErrorModel,
> {
    match outcome {
        Ok(value) => Ok(value@),
        Err(error) => Err(error@),
    }
}

/// What an attempt to encode several values came to.
pub open spec fn values_outcome(outcome: Result<Vec<Value>, EncodeError>) -> Result<
    Seq<ValueModel>,
    ErrorModel,
> {
    match outcome {
        Ok(values) => Ok(values_model(&values)),
        Err(error) => Err(error@),
    }
}

/// What an attempt to encode a message came to.
pub open spec fn record_outcome(outcome: Result<Record, EncodeError>) -> Result<
    Seq<ValueModel>,
    ErrorModel,
> {
    match outcome {
        Ok(record) => Ok(record@),
        Err(error) => Err(error@),
    }
}

/// What an attempt to make a default came to.
pub open spec fn column_outcome(outcome: Result<ColumnarValue, EncodeError>) -> Result<
    ColumnModel,
    ErrorModel,
> {
    match outcome {
        Ok(column) => Ok(column@),
        Err(error) => Err(error@),
    }
}

} // verus!
