//! The failure taxonomy of resolution: every error carries the names needed
//! to locate the offending place in the input description.

use vstd::prelude::*;

verus! {

/// A fatal resolution error. Any of these aborts the whole compilation run;
/// there is no partial or best-effort model.
#[derive(Debug, PartialEq, Eq)]
pub enum Error {
    /// A schema kind the model resolver has no rule for, under the named
    /// model; `kind` describes the offending shape.
    UnhandledKind { name: String, kind: String },
    /// An `allOf` branch whose inline schema is not an object; `kind`
    /// describes the offending shape.
    UnhandledAllOfType { name: String, kind: String },
    /// An array item schema the array resolver has no rule for; `kind`
    /// describes the offending element shape.
    UnhandledArrayType { name: String, kind: String },
    /// The array resolver was handed a schema that is not an array.
    NotAnArray { name: String },
    /// A pointer-style reference whose final path segment is empty.
    MalformedReference { reference: String },
    /// An `allOf` branch refers to a model that is not yet registered.
    UnresolvedReference { reference: String },
    /// A second model was registered under an already-present name.
    DuplicateModel { name: String },
    /// A second parameter was registered under an already-present type name.
    DuplicateParameter { name: String },
    /// A second operation was registered under an already-present name.
    DuplicateOperation { name: String },
    /// A second resource was registered under an already-present path.
    DuplicateResource { path: String },
    /// The same operation name was appended twice to one resource.
    DuplicateResourceOperation { operation: String, path: String },
    /// A path entry declares an operation without an operation identifier.
    MissingOperationId { path: String },
    /// A parameter bound to something other than the path or the query string.
    UnsupportedParameter { name: String },
    /// A parameter whose schema is given by reference instead of inline.
    ParameterSchemaReference { name: String },
    /// A parameter described by a content map instead of a schema.
    ParameterContent { name: String },
    /// An operation refers to a shared parameter that is not registered.
    UnresolvedParameter { reference: String },
    /// A construct given by reference where only inline data is supported.
    ReferenceNotImplemented { reference: String },
    /// A request body given by reference instead of an inline declaration.
    RequestBodyReference { path: String },
    /// A request body without an `application/json` content entry.
    MissingRequestJson { path: String },
    /// A success response without an `application/json` content entry.
    MissingResponseJson { path: String },
    /// A content entry without a schema.
    MissingContentSchema { path: String },
    /// A `oneOf` with more inline branches than the label alphabet has labels.
    LabelsExhausted { name: String },
    /// An array schema without an item schema.
    MissingArrayItems { name: String },
    /// A model that would set neither an alias type, nor an enumeration,
    /// nor any property: such a model is invalid.
    InvalidModel { name: String },
}

/// The mathematical image of an `Error`: the same taxonomy over character
/// sequences.
pub enum ErrorView {
    UnhandledKind { name: Seq<char>, kind: Seq<char> },
    UnhandledAllOfType { name: Seq<char>, kind: Seq<char> },
    UnhandledArrayType { name: Seq<char>, kind: Seq<char> },
    NotAnArray { name: Seq<char> },
    MalformedReference { reference: Seq<char> },
    UnresolvedReference { reference: Seq<char> },
    DuplicateModel { name: Seq<char> },
    DuplicateParameter { name: Seq<char> },
    DuplicateOperation { name: Seq<char> },
    DuplicateResource { path: Seq<char> },
    DuplicateResourceOperation { operation: Seq<char>, path: Seq<char> },
    MissingOperationId { path: Seq<char> },
    UnsupportedParameter { name: Seq<char> },
    ParameterSchemaReference { name: Seq<char> },
    ParameterContent { name: Seq<char> },
    UnresolvedParameter { reference: Seq<char> },
    ReferenceNotImplemented { reference: Seq<char> },
    RequestBodyReference { path: Seq<char> },
    MissingRequestJson { path: Seq<char> },
    MissingResponseJson { path: Seq<char> },
    MissingContentSchema { path: Seq<char> },
    LabelsExhausted { name: Seq<char> },
    MissingArrayItems { name: Seq<char> },
    InvalidModel { name: Seq<char> },
}

impl DeepView for Error {
    type V = ErrorView;

    open spec fn deep_view(&self) -> ErrorView {
        match self {
            Error::UnhandledKind { name, kind } => ErrorView::UnhandledKind {
                name: name@,
                kind: kind@,
            },
            Error::UnhandledAllOfType { name, kind } => ErrorView::UnhandledAllOfType {
                name: name@,
                kind: kind@,
            },
            Error::UnhandledArrayType { name, kind } => ErrorView::UnhandledArrayType {
                name: name@,
                kind: kind@,
            },
            Error::NotAnArray { name } => ErrorView::NotAnArray { name: name@ },
            Error::MalformedReference { reference } => ErrorView::MalformedReference {
                reference: reference@,
            },
            Error::UnresolvedReference { reference } => ErrorView::UnresolvedReference {
                reference: reference@,
            },
            Error::DuplicateModel { name } => ErrorView::DuplicateModel { name: name@ },
            Error::DuplicateParameter { name } => ErrorView::DuplicateParameter { name: name@ },
            Error::DuplicateOperation { name } => ErrorView::DuplicateOperation { name: name@ },
            Error::DuplicateResource { path } => ErrorView::DuplicateResource { path: path@ },
            Error::DuplicateResourceOperation { operation, path } => {
                ErrorView::DuplicateResourceOperation { operation: operation@, path: path@ }
            },
            Error::MissingOperationId { path } => ErrorView::MissingOperationId { path: path@ },
            Error::UnsupportedParameter { name } => ErrorView::UnsupportedParameter {
                name: name@,
            },
            Error::ParameterSchemaReference { name } => ErrorView::ParameterSchemaReference {
                name: name@,
            },
            Error::ParameterContent { name } => ErrorView::ParameterContent { name: name@ },
            Error::UnresolvedParameter { reference } => ErrorView::UnresolvedParameter {
                reference: reference@,
            },
            Error::ReferenceNotImplemented { reference } => ErrorView::ReferenceNotImplemented {
                reference: reference@,
            },
            Error::RequestBodyReference { path } => ErrorView::RequestBodyReference {
                path: path@,
            },
            Error::MissingRequestJson { path } => ErrorView::MissingRequestJson { path: path@ },
            Error::MissingResponseJson { path } => ErrorView::MissingResponseJson { path: path@ },
            Error::MissingContentSchema { path } => ErrorView::MissingContentSchema {
                path: path@,
            },
            Error::LabelsExhausted { name } => ErrorView::LabelsExhausted { name: name@ },
            Error::MissingArrayItems { name } => ErrorView::MissingArrayItems { name: name@ },
            Error::InvalidModel { name } => ErrorView::InvalidModel { name: name@ },
        }
    }
}

} // verus!
