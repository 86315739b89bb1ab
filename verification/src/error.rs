//! Why a conversion failed, and where in the input.

use vstd::prelude::*;

verus! {

/// The ways in which a conversion fails.
#[derive(Debug, PartialEq, Eq)]
pub enum ErrorKind {
    /// A named type that the environment does not declare.
    UnknownType(String),
    /// A named type that leads back to itself before anything of the document is used up.
    CyclicType(String),
    /// A document of a kind that the type has no use for.
    TypeMismatch,
    /// A number beyond what the type holds.
    OutOfRange,
    /// A record field that is not optional and that the document lacks.
    MissingField(String),
    /// A key that names no field of the record, where such keys are rejected.
    UnexpectedField(String),
    /// A key that names no alternative of the variant.
    UnknownVariant(String),
    /// An argument list that is no list, or not of the declared length.
    ArityMismatch { expected: usize, found: Option<usize> },
    /// An interface without an init clause, or without a service.
    NoInitArgs,
    /// No type was given where one is needed.
    TypeRequired,
}

/// An `ErrorKind` as a mathematical value.
pub enum ErrorKindModel {
    UnknownType(Seq<char>),
    CyclicType(Seq<char>),
    TypeMismatch,
    OutOfRange,
    MissingField(Seq<char>),
    UnexpectedField(Seq<char>),
    UnknownVariant(Seq<char>),
    ArityMismatch { expected: usize, found: Option<usize> },
    NoInitArgs,
    TypeRequired,
}

impl View for ErrorKind {
    type V = ErrorKindModel;

    open spec fn view(&self) -> ErrorKindModel {
        match self {
            ErrorKind::UnknownType(name) => ErrorKindModel::UnknownType(name@),
            ErrorKind::CyclicType(name) => ErrorKindModel::CyclicType(name@),
            ErrorKind::TypeMismatch => ErrorKindModel::TypeMismatch,
            ErrorKind::OutOfRange => ErrorKindModel::OutOfRange,
            ErrorKind::MissingField(key) => ErrorKindModel::MissingField(key@),
            ErrorKind::UnexpectedField(key) => ErrorKindModel::UnexpectedField(key@),
            ErrorKind::UnknownVariant(key) => ErrorKindModel::UnknownVariant(key@),
            ErrorKind::ArityMismatch { expected, found } => ErrorKindModel::ArityMismatch {
                expected: *expected,
                found: *found,
            },
            ErrorKind::NoInitArgs => ErrorKindModel::NoInitArgs,
            ErrorKind::TypeRequired => ErrorKindModel::TypeRequired,
        }
    }
}

/// One step from a document into a part of it.
#[derive(Debug, PartialEq, Eq)]
pub enum Step {
    /// Into the value of a record field, by its key.
    Field(String),
    /// Into the payload of a variant, by its key.
    Alternative(String),
    /// Into an element of a list, by its index.
    Element(usize),
    /// Into an argument of an argument list, by its index.
    Argument(usize),
}

/// A `Step` as a mathematical value.
pub enum StepModel {
    Field(Seq<char>),
    Alternative(Seq<char>),
    Element(usize),
    Argument(usize),
}

impl View for Step {
    type V = StepModel;

    open spec fn view(&self) -> StepModel {
        match self {
            Step::Field(key) => StepModel::Field(key@),
            Step::Alternative(key) => StepModel::Alternative(key@),
            Step::Element(index) => StepModel::Element(*index),
            Step::Argument(index) => StepModel::Argument(*index),
        }
    }
}

/// A failed conversion: what went wrong, and the steps that lead from the place where it did
/// out to the whole input, the innermost step first. An empty path is a failure of the input as
/// a whole.
#[derive(Debug, PartialEq, Eq)]
pub struct ConversionError {
    pub kind: ErrorKind,
    pub path: Vec<Step>,
}

/// A `ConversionError` as a mathematical value.
pub struct ErrorModel {
    pub kind: ErrorKindModel,
    pub path: Seq<StepModel>,
}

impl View for ConversionError {
    type V = ErrorModel;

    open spec fn view(&self) -> ErrorModel {
        ErrorModel { kind: self.kind@, path: self.path@.map_values(|step: Step| step@) }
    }
}

/// A failure of the input as a whole.
pub open spec fn failure(kind: ErrorKindModel) -> ErrorModel {
    ErrorModel { kind, path: Seq::empty() }
}

/// The failure `error` of a part, seen from the whole that the part is one `step` into.
pub open spec fn within(error: ErrorModel, step: StepModel) -> ErrorModel {
    ErrorModel { kind: error.kind, path: error.path.push(step) }
}

impl ConversionError {
    /// A failure of the input as a whole.
    pub fn new(kind: ErrorKind) -> (error: ConversionError)
        ensures
            error@ == failure(kind@),
    {
        let error = ConversionError { kind, path: Vec::new() };
        assert(error@.path =~= Seq::empty());
        error
    }

    /// Puts one more step between the failure and the whole input.
    pub fn within(self, step: Step) -> (error: ConversionError)
        ensures
            error@ == within(self@, step@),
    {
        let mut path = self.path;
        path.push(step);
        let error = ConversionError { kind: self.kind, path };
        assert(error@.path =~= self@.path.push(step@));
        error
    }
}

} // verus!
