//! The error taxonomy of the library. Every failure is reported synchronously
//! as a typed value; nothing is swallowed and nothing retries.

use vstd::prelude::*;

verus! {

/// Abstract value of a [`ProtoError`], with every string payload taken to its
/// character sequence.
pub enum ErrorView {
    MissingField(Seq<char>),
    UnrecognizedField(Seq<char>),
    DuplicateComponent(Seq<char>),
    UnknownTemplate(Seq<char>),
    CyclicTemplateReference(Seq<Seq<char>>),
    UnknownComponentType(Seq<char>),
    MalformedFieldData(Seq<char>),
}

/// A failure detected while building, resolving, serializing or deserializing
/// prototype data.
#[derive(Debug, Clone, PartialEq, Eq)]
pub enum ProtoError {
    /// A required key was absent from a prototype document.
    MissingField(String),
    /// A prototype document held a key that is not part of the format.
    UnrecognizedField(String),
    /// A second component of an already-present type identifier was offered
    /// to a component list.
    DuplicateComponent(String),
    /// A template name did not resolve to any known prototype.
    UnknownTemplate(String),
    /// Template references formed a cycle; the payload is the chain of
    /// prototype names that closed it.
    CyclicTemplateReference(Vec<String>),
    /// A component document announced a type identifier that the registry
    /// does not know.
    UnknownComponentType(String),
    /// The field data of a document did not have the shape its context
    /// requires; the payload names that context.
    MalformedFieldData(String),
}

impl View for ProtoError {
    type V = ErrorView;

    open spec fn view(&self) -> ErrorView {
        match self {
            ProtoError::MissingField(s) => ErrorView::MissingField(s@),
            ProtoError::UnrecognizedField(s) => ErrorView::UnrecognizedField(s@),
            ProtoError::DuplicateComponent(s) => ErrorView::DuplicateComponent(s@),
            ProtoError::UnknownTemplate(s) => ErrorView::UnknownTemplate(s@),
            ProtoError::CyclicTemplateReference(p) => ErrorView::CyclicTemplateReference(
                p.deep_view(),
            ),
            ProtoError::UnknownComponentType(s) => ErrorView::UnknownComponentType(s@),
            ProtoError::MalformedFieldData(s) => ErrorView::MalformedFieldData(s@),
        }
    }
}

} // verus!
