//! The failures this library decides on its own: decoding faults and
//! cardinality faults. Transport faults never reach this layer; the caller
//! that owns the channel reports them unchanged.

use vstd::prelude::*;

verus! {

/// Why an operation on the typed document layer failed.
#[derive(Debug, Clone, Copy, PartialEq, Eq, Structural)]
pub enum DbError {
    /// A server-returned byte buffer did not parse as a document.
    MalformedDocument,
    /// A decoded document carries no identifier field of the expected shape.
    MissingIdentifier,
    /// A decoded document does not hold the fields the payload type asks for.
    PayloadMismatch,
    /// An insert response item came without a document body.
    MissingBody,
    /// The server reported that nothing was inserted.
    NothingInserted,
    /// The server accepted an insert but returned no document.
    NoDocumentReturned,
    /// A delete did not remove exactly one record.
    NoDocumentRemoved,
}

impl DbError {
    /// The message the failure carries, one per variant.
    pub open spec fn spec_message(self) -> Seq<char> {
        match self {
            DbError::MalformedDocument => "malformed document."@,
            DbError::MissingIdentifier => "no id."@,
            DbError::PayloadMismatch => "document does not match the payload type."@,
            DbError::MissingBody => "document data missing."@,
            DbError::NothingInserted => "no documents inserted."@,
            DbError::NoDocumentReturned => "no document returned"@,
            DbError::NoDocumentRemoved => "no document was removed."@,
        }
    }

    /// A short description of the failure.
    pub fn message(&self) -> (r: &'static str)
        ensures
            r@ == self.spec_message(),
    {
        match self {
            DbError::MalformedDocument => "malformed document.",
            DbError::MissingIdentifier => "no id.",
            DbError::PayloadMismatch => "document does not match the payload type.",
            DbError::MissingBody => "document data missing.",
            DbError::NothingInserted => "no documents inserted.",
            DbError::NoDocumentReturned => "no document returned",
            DbError::NoDocumentRemoved => "no document was removed.",
        }
    }
}

} // verus!
