//! The mapping between application types and record batches.
use vstd::prelude::*;

use crate::batch::RecordBatch;
use crate::error::UWireError;

verus! {

/// Conversion contract between an application type and one Arrow record batch.
pub trait ArrowWirePayload: Sized {
    /// Converts this value to the wire's single record batch.
    ///
    /// # Errors
    ///
    /// Returns an error if the value cannot be represented as a valid batch.
    fn to_record_batch(&self) -> Result<RecordBatch, UWireError>;

    /// Reconstructs a value from the wire's single record batch.
    ///
    /// # Errors
    ///
    /// Returns an error if the batch does not satisfy this type's schema policy.
    fn from_record_batch(batch: RecordBatch) -> Result<Self, UWireError>;
}

} // verus!
