//! The ways in which reading, patching or writing the record can fail.

use vstd::prelude::*;

verus! {

/// Why a run could not update the record.
#[derive(Clone, Copy, Debug, PartialEq, Eq, Structural)]
pub enum PatchError {
    /// The store could not be opened: the path is wrong or may not be read.
    StoreUnavailable,
    /// Another process holds the store.
    StoreLocked,
    /// The query failed, or what it gave back is not one row of one column.
    StoreQueryError,
    /// The store holds no record under the key.
    RecordNotFound,
    /// The record's value is not the text of a JSON object.
    MalformedDocument,
    /// An edit names a field that the document lacks, under the strict policy.
    UnknownFieldPolicyViolation,
    /// The frame rate asked for is outside the accepted range.
    InvalidFrameRate,
    /// The store refused the update.
    StoreWriteError,
    /// The update went through and changed no row: the record is gone.
    KeyDisappeared,
}

} // verus!
