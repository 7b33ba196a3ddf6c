//! Ownership and size checks made before a mutation is committed.

use vstd::prelude::*;

use crate::errors::ErrorCode;
use crate::keys::Identity;
use crate::records::{Record, RecordData};

verus! {

/// The identity that is write-authorized for a record: a profile's owner or
/// a post's author.
pub open spec fn record_owner(record: RecordData) -> Identity {
    match record {
        RecordData::Profile(p) => p.owner,
        RecordData::Post(p) => p.author,
    }
}

/// Checks that `caller` matches the record's designated owner field before
/// an owner-scoped mutation is permitted.
pub fn authorize(record: &Record, caller: Identity) -> (r: Result<(), ErrorCode>)
    ensures
        r == (if record_owner(record@) == caller {
            Ok::<(), ErrorCode>(())
        } else {
            Err::<(), ErrorCode>(ErrorCode::Unauthorized)
        }),
{
    let owner = match record {
        Record::Profile(p) => p.owner,
        Record::Post(p) => p.author,
    };
    if owner == caller {
        Ok(())
    } else {
        Err(ErrorCode::Unauthorized)
    }
}

/// Checks the byte length of a variable-length field against its fixed
/// ceiling.
pub fn validate_length(field: &Vec<u8>, max_bytes: usize) -> (r: Result<(), ErrorCode>)
    ensures
        r == (if field@.len() <= max_bytes {
            Ok::<(), ErrorCode>(())
        } else {
            Err::<(), ErrorCode>(ErrorCode::ContentTooLong)
        }),
{
    if field.len() <= max_bytes {
        Ok(())
    } else {
        Err(ErrorCode::ContentTooLong)
    }
}

} // verus!
