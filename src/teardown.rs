//! Teardown of a team's channel set: one remote deletion of the category,
//! and the ownership record dropped only once that deletion succeeded.
use vstd::prelude::*;
use crate::store::OwnershipStore;
use crate::text::{is_numeral, numeral_value, parse_decimal};

verus! {

/// Why a teardown did not happen.
#[derive(Debug)]
pub enum TeardownError {
    /// No user id was given.
    MissingUserId,
    /// The user id is not a single decimal number that fits in 64 bits.
    InvalidUserId,
    /// The user owns no channel set.
    NotFound,
    /// The remote deletion failed; the remote side's description of the
    /// cause is kept for the operator's log.
    RemoteDeletionFailed(String),
}

/// The set whose category is to be deleted.
#[derive(Debug)]
pub struct TeardownTarget {
    pub owner: u64,
    pub display_name: String,
    pub category_id: u64,
}

/// The words name exactly one user id.
pub open spec fn names_user_id(words: Seq<String>) -> bool {
    words.len() == 1 && is_numeral(words[0]@) && numeral_value(words[0]@) <= u64::MAX
}

/// Reads a user id given as one decimal word.
pub fn parse_user_id(words: &Vec<String>) -> (r: Option<u64>)
    ensures
        r is Some <==> names_user_id(words@),
        r matches Some(id) ==> id == numeral_value(words@[0]@),
{
    if words.len() != 1 {
        return None;
    }
    parse_decimal(words[0].as_str())
}

/// Resolves the words to the set to delete: no words give
/// `MissingUserId` and a malformed id gives `InvalidUserId`, both before
/// the store is looked at; a user without a set
/// gives `NotFound`, otherwise the user's record.
pub fn begin_teardown(store: &OwnershipStore, words: &Vec<String>) -> (r: Result<
    TeardownTarget,
    TeardownError,
>)
    requires
        store.wf(),
    ensures
        words@.len() == 0 ==> r matches Err(TeardownError::MissingUserId),
        words@.len() > 0 && !names_user_id(words@) ==> r matches Err(TeardownError::InvalidUserId),
        names_user_id(words@) && !store@.contains_key(numeral_value(words@[0]@) as u64) ==> r matches Err(TeardownError::NotFound),
        names_user_id(words@) && store@.contains_key(numeral_value(words@[0]@) as u64) ==> (r matches Ok(t)
            && t.owner == numeral_value(words@[0]@) && (t.display_name@, t.category_id)
            == store@[t.owner]),
{
    if words.len() == 0 {
        return Err(TeardownError::MissingUserId);
    }
    let owner = match parse_user_id(words) {
        Some(id) => id,
        None => {
            return Err(TeardownError::InvalidUserId);
        },
    };
    match store.get(owner) {
        None => Err(TeardownError::NotFound),
        Some(rec) => {
            let copy = rec.duplicate();
            Ok(TeardownTarget { owner, display_name: copy.display_name, category_id: copy.category_id })
        },
    }
}

/// Takes the outcome of deleting `owner`'s category. A failure keeps the
/// record, so the same teardown can be tried again; a success leaves no
/// record of `owner`.
pub fn finish_teardown(store: &mut OwnershipStore, owner: u64, outcome: Result<(), String>) -> (r:
    Result<(), TeardownError>)
    requires
        old(store).wf(),
    ensures
        final(store).wf(),
        outcome matches Err(cause) ==> final(store)@ == old(store)@ && (r matches Err(
            TeardownError::RemoteDeletionFailed(c),
        ) && c@ == cause@),
        outcome is Ok ==> final(store)@ == old(store)@.remove(owner) && r is Ok,
        outcome is Ok ==> !final(store)@.contains_key(owner),
{
    match outcome {
        Err(cause) => Err(TeardownError::RemoteDeletionFailed(cause)),
        Ok(()) => {
            let _ = store.remove(owner);
            Ok(())
        },
    }
}

} // verus!
