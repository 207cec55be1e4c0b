//! Who may see a chat: its owner, and nobody else learns that it exists.

use vstd::prelude::*;
use crate::error::AppError;

verus! {

/// Whether `caller` owns a chat whose stored owner is `owner` (`None`: no such chat).
pub open spec fn owns(owner: Option<Seq<char>>, caller: Seq<char>) -> bool {
    owner == Some(caller)
}

/// The answer to a request on a chat: admitted, or `NotFound`.
pub open spec fn access(owner: Option<Seq<char>>, caller: Seq<char>) -> Result<(), AppError> {
    if owns(owner, caller) {
        Ok(())
    } else {
        Err(AppError::NotFound)
    }
}

pub open spec fn owner_view(owner: &Option<String>) -> Option<Seq<char>> {
    match owner {
        Some(o) => Some(o@),
        None => None,
    }
}

/// Admits the caller to a chat only if it owns it. An absent chat and a chat
/// of another user give the same `NotFound`.
pub fn authorize_chat(owner: &Option<String>, caller: &String) -> (r: Result<(), AppError>)
    ensures
        r == access(owner_view(owner), caller@),
{
    match owner {
        Some(o) => if *o == *caller {
            Ok(())
        } else {
            Err(AppError::NotFound)
        },
        None => Err(AppError::NotFound),
    }
}

/// Whether a broadcast message of a chat owned by `owner` goes to a socket
/// authenticated as `subscriber`.
pub fn should_forward(owner: &Option<String>, subscriber: &String) -> (r: bool)
    ensures
        r == owns(owner_view(owner), subscriber@),
{
    match owner {
        Some(o) => *o == *subscriber,
        None => false,
    }
}

/// A chat that the caller does not own is answered with `NotFound`, whether
/// it exists or not.
pub proof fn law_foreign_chat_not_found(owner: Option<Seq<char>>, caller: Seq<char>)
    requires
        owner != Some(caller),
    ensures
        access(owner, caller) == Err::<(), AppError>(AppError::NotFound),
        !owns(owner, caller),
{
}

} // verus!
