//! Random bytes from the operating system.
use vstd::prelude::*;
use crate::execute::files::{IoFailure, IoKind};
use crate::execute::host::HostReply;
use crate::text::owned;

verus! {

/// `getrandom::getrandom` on a buffer of zeros: fills all of it, or fails. What
/// the bytes are is left to chance.
#[verifier::external_body]
fn fill(length: usize) -> (result: Result<Vec<u8>, String>)
    ensures
        match result {
            Ok(bytes) => bytes@.len() == length,
            Err(_) => true,
        },
{
    let mut bytes = vec![0u8; length];
    getrandom::getrandom(&mut bytes).map(|_| bytes).map_err(|error| error.to_string())
}

/// The reply to a request for random bytes: as many as were asked for, or a
/// failure.
pub fn answer_random(len: u64) -> (reply: HostReply)
    ensures
        match reply {
            HostReply::Bytes(bytes) => bytes@.len() == len,
            HostReply::Failed(_) => true,
            _ => false,
        },
{
    if len > usize::MAX as u64 {
        return HostReply::Failed(IoFailure { kind: IoKind::Other, message: owned("length out of range") });
    }
    match fill(len as usize) {
        Ok(bytes) => HostReply::Bytes(bytes),
        Err(message) => HostReply::Failed(IoFailure { kind: IoKind::Other, message }),
    }
}

} // verus!
