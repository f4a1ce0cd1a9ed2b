//! The expiry reaper's sweep: which leases a sweep at a given instant
//! must end.  The once-a-second loop and the container stops run outside
//! the library; the store is the single source of truth, so a sweep is a
//! pure function of the stored leases and the clock.

use vstd::prelude::*;

use crate::errors::SentinelError;
use crate::session::{spec_is_expired, Session};
use crate::codec::spec_decode_session;
use crate::store::{session_listed, session_stored, SessionStore};

verus! {

/// Pause between two sweeps, in milliseconds.
pub const REAPER_INTERVAL_MS: u64 = 1000;

/// The work list of one sweep at instant `now_ns`: every lease on
/// record whose deadline has passed — those sessions, and no others,
/// have their teardown started by this sweep.  Every stored expired
/// lease is in the list, so none survives a sweep unseen.
pub fn sweep_work(store: &SessionStore, now_ns: i128) -> (r: Result<Vec<Session>, SentinelError>)
    ensures
        r matches Ok(v) ==> {
            &&& forall|i: int|
                0 <= i < v@.len() ==> spec_is_expired(#[trigger] v@[i]@.ends_at, now_ns as int)
            &&& forall|i: int|
                0 <= i < v@.len() ==> session_stored(store.contents(), #[trigger] v@[i]@)
            &&& forall|k: Seq<u8>| #[trigger]
                store.contents().contains_key(k) ==> (spec_decode_session(store.contents()[k])
                    matches Option::Some(sv) && (spec_is_expired(sv.ends_at, now_ns as int)
                    ==> session_listed(v@, sv)))
        },
        r matches Err(e) ==> e is StoreError,
{
    store.get_expired_sessions(now_ns)
}

} // verus!
