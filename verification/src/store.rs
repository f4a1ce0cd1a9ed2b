//! The durable session store: one record per function name, kept in an
//! embedded transactional key-value store that survives restarts.  The
//! only mutation on a live record is the atomic extend-or-create
//! transaction; everything the store hands back is decoded and checked by
//! the verified codec.

use vstd::prelude::*;
use vstd::string::*;
use vstd::utf8::encode_utf8;

use crate::codec::{decode_session, encode_session, spec_decode_session, spec_encode_session};
use crate::errors::SentinelError;
use crate::session::{spec_effective_ends_at, spec_is_expired, Session, SessionView};

verus! {

#[verifier::external_type_specification]
#[verifier::external_body]
pub struct ExTxKeyspace(fjall::SingleWriterTxKeyspace);

#[verifier::external_type_specification]
#[verifier::external_body]
pub struct ExFjallError(fjall::Error);

/// What the keyspace holds on disk: the committed records, keyed by the
/// function name's UTF-8 bytes.
pub uninterp spec fn store_contents(ks: fjall::SingleWriterTxKeyspace) -> Map<Seq<u8>, Seq<u8>>;

/// The durable session store.
pub struct SessionStore {
    ks: fjall::SingleWriterTxKeyspace,
}

/// The deadline currently on record under a key, if the key is present
/// and its record decodes.
pub open spec fn spec_current_ends_at(cur: Option<Seq<u8>>) -> Option<int> {
    match cur {
        Option::None => Option::None,
        Option::Some(b) => match spec_decode_session(b) {
            Option::Some(v) => Option::Some(v.ends_at),
            Option::None => Option::None,
        },
    }
}

/// The record that the extend-or-create transaction writes over the
/// current value: the same function name, with the effective deadline.
pub open spec fn spec_next_record(
    cur: Option<Seq<u8>>,
    name: Seq<char>,
    candidate: int,
    now_ns: int,
) -> Seq<u8> {
    spec_encode_session(
        SessionView {
            function_name: name,
            ends_at: spec_effective_ends_at(spec_current_ends_at(cur), candidate, now_ns),
        },
    )
}

/// The record currently under a key, if present.
pub open spec fn spec_get_record(m: Map<Seq<u8>, Seq<u8>>, key: Seq<u8>) -> Option<Seq<u8>> {
    if m.contains_key(key) {
        Option::Some(m[key])
    } else {
        Option::None
    }
}

/// The store's contents once the extend-or-create transaction has
/// written its record for `name`.
pub open spec fn spec_extended(
    m: Map<Seq<u8>, Seq<u8>>,
    name: Seq<char>,
    candidate: int,
    now_ns: int,
) -> Map<Seq<u8>, Seq<u8>> {
    m.insert(
        encode_utf8(name),
        spec_next_record(spec_get_record(m, encode_utf8(name)), name, candidate, now_ns),
    )
}

/// A name the store medium can key a record by: its UTF-8 form is
/// non-empty and at most 65535 bytes, the bounds the engine asserts on
/// every written key.
pub open spec fn spec_storable_name(name: Seq<char>) -> bool {
    0 < encode_utf8(name).len() <= 65535
}

/// Some stored record decodes to exactly this session.
pub open spec fn session_stored(m: Map<Seq<u8>, Seq<u8>>, sv: SessionView) -> bool {
    exists|k: Seq<u8>|
        m.contains_key(k) && spec_decode_session(#[trigger] m[k]) == Option::Some(sv)
}

/// The list holds a session with exactly this content.
pub open spec fn session_listed(vs: Seq<Session>, sv: SessionView) -> bool {
    exists|i: int| 0 <= i < vs.len() && #[trigger] vs[i]@ == sv
}

/// The closure handed to the store's atomic read-modify-write: computes
/// the bytes that replace the current record.
fn next_record_bytes(
    cur: Option<&[u8]>,
    name: &String,
    candidate: i128,
    now_ns: i128,
) -> (r: Vec<u8>)
    ensures
        r@ == spec_next_record(
            match cur {
                Option::Some(b) => Option::Some(b@),
                Option::None => Option::None,
            },
            name@,
            candidate as int,
            now_ns as int,
        ),
{
    let current: Option<i128> = match cur {
        Some(bytes) => match decode_session(bytes) {
            Some(sess) => Some(sess.ends_at),
            None => None,
        },
        None => None,
    };
    let effective: i128 = match current {
        Some(ends_at) => {
            if ends_at < now_ns {
                candidate
            } else if ends_at > candidate {
                ends_at
            } else {
                candidate
            }
        },
        None => candidate,
    };
    let next = Session { function_name: name.clone(), ends_at: effective };
    encode_session(&next)
}

impl SessionStore {
    /// The committed records, keyed by UTF-8 function name.
    pub closed spec fn contents(&self) -> Map<Seq<u8>, Seq<u8>> {
        store_contents(self.ks)
    }

    /// Relies on fjall's `SingleWriterTxDatabase::builder(..).open()` and
    /// `TxDatabase::keyspace`: opens or recovers the store under `dir`
    /// and its "sessions" keyspace.
    #[verifier::external_body]
    pub fn open(dir: &str) -> (r: Result<SessionStore, SentinelError>)
    {
        let opened = fjall::SingleWriterTxDatabase::builder(dir)
            .open()
            .and_then(|db| db.keyspace("sessions", fjall::KeyspaceCreateOptions::default));
        match opened {
            Ok(ks) => Ok(SessionStore { ks }),
            Err(e) => Err(SentinelError::StoreError(e.to_string())),
        }
    }

    /// Relies on fjall's `SingleWriterTxKeyspace::get`: the committed
    /// value under `key`.
    #[verifier::external_body]
    fn raw_get(&self, key: &[u8]) -> (r: Result<Option<Vec<u8>>, fjall::Error>)
        ensures
            r matches Ok(Some(bytes)) ==> store_contents(self.ks).contains_key(key@)
                && store_contents(self.ks)[key@] == bytes@,
            r matches Ok(None) ==> !store_contents(self.ks).contains_key(key@),
    {
        match self.ks.get(key) {
            Ok(Some(slice)) => Ok(Some(slice.to_vec())),
            Ok(None) => Ok(None),
            Err(e) => Err(e),
        }
    }

    /// Relies on fjall's `SingleWriterTxKeyspace::fetch_update`: within
    /// one write transaction, reads the value under the name's UTF-8
    /// bytes and replaces it with what `next_record_bytes` returns for
    /// it.  The transaction commits as one batch or not at all, so a
    /// failed call leaves the store unchanged or holding exactly the one
    /// record.  The engine asserts that a written key is non-empty and
    /// at most 65535 bytes; the precondition keeps those inputs out.
    #[verifier::external_body]
    fn raw_extend(
        &mut self,
        name: &String,
        candidate: i128,
        now_ns: i128,
    ) -> (r: Result<(), fjall::Error>)
        requires
            spec_storable_name(name@),
        ensures
            r is Ok ==> store_contents(final(self).ks) == spec_extended(
                store_contents(old(self).ks),
                name@,
                candidate as int,
                now_ns as int,
            ),
            r is Err ==> store_contents(final(self).ks) == store_contents(old(self).ks)
                || store_contents(final(self).ks) == spec_extended(
                    store_contents(old(self).ks),
                    name@,
                    candidate as int,
                    now_ns as int,
                ),
    {
        self.ks
            .fetch_update(name.as_bytes(), |cur: Option<&fjall::UserValue>| {
                Some(fjall::Slice::from(next_record_bytes(
                    cur.map(|v| v.as_ref()),
                    name,
                    candidate,
                    now_ns,
                )))
            })
            .map(|_| ())
    }

    /// Relies on fjall's `SingleWriterTxKeyspace::remove`: deletes the
    /// value under `key`; removing an absent key is a no-op.  The
    /// tombstone commits as one batch or not at all, so a failed call
    /// leaves the store unchanged or with the key already removed.  The
    /// engine asserts that a written key is non-empty and at most 65535
    /// bytes; the precondition keeps those inputs out.
    #[verifier::external_body]
    fn raw_remove(&mut self, key: &[u8]) -> (r: Result<(), fjall::Error>)
        requires
            0 < key@.len() <= 65535,
        ensures
            r is Ok ==> store_contents(final(self).ks) == store_contents(old(self).ks).remove(key@),
            r is Err ==> store_contents(final(self).ks) == store_contents(old(self).ks)
                || store_contents(final(self).ks) == store_contents(old(self).ks).remove(key@),
    {
        self.ks.remove(key).map(|_| ())
    }

    /// Relies on fjall's `Keyspace::iter` and `Guard::into_inner`: every
    /// committed pair, each key exactly once — so the list is as long as
    /// the store has keys.
    #[verifier::external_body]
    fn raw_entries(&self) -> (r: Result<Vec<(Vec<u8>, Vec<u8>)>, fjall::Error>)
        ensures
            r matches Ok(v) ==> {
                &&& store_contents(self.ks).dom().finite()
                &&& v@.len() == store_contents(self.ks).dom().len()
                &&& forall|i: int|
                    0 <= i < v@.len() ==> #[trigger] store_contents(self.ks).contains_pair(
                        v@[i].0@,
                        v@[i].1@,
                    )
                &&& forall|k: Seq<u8>|
                    store_contents(self.ks).contains_key(k) ==> exists|i: int|
                        0 <= i < v@.len() && #[trigger] v@[i].0@ == k
                &&& forall|i: int, j: int| 0 <= i < j < v@.len() ==> v@[i].0@ != v@[j].0@
            },
    {
        let mut out = Vec::new();
        for guard in self.ks.inner().iter() {
            let (k, v) = guard.into_inner()?;
            out.push((k.to_vec(), v.to_vec()));
        }
        Ok(out)
    }
}

/// Relies on the `Display` rendering of fjall's error type, for the
/// detail string of a store error.
#[verifier::external_body]
fn fjall_error_message(e: &fjall::Error) -> String {
    e.to_string()
}

impl SessionStore {
    /// The extend-or-create transaction of the store: within one atomic
    /// write, an absent or expired record becomes the candidate deadline,
    /// and a live record is raised to the candidate if that is later —
    /// never lowered.  Returns the deadline now on record.
    pub fn extend_or_create(
        &mut self,
        name: &String,
        candidate_ends_at_ns: i128,
        now_ns: i128,
    ) -> (r: Result<i128, SentinelError>)
        ensures
            r matches Ok(eff) ==> {
                let key = encode_utf8(name@);
                let cur = spec_get_record(old(self).contents(), key);
                &&& spec_storable_name(name@)
                &&& eff == spec_effective_ends_at(
                    spec_current_ends_at(cur),
                    candidate_ends_at_ns as int,
                    now_ns as int,
                )
                &&& final(self).contents() == old(self).contents().insert(
                    key,
                    spec_encode_session(SessionView { function_name: name@, ends_at: eff as int }),
                )
                &&& eff >= candidate_ends_at_ns || spec_current_ends_at(cur) == Option::Some(
                    eff as int,
                )
            },
            r matches Err(e) ==> e is StoreError || e is InvalidInput,
            (r matches Err(e) && e is InvalidInput) <==> !spec_storable_name(name@),
            r is Err ==> final(self).contents() == old(self).contents() || final(self).contents()
                == spec_extended(
                    old(self).contents(),
                    name@,
                    candidate_ends_at_ns as int,
                    now_ns as int,
                ),
    {
        let key: Vec<u8> = name.as_str().as_bytes_vec();
        if key.len() == 0 || key.len() > 65535 {
            return Err(
                SentinelError::InvalidInput(
                    "function name must be between 1 and 65535 bytes of UTF-8".to_owned(),
                ),
            );
        }
        let current_bytes = match self.raw_get(key.as_slice()) {
            Ok(v) => v,
            Err(e) => {
                return Err(SentinelError::StoreError(fjall_error_message(&e)));
            },
        };
        let current: Option<i128> = match &current_bytes {
            Some(bytes) => match decode_session(bytes.as_slice()) {
                Some(sess) => Some(sess.ends_at),
                None => {
                    return Err(
                        SentinelError::StoreError("stored session record does not decode".to_owned()),
                    );
                },
            },
            None => None,
        };
        let effective: i128 = match current {
            Some(ends_at) => {
                if ends_at < now_ns {
                    candidate_ends_at_ns
                } else if ends_at > candidate_ends_at_ns {
                    ends_at
                } else {
                    candidate_ends_at_ns
                }
            },
            None => candidate_ends_at_ns,
        };
        match self.raw_extend(name, candidate_ends_at_ns, now_ns) {
            Ok(()) => Ok(effective),
            Err(e) => Err(SentinelError::StoreError(fjall_error_message(&e))),
        }
    }

    /// Saves a lease through the extend-or-create transaction and returns
    /// the lease now on record: the input one, or the stored one if that
    /// reaches further and is still live at `now_ns`.
    pub fn save_session(&mut self, input: &Session, now_ns: i128) -> (r: Result<
        Session,
        SentinelError,
    >)
        ensures
            r matches Ok(s) ==> {
                let key = encode_utf8(input@.function_name);
                let cur = spec_get_record(old(self).contents(), key);
                &&& spec_storable_name(input@.function_name)
                &&& s@.function_name == input@.function_name
                &&& s@.ends_at == spec_effective_ends_at(
                    spec_current_ends_at(cur),
                    input@.ends_at,
                    now_ns as int,
                )
                &&& s@.ends_at >= input@.ends_at
                &&& final(self).contents() == old(self).contents().insert(
                    key,
                    spec_encode_session(s@),
                )
            },
            r matches Err(e) ==> e is StoreError || e is InvalidInput,
            (r matches Err(e) && e is InvalidInput) <==> !spec_storable_name(
                input@.function_name,
            ),
            r is Err ==> final(self).contents() == old(self).contents() || final(self).contents()
                == spec_extended(
                    old(self).contents(),
                    input@.function_name,
                    input@.ends_at as int,
                    now_ns as int,
                ),
    {
        match self.extend_or_create(&input.function_name, input.ends_at, now_ns) {
            Ok(effective) => Ok(
                Session { function_name: input.function_name.clone(), ends_at: effective },
            ),
            Err(e) => Err(e),
        }
    }

    /// The lease stored for `name`, if any.
    pub fn get_session(&self, name: &str) -> (r: Result<Option<Session>, SentinelError>)
        ensures
            r matches Ok(Some(s)) ==> self.contents().contains_key(encode_utf8(name@))
                && spec_decode_session(self.contents()[encode_utf8(name@)]) == Option::Some(s@),
            r matches Ok(None) ==> !self.contents().contains_key(encode_utf8(name@)),
            r matches Err(e) ==> e is StoreError,
    {
        let key: Vec<u8> = name.as_bytes_vec();
        match self.raw_get(key.as_slice()) {
            Ok(Some(bytes)) => match decode_session(bytes.as_slice()) {
                Some(sess) => Ok(Some(sess)),
                None => Err(
                    SentinelError::StoreError("stored session record does not decode".to_owned()),
                ),
            },
            Ok(None) => Ok(None),
            Err(e) => Err(SentinelError::StoreError(fjall_error_message(&e))),
        }
    }

    /// Every lease on record.  Fails if the medium fails or a record does
    /// not decode.
    pub fn get_all_sessions(&self) -> (r: Result<Vec<Session>, SentinelError>)
        ensures
            r matches Ok(v) ==> {
                &&& v@.len() == self.contents().dom().len()
                &&& forall|i: int|
                    0 <= i < v@.len() ==> session_stored(self.contents(), #[trigger] v@[i]@)
                &&& forall|k: Seq<u8>| #[trigger]
                    self.contents().contains_key(k) ==> (spec_decode_session(self.contents()[k])
                        matches Option::Some(sv) && session_listed(v@, sv))
            },
            r matches Err(e) ==> e is StoreError,
    {
        let entries = match self.raw_entries() {
            Ok(entries) => entries,
            Err(e) => {
                return Err(SentinelError::StoreError(fjall_error_message(&e)));
            },
        };
        let mut sessions: Vec<Session> = Vec::new();
        let mut idx: usize = 0;
        while idx < entries.len()
            invariant
                0 <= idx <= entries@.len(),
                sessions@.len() == idx,
                forall|i: int|
                    0 <= i < idx ==> spec_decode_session(#[trigger] entries@[i].1@)
                        == Option::Some(sessions@[i]@),
            decreases entries@.len() - idx,
        {
            match decode_session(entries[idx].1.as_slice()) {
                Some(sess) => sessions.push(sess),
                None => {
                    return Err(
                        SentinelError::StoreError(
                            "stored session record does not decode".to_owned(),
                        ),
                    );
                },
            }
            idx = idx + 1;
        }
        proof {
            assert forall|i: int| 0 <= i < sessions@.len() implies session_stored(
                self.contents(),
                #[trigger] sessions@[i]@,
            ) by {
                let k0 = entries@[i].0@;
                assert(self.contents().contains_pair(k0, entries@[i].1@));
                assert(self.contents().contains_key(k0) && spec_decode_session(
                    self.contents()[k0],
                ) == Option::Some(sessions@[i]@));
            }
            assert forall|k: Seq<u8>| #[trigger] self.contents().contains_key(k) implies (
            spec_decode_session(self.contents()[k]) matches Option::Some(sv) && session_listed(
                sessions@,
                sv,
            )) by {
                let i0 = choose|i: int| 0 <= i < entries@.len() && #[trigger] entries@[i].0@ == k;
                assert(self.contents().contains_pair(entries@[i0].0@, entries@[i0].1@));
                assert(self.contents()[k] == entries@[i0].1@);
                assert(spec_decode_session(self.contents()[k]) == Option::Some(sessions@[i0]@));
                assert(session_listed(sessions@, sessions@[i0]@));
            }
        }
        Ok(sessions)
    }

    /// Every lease on record whose deadline lies before `now_ns`.  These
    /// are exactly the leases the reaper must end: each returned lease is
    /// stored and expired, and every stored expired lease is returned.
    pub fn get_expired_sessions(&self, now_ns: i128) -> (r: Result<Vec<Session>, SentinelError>)
        ensures
            r matches Ok(v) ==> {
                &&& forall|i: int|
                    0 <= i < v@.len() ==> spec_is_expired(#[trigger] v@[i]@.ends_at, now_ns as int)
                &&& forall|i: int|
                    0 <= i < v@.len() ==> session_stored(self.contents(), #[trigger] v@[i]@)
                &&& forall|k: Seq<u8>| #[trigger]
                    self.contents().contains_key(k) ==> (spec_decode_session(self.contents()[k])
                        matches Option::Some(sv) && (spec_is_expired(sv.ends_at, now_ns as int)
                        ==> session_listed(v@, sv)))
            },
            r matches Err(e) ==> e is StoreError,
    {
        let all = match self.get_all_sessions() {
            Ok(all) => all,
            Err(e) => {
                return Err(e);
            },
        };
        let mut expired: Vec<Session> = Vec::new();
        let mut idx: usize = 0;
        while idx < all.len()
            invariant
                0 <= idx <= all@.len(),
                forall|i: int|
                    0 <= i < expired@.len() ==> spec_is_expired(
                        #[trigger] expired@[i]@.ends_at,
                        now_ns as int,
                    ),
                forall|i: int|
                    0 <= i < expired@.len() ==> exists|j: int|
                        0 <= j < all@.len() && #[trigger] expired@[i]@ == all@[j]@,
                forall|j: int|
                    0 <= j < idx ==> spec_is_expired(#[trigger] all@[j]@.ends_at, now_ns as int)
                        ==> session_listed(expired@, all@[j]@),
            decreases all@.len() - idx,
        {
            let ghost old_expired = expired@;
            if all[idx].is_expired_at(now_ns) {
                let s = all[idx].clone();
                expired.push(s);
            }
            proof {
                assert forall|j: int|
                    0 <= j <= idx as int && spec_is_expired(
                        #[trigger] all@[j]@.ends_at,
                        now_ns as int,
                    ) implies session_listed(expired@, all@[j]@) by {
                    if j < idx as int {
                        let i0 = choose|i: int|
                            0 <= i < old_expired.len() && #[trigger] old_expired[i]@ == all@[j]@;
                        assert(expired@[i0]@ == all@[j]@);
                    } else {
                        assert(expired@[expired@.len() - 1]@ == all@[j]@);
                    }
                }
            }
            idx = idx + 1;
        }
        proof {
            assert forall|i: int| 0 <= i < expired@.len() implies session_stored(
                self.contents(),
                #[trigger] expired@[i]@,
            ) by {
                let j0 = choose|j: int| 0 <= j < all@.len() && #[trigger] expired@[i]@ == all@[j]@;
                assert(session_stored(self.contents(), all@[j0]@));
            }
            assert forall|k: Seq<u8>| #[trigger] self.contents().contains_key(k) implies (
            spec_decode_session(self.contents()[k]) matches Option::Some(sv) && (spec_is_expired(
                sv.ends_at,
                now_ns as int,
            ) ==> session_listed(expired@, sv))) by {
                match spec_decode_session(self.contents()[k]) {
                    Option::Some(sv) => {
                        assert(session_listed(all@, sv));
                        if spec_is_expired(sv.ends_at, now_ns as int) {
                            let j0 = choose|j: int|
                                0 <= j < all@.len() && #[trigger] all@[j]@ == sv;
                            assert(session_listed(expired@, all@[j0]@));
                        }
                    },
                    Option::None => {},
                }
            }
        }
        Ok(expired)
    }

    /// Deletes the lease stored for `name`; deleting an absent lease
    /// succeeds and changes nothing.
    pub fn delete_session(&mut self, name: &str) -> (r: Result<(), SentinelError>)
        ensures
            r is Ok ==> final(self).contents() == old(self).contents().remove(encode_utf8(name@)),
            r matches Err(e) ==> e is StoreError || e is InvalidInput,
            (r matches Err(e) && e is InvalidInput) <==> !spec_storable_name(name@),
            r is Err ==> final(self).contents() == old(self).contents() || final(self).contents()
                == old(self).contents().remove(encode_utf8(name@)),
    {
        let key: Vec<u8> = name.as_bytes_vec();
        if key.len() == 0 || key.len() > 65535 {
            return Err(
                SentinelError::InvalidInput(
                    "function name must be between 1 and 65535 bytes of UTF-8".to_owned(),
                ),
            );
        }
        match self.raw_remove(key.as_slice()) {
            Ok(()) => Ok(()),
            Err(e) => Err(SentinelError::StoreError(fjall_error_message(&e))),
        }
    }
}


} // verus!
