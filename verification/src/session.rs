//! Sessions (leases): one record per function, holding the instant until
//! which the function's container must stay warm, as nanoseconds since the
//! Unix epoch.  The extend-or-create arithmetic here is the single rule by
//! which a stored deadline may change while it is live: it never moves
//! backwards.

use vstd::prelude::*;

verus! {

/// Default lease length when a function's scaling options give none.
pub const DEFAULT_SESSION_DURATION_SECS: u64 = 30;

/// Nanoseconds per second, as a wide integer for deadline arithmetic.
pub const NANOS_PER_SEC: i128 = 1_000_000_000;

/// A lease keeping one function's container warm.
pub struct Session {
    /// The function this lease belongs to; the primary key in the store.
    pub function_name: String,
    /// Nanoseconds between the Unix epoch and when the session ends.
    pub ends_at: i128,
}

/// The mathematical content of a [`Session`].
pub struct SessionView {
    pub function_name: Seq<char>,
    pub ends_at: int,
}

impl View for Session {
    type V = SessionView;

    open spec fn view(&self) -> SessionView {
        SessionView { function_name: self.function_name@, ends_at: self.ends_at as int }
    }
}

impl Clone for Session {
    fn clone(&self) -> (other: Self)
        ensures
            other@ == self@,
    {
        Session { function_name: self.function_name.clone(), ends_at: self.ends_at }
    }
}

/// A session is expired exactly when its deadline lies strictly before the
/// given instant.
pub open spec fn spec_is_expired(ends_at: int, now_ns: int) -> bool {
    ends_at < now_ns
}

/// The deadline that extend-or-create stores, given the deadline currently
/// on record (if any): an absent or expired record is replaced by the
/// candidate; a live record is only ever extended, never shortened.
pub open spec fn spec_effective_ends_at(current: Option<int>, candidate: int, now_ns: int) -> int {
    match current {
        Option::None => candidate,
        Option::Some(cur) => if spec_is_expired(cur, now_ns) {
            candidate
        } else if cur > candidate {
            cur
        } else {
            candidate
        },
    }
}

impl Session {
    /// A fresh lease for `function_name` lasting `duration_secs` from the
    /// instant `now_ns`.
    pub fn new(function_name: String, duration_secs: u64, now_ns: i128) -> (s: Session)
        requires
            now_ns + duration_secs * NANOS_PER_SEC <= i128::MAX,
        ensures
            s@.function_name == function_name@,
            s@.ends_at == now_ns + duration_secs * NANOS_PER_SEC,
    {
        proof {
            assert(0 <= duration_secs as int * (1_000_000_000int)
                <= 0xFFFF_FFFF_FFFF_FFFFint * 1_000_000_000int) by (nonlinear_arith)
                requires
                    0 <= duration_secs <= 0xFFFF_FFFF_FFFF_FFFFu64,
            ;
        }
        let ns: i128 = (duration_secs as i128) * NANOS_PER_SEC;
        Session { function_name, ends_at: now_ns + ns }
    }

    /// Whether this lease's deadline lies before the instant `now_ns`.
    pub fn is_expired_at(&self, now_ns: i128) -> (b: bool)
        ensures
            b == spec_is_expired(self@.ends_at, now_ns as int),
    {
        self.ends_at < now_ns
    }

    /// The deadline extend-or-create would store over this lease for the
    /// incoming candidate deadline at instant `now_ns`.
    pub fn effective_ends_at(&self, candidate: i128, now_ns: i128) -> (r: i128)
        ensures
            r == spec_effective_ends_at(Option::Some(self@.ends_at), candidate as int, now_ns as int),
    {
        if self.is_expired_at(now_ns) {
            candidate
        } else if self.ends_at > candidate {
            self.ends_at
        } else {
            candidate
        }
    }
}

/// Folding extend-or-create over a whole sequence of candidate deadlines,
/// starting from the record `current`, all observed at instant `now_ns`.
pub open spec fn spec_fold_extends(current: Option<int>, candidates: Seq<int>, now_ns: int) -> Option<int>
    decreases candidates.len(),
{
    if candidates.len() == 0 {
        current
    } else {
        spec_fold_extends(
            Option::Some(spec_effective_ends_at(current, candidates[0], now_ns)),
            candidates.drop_first(),
            now_ns,
        )
    }
}

/// The largest element of a sequence of deadlines, with `floor` as the
/// starting point.
pub open spec fn spec_max_with(floor: int, candidates: Seq<int>) -> int
    decreases candidates.len(),
{
    if candidates.len() == 0 {
        floor
    } else {
        spec_max_with(if candidates[0] > floor { candidates[0] } else { floor }, candidates.drop_first())
    }
}

proof fn lemma_fold_extends_live(cur: int, candidates: Seq<int>, now_ns: int)
    requires
        !spec_is_expired(cur, now_ns),
        forall|i: int| 0 <= i < candidates.len() ==> candidates[i] >= now_ns,
    ensures
        spec_fold_extends(Option::Some(cur), candidates, now_ns) == Option::Some(
            spec_max_with(cur, candidates),
        ),
    decreases candidates.len(),
{
    if candidates.len() > 0 {
        let first = spec_effective_ends_at(Option::Some(cur), candidates[0], now_ns);
        assert(first == if candidates[0] > cur { candidates[0] } else { cur });
        assert(forall|i: int| 0 <= i < candidates.drop_first().len()
            ==> candidates.drop_first()[i] >= now_ns);
        lemma_fold_extends_live(first, candidates.drop_first(), now_ns);
    }
}

/// Monotone leases: any interleaving of concurrent extend-or-create calls
/// is some serial order of atomic read-modify-writes, and whatever that
/// order, the record they leave behind holds exactly the maximum of the
/// candidate deadlines and of the starting record if it was live; an
/// absent or expired starting record takes no part in the maximum.  The
/// candidates must not themselves lie in the past — a candidate is always
/// `now + duration`.
pub proof fn lemma_monotone_leases(current: Option<int>, candidates: Seq<int>, now_ns: int)
    requires
        candidates.len() > 0,
        forall|i: int| 0 <= i < candidates.len() ==> candidates[i] >= now_ns,
    ensures
        spec_fold_extends(current, candidates, now_ns) == Option::Some(
            spec_max_with(
                spec_effective_ends_at(current, candidates[0], now_ns),
                candidates.drop_first(),
            ),
        ),
        current matches Option::Some(cur) ==> !spec_is_expired(cur, now_ns)
            ==> spec_fold_extends(current, candidates, now_ns) == Option::Some(
                spec_max_with(cur, candidates),
            ),
        current matches Option::Some(cur) ==> spec_is_expired(cur, now_ns)
            ==> spec_fold_extends(current, candidates, now_ns) == Option::Some(
                spec_max_with(candidates[0], candidates.drop_first()),
            ),
        current is None ==> spec_fold_extends(current, candidates, now_ns) == Option::Some(
            spec_max_with(candidates[0], candidates.drop_first()),
        ),
{
    let first = spec_effective_ends_at(current, candidates[0], now_ns);
    assert(!spec_is_expired(first, now_ns));
    assert(forall|i: int| 0 <= i < candidates.drop_first().len()
        ==> candidates.drop_first()[i] >= now_ns);
    lemma_fold_extends_live(first, candidates.drop_first(), now_ns);
    match current {
        Option::Some(cur) => {
            if !spec_is_expired(cur, now_ns) {
                lemma_fold_extends_live(cur, candidates, now_ns);
            }
        },
        Option::None => {},
    }
}

} // verus!
