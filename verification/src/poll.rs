//! Poll records and their invariants.
//!
//! A record holds the ordered option labels, the parallel tally, and the set
//! of voter fingerprints.  The central invariant ties them together: one
//! tally slot per option, and the tally total always equals the number of
//! recorded voters.

use vstd::prelude::*;
use crate::ids::enc;

verus! {

/// The closed set of failures the store can report.  `PersistenceFailure`
/// is reserved for the durable layer around the store: the in-memory
/// operations themselves never produce it.
#[derive(Clone, Copy, Debug, PartialEq, Eq, Structural)]
pub enum PollError {
    InvalidInput,
    NotFound,
    InvalidOption,
    AlreadyVoted,
    PersistenceFailure,
}

impl PollError {
    /// Message text for the wire-level error response.
    pub fn message(&self) -> (r: &'static str)
        ensures
            r@ == match *self {
                PollError::InvalidInput => "invalid input"@,
                PollError::NotFound => "this poll doesn't exist"@,
                PollError::InvalidOption => "invalid option"@,
                PollError::AlreadyVoted => "already voted"@,
                PollError::PersistenceFailure => "unknown error"@,
            },
    {
        match *self {
            PollError::InvalidInput => "invalid input",
            PollError::NotFound => "this poll doesn't exist",
            PollError::InvalidOption => "invalid option",
            PollError::AlreadyVoted => "already voted",
            PollError::PersistenceFailure => "unknown error",
        }
    }
}

/// One poll: identifier counter value, ordered option labels, per-option
/// tally, and the fingerprints that have voted.
pub struct PollRecord {
    pub id_num: u64,
    pub options: Vec<String>,
    pub tally: Vec<u64>,
    pub voters: Vec<String>,
}

/// The snapshot of one poll handed to readers: options and tally, in
/// creation order.  Always a copy, never a reference into the store.
pub struct PollData {
    pub options: Vec<String>,
    pub tally: Vec<u64>,
}

/// Total of a tally.
pub open spec fn sum_of(t: Seq<u64>) -> int
    decreases t.len(),
{
    if t.len() == 0 {
        0
    } else {
        sum_of(t.drop_last()) + t.last()
    }
}

/// Does some string in `vs` read as `f`?
pub open spec fn contains_fp(vs: Seq<String>, f: Seq<char>) -> bool {
    exists|i: int| 0 <= i < vs.len() && vs[i]@ == f
}

/// No two strings in `vs` read the same.
pub open spec fn distinct_fps(vs: Seq<String>) -> bool {
    forall|i: int, j: int| 0 <= i < j < vs.len() ==> vs[i]@ != vs[j]@
}

/// A creation request is valid when there is at least one option and every
/// option label is non-empty.
pub open spec fn options_ok(opts: Seq<String>) -> bool {
    &&& opts.len() > 0
    &&& forall|i: int| 0 <= i < opts.len() ==> opts[i]@.len() > 0
}

impl PollRecord {
    /// Record invariant: valid options, one tally slot per option, no
    /// fingerprint recorded twice, and the tally total equal to the number
    /// of voters.
    pub open spec fn wf(self) -> bool {
        &&& options_ok(self.options@)
        &&& self.tally@.len() == self.options@.len()
        &&& distinct_fps(self.voters@)
        &&& sum_of(self.tally@) == self.voters@.len()
    }

    /// The id string under which this record is reachable.
    pub open spec fn id_view(self) -> Seq<char> {
        enc(self.id_num as nat)
    }

    /// Has this fingerprint already voted here?
    pub open spec fn has_voter(self, f: Seq<char>) -> bool {
        contains_fp(self.voters@, f)
    }
}

/// `a` carries the same poll as `b`: same id and the same contents, read
/// through the views.
pub open spec fn record_matches(a: PollRecord, b: PollRecord) -> bool {
    &&& a.id_num == b.id_num
    &&& a.options@ == b.options@
    &&& a.tally@ == b.tally@
    &&& a.voters@ == b.voters@
}

/// Pointwise `record_matches` over two sequences of records.
pub open spec fn records_match(a: Seq<PollRecord>, b: Seq<PollRecord>) -> bool {
    &&& a.len() == b.len()
    &&& forall|i: int| 0 <= i < a.len() ==> record_matches(#[trigger] a[i], b[i])
}

pub proof fn lemma_sum_push(t: Seq<u64>, x: u64)
    ensures
        sum_of(t.push(x)) == sum_of(t) + x,
{
    assert(t.push(x).drop_last() =~= t);
}

pub proof fn lemma_sum_nonneg(t: Seq<u64>)
    ensures
        sum_of(t) >= 0,
    decreases t.len(),
{
    if t.len() > 0 {
        lemma_sum_nonneg(t.drop_last());
    }
}

pub proof fn lemma_sum_update(t: Seq<u64>, i: int, v: u64)
    requires
        0 <= i < t.len(),
    ensures
        sum_of(t.update(i, v)) == sum_of(t) - t[i] + v,
    decreases t.len(),
{
    if i == t.len() - 1 {
        assert(t.update(i, v).drop_last() =~= t.drop_last());
        assert(t.update(i, v).last() == v);
    } else {
        assert(t.update(i, v).drop_last() =~= t.drop_last().update(i, v));
        lemma_sum_update(t.drop_last(), i, v);
        assert(t.update(i, v).last() == t.last());
    }
}

pub proof fn lemma_sum_elem_le(t: Seq<u64>, i: int)
    requires
        0 <= i < t.len(),
    ensures
        t[i] <= sum_of(t),
    decreases t.len(),
{
    lemma_sum_nonneg(t.drop_last());
    if i < t.len() - 1 {
        lemma_sum_elem_le(t.drop_last(), i);
    }
}

pub proof fn lemma_sum_take_le(t: Seq<u64>, k: int)
    requires
        0 <= k <= t.len(),
    ensures
        sum_of(t.take(k)) <= sum_of(t),
    decreases t.len() - k,
{
    if k == t.len() {
        assert(t.take(k) =~= t);
    } else {
        lemma_sum_take_le(t, k + 1);
        assert(t.take(k + 1).drop_last() =~= t.take(k));
        assert(t.take(k + 1).last() == t[k]);
    }
}

/// A tally of `n` zeroed slots.
pub fn zero_tally(n: usize) -> (t: Vec<u64>)
    ensures
        t@.len() == n,
        forall|i: int| 0 <= i < n ==> t@[i] == 0,
        sum_of(t@) == 0,
{
    let mut t: Vec<u64> = Vec::new();
    let mut k: usize = 0;
    while k < n
        invariant
            k <= n,
            t@.len() == k,
            forall|i: int| 0 <= i < k ==> t@[i] == 0,
            sum_of(t@) == 0,
        decreases n - k,
    {
        proof {
            lemma_sum_push(t@, 0);
        }
        t.push(0);
        k = k + 1;
    }
    t
}

} // verus!
