//! The poll store: the single authority for poll data.
//!
//! All reads and writes of poll state pass through `PollStore`.  Callers
//! receive copies of poll contents, never references into the store, so no
//! caller can mutate a record behind the store's back.  Identifiers come
//! from an internal counter rendered through `ids::enc`; the well-formedness
//! invariant keeps every stored counter value below the next one to hand
//! out, which rules out id collisions without a retry loop.

use vstd::prelude::*;
use crate::ids::{enc, encode_id, lemma_enc_injective};
use crate::poll::{
    contains_fp, distinct_fps, options_ok, record_matches, records_match, sum_of,
    lemma_sum_update, lemma_sum_elem_le, lemma_sum_take_le, zero_tally,
    PollData, PollError, PollRecord,
};

verus! {

/// The owner of all poll records.  Constructed once (or restored from a
/// snapshot) and handed to request handlers; they serialize their access to
/// it, and every operation below is one atomic step on it.
pub struct PollStore {
    next_id: u64,
    polls: Vec<PollRecord>,
}

impl PollStore {
    /// The counter value the next created poll will take.
    pub closed spec fn spec_next(self) -> u64 {
        self.next_id
    }

    /// All records, in creation order.
    pub closed spec fn spec_polls(self) -> Seq<PollRecord> {
        self.polls@
    }

    /// Store invariant: every record is well formed, every stored counter
    /// value lies below the next one, and no two records share a counter
    /// value.
    pub open spec fn wf(self) -> bool {
        &&& forall|i: int| 0 <= i < self.spec_polls().len() ==> (#[trigger] self.spec_polls()[i]).wf()
        &&& forall|i: int| 0 <= i < self.spec_polls().len()
            ==> (#[trigger] self.spec_polls()[i]).id_num < self.spec_next()
        &&& forall|i: int, j: int|
            0 <= i < j < self.spec_polls().len()
                ==> self.spec_polls()[i].id_num != self.spec_polls()[j].id_num
    }

    /// Does a poll with this id string exist?
    pub open spec fn has_poll(self, id: Seq<char>) -> bool {
        exists|i: int| 0 <= i < self.spec_polls().len() && (#[trigger] self.spec_polls()[i]).id_view() == id
    }

    /// The index of the poll with this id string (meaningful under
    /// `has_poll`; unique by `lemma_index_unique`).
    pub open spec fn index_of(self, id: Seq<char>) -> int {
        choose|i: int| 0 <= i < self.spec_polls().len() && (#[trigger] self.spec_polls()[i]).id_view() == id
    }

    /// The record for this id string.
    pub open spec fn poll_at(self, id: Seq<char>) -> PollRecord {
        self.spec_polls()[self.index_of(id)]
    }

    /// Has `f` voted on the poll with this id?
    pub open spec fn spec_voted(self, id: Seq<char>, f: Seq<char>) -> bool {
        self.has_poll(id) && self.poll_at(id).has_voter(f)
    }

    /// At most one record carries a given id string.
    pub proof fn lemma_index_unique(self, id: Seq<char>, i: int, j: int)
        requires
            self.wf(),
            0 <= i < self.spec_polls().len(),
            0 <= j < self.spec_polls().len(),
            self.spec_polls()[i].id_view() == id,
            self.spec_polls()[j].id_view() == id,
        ensures
            i == j,
    {
        if i != j {
            lemma_enc_injective(
                self.spec_polls()[i].id_num as nat,
                self.spec_polls()[j].id_num as nat,
            );
        }
    }

    /// An empty store: no polls, counter at zero.
    pub fn new() -> (s: PollStore)
        ensures
            s.wf(),
            s.spec_next() == 0,
            s.spec_polls() =~= Seq::<PollRecord>::empty(),
    {
        PollStore { next_id: 0, polls: Vec::new() }
    }

    /// Whether the id counter has room for another creation.
    pub fn can_create(&self) -> (r: bool)
        ensures
            r == (self.spec_next() < u64::MAX),
    {
        self.next_id < u64::MAX
    }

    /// Scan for the record whose rendered id equals `poll_id`.
    fn find_poll(&self, poll_id: &String) -> (r: Option<usize>)
        requires
            self.wf(),
        ensures
            match r {
                Some(i) => i < self.spec_polls().len()
                    && self.spec_polls()[i as int].id_view() == poll_id@
                    && self.has_poll(poll_id@)
                    && self.index_of(poll_id@) == i as int,
                None => !self.has_poll(poll_id@),
            },
    {
        let n = self.polls.len();
        let mut k: usize = 0;
        while k < n
            invariant
                self.wf(),
                n == self.spec_polls().len(),
                k <= n,
                forall|j: int| 0 <= j < k ==> (#[trigger] self.spec_polls()[j]).id_view() != poll_id@,
            decreases n - k,
        {
            let candidate = encode_id(self.polls[k].id_num);
            if candidate.eq(poll_id) {
                proof {
                    self.lemma_index_unique(poll_id@, self.index_of(poll_id@), k as int);
                }
                return Some(k);
            }
            k = k + 1;
        }
        None
    }

    /// A consistent snapshot of one poll's options and tally, or `None`
    /// when no poll carries this id.
    pub fn get_poll(&self, poll_id: &String) -> (r: Option<PollData>)
        requires
            self.wf(),
        ensures
            match r {
                Some(d) => self.has_poll(poll_id@)
                    && d.options@ == self.poll_at(poll_id@).options@
                    && d.tally@ == self.poll_at(poll_id@).tally@,
                None => !self.has_poll(poll_id@),
            },
    {
        match self.find_poll(poll_id) {
            Some(i) => {
                let options = self.polls[i].options.clone();
                let tally = self.polls[i].tally.clone();
                proof {
                    assert(options@ =~= self.spec_polls()[i as int].options@);
                    assert(tally@ =~= self.spec_polls()[i as int].tally@);
                }
                Some(PollData { options, tally })
            },
            None => None,
        }
    }

    /// Whether `fingerprint` has already voted on poll `poll_id`;
    /// `NotFound` when the poll does not exist.
    pub fn voted_on(&self, fingerprint: &String, poll_id: &String) -> (r: Result<bool, PollError>)
        requires
            self.wf(),
        ensures
            match r {
                Ok(b) => self.has_poll(poll_id@) && b == self.spec_voted(poll_id@, fingerprint@),
                Err(e) => e == PollError::NotFound && !self.has_poll(poll_id@),
            },
    {
        match self.find_poll(poll_id) {
            Some(i) => Ok(contains_string(&self.polls[i].voters, fingerprint)),
            None => Err(PollError::NotFound),
        }
    }
}

/// The record a successful creation appends: the given counter value and
/// options, a zeroed tally of the same length, and no voters.
pub open spec fn created_record(id_num: u64, options: Seq<String>, p: PollRecord) -> bool {
    &&& p.id_num == id_num
    &&& p.options@ == options
    &&& p.tally@.len() == options.len()
    &&& (forall|i: int| 0 <= i < options.len() ==> p.tally@[i] == 0)
    &&& p.voters@.len() == 0
}

/// Exact description of one creation step from store `pre` to store `post`.
pub open spec fn create_transition(
    pre: PollStore,
    post: PollStore,
    options: Seq<String>,
    r: Result<String, PollError>,
) -> bool {
    match r {
        Ok(id) => {
            &&& options_ok(options)
            &&& id@ == enc(pre.spec_next() as nat)
            &&& !pre.has_poll(id@)
            &&& post.spec_next() == pre.spec_next() + 1
            &&& post.spec_polls().len() == pre.spec_polls().len() + 1
            &&& post.spec_polls().drop_last() == pre.spec_polls()
            &&& created_record(pre.spec_next(), options, post.spec_polls().last())
        },
        Err(e) => {
            &&& e == PollError::InvalidInput
            &&& !options_ok(options)
            &&& post == pre
        },
    }
}

/// The one record a successful vote rewrites: same poll, the chosen tally
/// slot one higher, the fingerprint appended to the voters.
pub open spec fn voted_record(p: PollRecord, option: int, f: String, q: PollRecord) -> bool {
    &&& p.tally@[option] < u64::MAX
    &&& q.id_num == p.id_num
    &&& q.options@ == p.options@
    &&& q.tally@ == p.tally@.update(option, (p.tally@[option] + 1) as u64)
    &&& q.voters@ == p.voters@.push(f)
}

/// Exact description of one vote step from store `pre` to store `post`.
/// Checks run in this order: poll existence, then option validity, then the
/// duplicate-fingerprint test; the error reports the first failing check.
pub open spec fn vote_transition(
    pre: PollStore,
    post: PollStore,
    id: Seq<char>,
    option: int,
    f: String,
    r: Result<(), PollError>,
) -> bool {
    match r {
        Ok(()) => {
            &&& pre.has_poll(id)
            &&& 0 <= option < pre.poll_at(id).options@.len()
            &&& !pre.poll_at(id).has_voter(f@)
            &&& post.spec_next() == pre.spec_next()
            &&& post.spec_polls().len() == pre.spec_polls().len()
            &&& voted_record(pre.poll_at(id), option, f, post.spec_polls()[pre.index_of(id)])
            &&& forall|j: int|
                0 <= j < pre.spec_polls().len() && j != pre.index_of(id)
                    ==> post.spec_polls()[j] == pre.spec_polls()[j]
        },
        Err(PollError::NotFound) => !pre.has_poll(id) && post == pre,
        Err(PollError::InvalidOption) => {
            &&& pre.has_poll(id)
            &&& !(0 <= option < pre.poll_at(id).options@.len())
            &&& post == pre
        },
        Err(PollError::AlreadyVoted) => {
            &&& pre.has_poll(id)
            &&& 0 <= option < pre.poll_at(id).options@.len()
            &&& pre.poll_at(id).has_voter(f@)
            &&& post == pre
        },
        _ => false,
    }
}

impl PollStore {
    /// Create a poll with the given option labels.  A valid request (at
    /// least one option, none empty) always succeeds and returns the new
    /// poll's id, fresh by construction; an invalid one fails with
    /// `InvalidInput` and leaves the store unchanged.  A collision with an
    /// existing id is ruled out by the counter invariant, proved rather
    /// than retried.
    pub fn create_poll(&mut self, options: Vec<String>) -> (r: Result<String, PollError>)
        requires
            old(self).wf(),
            old(self).spec_next() < u64::MAX,
        ensures
            final(self).wf(),
            create_transition(*old(self), *final(self), options@, r),
    {
        if options.len() == 0 {
            return Err(PollError::InvalidInput);
        }
        let n = options.len();
        let mut k: usize = 0;
        while k < n
            invariant
                *self == *old(self),
                self.wf(),
                k <= n,
                n == options@.len(),
                forall|j: int| 0 <= j < k ==> (#[trigger] options@[j])@.len() > 0,
            decreases n - k,
        {
            if options[k].as_str().is_empty() {
                return Err(PollError::InvalidInput);
            }
            k = k + 1;
        }
        let id_num = self.next_id;
        let id = encode_id(id_num);
        proof {
            assert forall|i: int| 0 <= i < self.spec_polls().len()
                implies (#[trigger] self.spec_polls()[i]).id_view() != id@ by {
                if self.spec_polls()[i].id_view() == id@ {
                    lemma_enc_injective(self.spec_polls()[i].id_num as nat, id_num as nat);
                }
            }
        }
        let tally = zero_tally(options.len());
        let record = PollRecord { id_num, options, tally, voters: Vec::new() };
        self.polls.push(record);
        self.next_id = id_num + 1;
        proof {
            assert(self.spec_polls().drop_last() =~= old(self).spec_polls());
        }
        Ok(id)
    }

    /// Record one vote by `fingerprint` for option index `option` of poll
    /// `poll_id`.  Atomic with respect to the store: either the named
    /// poll's tally and voters both advance by exactly this vote, or the
    /// store is unchanged and the error names the first failing check.
    pub fn vote_poll(&mut self, poll_id: &String, option: usize, fingerprint: String) -> (r:
        Result<(), PollError>)
        requires
            old(self).wf(),
        ensures
            final(self).wf(),
            vote_transition(*old(self), *final(self), poll_id@, option as int, fingerprint, r),
    {
        let i = match self.find_poll(poll_id) {
            Some(i) => i,
            None => {
                return Err(PollError::NotFound);
            },
        };
        if option >= self.polls[i].options.len() {
            return Err(PollError::InvalidOption);
        }
        if contains_string(&self.polls[i].voters, &fingerprint) {
            return Err(PollError::AlreadyVoted);
        }
        let ghost pre = *self;
        let mut rec = self.polls.remove(i);
        rec.voters.push(fingerprint);
        let new_len = rec.voters.len();
        let t = rec.tally[option];
        proof {
            lemma_sum_elem_le(rec.tally@, option as int);
            assert(t < u64::MAX);
        }
        rec.tally.set(option, t + 1);
        proof {
            lemma_sum_update(pre.poll_at(poll_id@).tally@, option as int, (t + 1) as u64);
        }
        let ghost grec = rec;
        self.polls.insert(i, rec);
        proof {
            assert(self.spec_polls() =~= pre.spec_polls().update(i as int, grec));
            assert forall|m: int, l: int|
                0 <= m < l < grec.voters@.len() implies grec.voters@[m]@ != grec.voters@[l]@ by {
                if l == grec.voters@.len() - 1 {
                    assert(pre.poll_at(poll_id@).voters@[m]@ != fingerprint@);
                }
            }
        }
        Ok(())
    }
}

/// The durable image of the store: the id counter and every record.  The
/// layer around the store writes one of these out after every successful
/// mutation and reads one back at process start.
pub struct Snapshot {
    pub next_id: u64,
    pub polls: Vec<PollRecord>,
}

/// What a restorable image looks like: exactly the invariant the store
/// maintains, read off the image's fields.
pub open spec fn valid_image(next_id: u64, polls: Seq<PollRecord>) -> bool {
    &&& forall|i: int| 0 <= i < polls.len() ==> (#[trigger] polls[i]).wf()
    &&& forall|i: int| 0 <= i < polls.len() ==> (#[trigger] polls[i]).id_num < next_id
    &&& forall|i: int, j: int| 0 <= i < j < polls.len() ==> polls[i].id_num != polls[j].id_num
}

/// Does some string in the first `upto` slots of `v` read as `f`?
fn prefix_contains(v: &Vec<String>, upto: usize, f: &String) -> (r: bool)
    requires
        upto <= v@.len(),
    ensures
        r == exists|i: int| 0 <= i < upto && (#[trigger] v@[i])@ == f@,
{
    let mut k: usize = 0;
    while k < upto
        invariant
            upto <= v@.len(),
            k <= upto,
            forall|j: int| 0 <= j < k ==> (#[trigger] v@[j])@ != f@,
        decreases upto - k,
    {
        if v[k].eq(f) {
            return true;
        }
        k = k + 1;
    }
    false
}

/// Does no fingerprint occur twice in `v`?
fn voters_distinct(v: &Vec<String>) -> (r: bool)
    ensures
        r == distinct_fps(v@),
{
    let n = v.len();
    let mut k: usize = 0;
    while k < n
        invariant
            n == v@.len(),
            k <= n,
            forall|i: int, j: int| 0 <= i < j < k ==> (#[trigger] v@[i])@ != (#[trigger] v@[j])@,
        decreases n - k,
    {
        if prefix_contains(v, k, &v[k]) {
            return false;
        }
        k = k + 1;
    }
    true
}

/// Is every option label non-empty?
fn options_nonempty(v: &Vec<String>) -> (r: bool)
    ensures
        r == forall|i: int| 0 <= i < v@.len() ==> (#[trigger] v@[i])@.len() > 0,
{
    let n = v.len();
    let mut k: usize = 0;
    while k < n
        invariant
            n == v@.len(),
            k <= n,
            forall|j: int| 0 <= j < k ==> (#[trigger] v@[j])@.len() > 0,
        decreases n - k,
    {
        if v[k].as_str().is_empty() {
            return false;
        }
        k = k + 1;
    }
    true
}

/// Total of a tally, or `None` when the total does not fit in a `u64`.
fn sum_tally(t: &Vec<u64>) -> (r: Option<u64>)
    ensures
        match r {
            Some(s) => s == sum_of(t@),
            None => sum_of(t@) > u64::MAX,
        },
{
    let n = t.len();
    let mut acc: u64 = 0;
    let mut k: usize = 0;
    while k < n
        invariant
            n == t@.len(),
            k <= n,
            acc == sum_of(t@.take(k as int)),
        decreases n - k,
    {
        let x = t[k];
        proof {
            assert(t@.take(k + 1).drop_last() =~= t@.take(k as int));
            assert(t@.take(k + 1).last() == t@[k as int]);
        }
        if x > u64::MAX - acc {
            proof {
                lemma_sum_take_le(t@, k + 1);
            }
            return None;
        }
        acc = acc + x;
        k = k + 1;
    }
    proof {
        assert(t@.take(n as int) =~= t@);
    }
    Some(acc)
}

/// Does `p` satisfy the record invariant?
fn check_record(p: &PollRecord) -> (r: bool)
    ensures
        r == p.wf(),
{
    if p.options.len() == 0 {
        return false;
    }
    if !options_nonempty(&p.options) {
        return false;
    }
    if p.tally.len() != p.options.len() {
        return false;
    }
    if !voters_distinct(&p.voters) {
        return false;
    }
    let vl = p.voters.len();
    match sum_tally(&p.tally) {
        Some(s) => s == (vl as u64),
        None => false,
    }
}

impl PollStore {
    /// A full copy of the store's durable state: the caller owns it, and
    /// changing it cannot touch the store.
    pub fn snapshot(&self) -> (s: Snapshot)
        ensures
            s.next_id == self.spec_next(),
            records_match(s.polls@, self.spec_polls()),
    {
        let n = self.polls.len();
        let mut polls: Vec<PollRecord> = Vec::new();
        let mut k: usize = 0;
        while k < n
            invariant
                n == self.spec_polls().len(),
                k <= n,
                polls@.len() == k,
                forall|j: int|
                    0 <= j < k ==> record_matches(#[trigger] polls@[j], self.spec_polls()[j]),
            decreases n - k,
        {
            let p = &self.polls[k];
            let q = PollRecord {
                id_num: p.id_num,
                options: p.options.clone(),
                tally: p.tally.clone(),
                voters: p.voters.clone(),
            };
            proof {
                assert(q.options@ =~= p.options@);
                assert(q.tally@ =~= p.tally@);
                assert(q.voters@ =~= p.voters@);
            }
            polls.push(q);
            k = k + 1;
        }
        Snapshot { next_id: self.next_id, polls }
    }

    /// Rebuild a store from a durable image, validating everything the
    /// store invariant demands.  A valid image — in particular any image a
    /// well-formed store wrote — yields a store holding exactly the
    /// image's counter and records; anything else is rejected.
    pub fn restore(image: Snapshot) -> (r: Option<PollStore>)
        ensures
            match r {
                Some(s) => {
                    &&& s.wf()
                    &&& s.spec_next() == image.next_id
                    &&& s.spec_polls() == image.polls@
                    &&& valid_image(image.next_id, image.polls@)
                },
                None => !valid_image(image.next_id, image.polls@),
            },
    {
        let Snapshot { next_id, polls } = image;
        let n = polls.len();
        let mut k: usize = 0;
        while k < n
            invariant
                next_id == image.next_id,
                polls == image.polls,
                n == polls@.len(),
                k <= n,
                forall|i: int| 0 <= i < k ==> (#[trigger] polls@[i]).wf(),
                forall|i: int| 0 <= i < k ==> (#[trigger] polls@[i]).id_num < next_id,
                forall|i: int, j: int| 0 <= i < j < k ==> polls@[i].id_num != polls@[j].id_num,
            decreases n - k,
        {
            let p = &polls[k];
            if !check_record(p) {
                return None;
            }
            if p.id_num >= next_id {
                return None;
            }
            let mut j: usize = 0;
            while j < k
                invariant
                    next_id == image.next_id,
                    polls == image.polls,
                    n == polls@.len(),
                    j <= k < n,
                    forall|i: int| 0 <= i < j ==> polls@[i].id_num != polls@[k as int].id_num,
                decreases k - j,
            {
                if polls[j].id_num == polls[k].id_num {
                    return None;
                }
                j = j + 1;
            }
            k = k + 1;
        }
        Some(PollStore { next_id, polls })
    }
}

/// Does some string in `v` read as `f`?
fn contains_string(v: &Vec<String>, f: &String) -> (r: bool)
    ensures
        r == contains_fp(v@, f@),
{
    let n = v.len();
    let mut k: usize = 0;
    while k < n
        invariant
            n == v@.len(),
            k <= n,
            forall|j: int| 0 <= j < k ==> (#[trigger] v@[j])@ != f@,
        decreases n - k,
    {
        if v[k].eq(f) {
            return true;
        }
        k = k + 1;
    }
    false
}

} // verus!
