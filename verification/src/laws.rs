//! The store's guarantees, stated and proved once and for all: consistent
//! tallies, exactly-once voting, fresh identifiers, and a faithful
//! snapshot/restore round trip.

use vstd::prelude::*;
use vstd::seq_lib::*;
use crate::ids::lemma_enc_injective;
use crate::poll::{distinct_fps, record_matches, records_match, sum_of, lemma_sum_update,
    PollError, PollRecord};
use crate::store::{create_transition, vote_transition, PollStore};

verus! {

/// The set of fingerprints recorded in `vs`.
pub open spec fn fingerprints(vs: Seq<String>) -> Set<Seq<char>> {
    vs.map_values(|v: String| v@).to_set()
}

/// In every poll of a well-formed store, at all times, the tally total
/// equals the number of distinct recorded voters.
pub proof fn law_tally_counts_voters(s: PollStore, i: int)
    requires
        s.wf(),
        0 <= i < s.spec_polls().len(),
    ensures
        sum_of(s.spec_polls()[i].tally@) == fingerprints(s.spec_polls()[i].voters@).len(),
{
    let vs = s.spec_polls()[i].voters@;
    let mapped = vs.map_values(|v: String| v@);
    assert(mapped.no_duplicates()) by {
        assert(distinct_fps(vs));
        assert forall|a: int, b: int|
            0 <= a < mapped.len() && 0 <= b < mapped.len() && a != b
            implies mapped[a] != mapped[b] by {
            if a < b {
                assert(vs[a]@ != vs[b]@);
            } else {
                assert(vs[b]@ != vs[a]@);
            }
        }
    }
    mapped.unique_seq_to_set();
}

/// After a successful vote, the fingerprint is recorded on that poll.
pub proof fn law_vote_marks_voter(
    pre: PollStore,
    post: PollStore,
    id: Seq<char>,
    option: int,
    f: String,
)
    requires
        pre.wf(),
        post.wf(),
        vote_transition(pre, post, id, option, f, Ok(())),
    ensures
        post.spec_voted(id, f@),
{
    let i = pre.index_of(id);
    assert(post.spec_polls()[i].id_view() == id);
    assert(post.has_poll(id));
    post.lemma_index_unique(id, post.index_of(id), i);
    let voters = post.spec_polls()[i].voters@;
    assert(voters[voters.len() - 1]@ == f@);
}

/// A fingerprint already recorded on a poll can never vote there again:
/// the attempt fails with `AlreadyVoted` and changes nothing.
pub proof fn law_no_double_vote(
    pre: PollStore,
    post: PollStore,
    id: Seq<char>,
    option: int,
    g: String,
    r: Result<(), PollError>,
)
    requires
        pre.wf(),
        pre.spec_voted(id, g@),
        0 <= option < pre.poll_at(id).options@.len(),
        vote_transition(pre, post, id, option, g, r),
    ensures
        r == Err::<(), PollError>(PollError::AlreadyVoted),
        post == pre,
{
}

/// A vote with a fresh fingerprint on a valid option of an existing poll
/// never fails, and it grows the poll's voter count and tally total by
/// exactly one — so any number of distinct fingerprints racing on one poll
/// are each counted exactly once.
pub proof fn law_fresh_vote_succeeds(
    pre: PollStore,
    post: PollStore,
    id: Seq<char>,
    option: int,
    f: String,
    r: Result<(), PollError>,
)
    requires
        pre.wf(),
        vote_transition(pre, post, id, option, f, r),
        pre.has_poll(id),
        0 <= option < pre.poll_at(id).options@.len(),
        !pre.poll_at(id).has_voter(f@),
    ensures
        r is Ok,
        post.spec_polls()[pre.index_of(id)].voters@.len() == pre.poll_at(id).voters@.len() + 1,
        sum_of(post.spec_polls()[pre.index_of(id)].tally@) == sum_of(pre.poll_at(id).tally@) + 1,
{
    match r {
        Ok(_) => {},
        Err(e) => {
            if e == PollError::NotFound {
                assert(false);
            } else if e == PollError::InvalidOption {
                assert(false);
            } else if e == PollError::AlreadyVoted {
                assert(false);
            } else {
                assert(false);
            }
        },
    }
    let p = pre.poll_at(id);
    lemma_sum_update(p.tally@, option, (p.tally@[option] + 1) as u64);
}

/// A recorded vote stays recorded across any further vote operation,
/// whatever its outcome.
pub proof fn law_voted_persists_vote(
    pre: PollStore,
    post: PollStore,
    id: Seq<char>,
    option: int,
    f: String,
    r: Result<(), PollError>,
    pid0: Seq<char>,
    f0: Seq<char>,
)
    requires
        pre.wf(),
        post.wf(),
        vote_transition(pre, post, id, option, f, r),
        pre.spec_voted(pid0, f0),
    ensures
        post.spec_voted(pid0, f0),
{
    match r {
        Ok(_) => {
            let i = pre.index_of(id);
            let i0 = pre.index_of(pid0);
            assert(pre.has_poll(pid0));
            assert(0 <= i0 < pre.spec_polls().len() && pre.spec_polls()[i0].id_view() == pid0);
            assert(post.spec_polls()[i0].id_view() == pid0);
            assert(post.has_poll(pid0));
            post.lemma_index_unique(pid0, post.index_of(pid0), i0);
            let vs0 = pre.spec_polls()[i0].voters@;
            assert(pre.poll_at(pid0).has_voter(f0));
            let j = choose|j: int| 0 <= j < vs0.len() && (#[trigger] vs0[j])@ == f0;
            assert(post.spec_polls()[i0].voters@[j]@ == f0);
        },
        Err(_) => {
            assert(post == pre);
        },
    }
}

/// A recorded vote stays recorded across any creation, whatever its
/// outcome.
pub proof fn law_voted_persists_create(
    pre: PollStore,
    post: PollStore,
    options: Seq<String>,
    r: Result<String, PollError>,
    pid0: Seq<char>,
    f0: Seq<char>,
)
    requires
        pre.wf(),
        post.wf(),
        create_transition(pre, post, options, r),
        pre.spec_voted(pid0, f0),
    ensures
        post.spec_voted(pid0, f0),
{
    if r is Ok {
        let i0 = pre.index_of(pid0);
        assert(post.spec_polls()[i0] == pre.spec_polls()[i0]) by {
            assert(post.spec_polls().drop_last()[i0] == post.spec_polls()[i0]);
        }
        assert(post.has_poll(pid0));
        post.lemma_index_unique(pid0, post.index_of(pid0), i0);
    }
}

/// A run of vote operations on one poll: step `k` takes store `states[k]`
/// to `states[k + 1]` by a vote of `fps[k]` for option `opts[k]`, with
/// outcome `rs[k]`.
pub open spec fn vote_run(
    states: Seq<PollStore>,
    id: Seq<char>,
    opts: Seq<int>,
    fps: Seq<String>,
    rs: Seq<Result<(), PollError>>,
) -> bool {
    &&& states.len() == fps.len() + 1
    &&& opts.len() == fps.len()
    &&& rs.len() == fps.len()
    &&& forall|k: int| 0 <= k < states.len() ==> (#[trigger] states[k]).wf()
    &&& forall|k: int|
        0 <= k < fps.len() ==> vote_transition(
            states[k],
            states[k + 1],
            id,
            opts[k],
            fps[k],
            #[trigger] rs[k],
        )
}

/// However many distinct fingerprints vote on one poll, in whatever order
/// their racing requests are serialized: if none of them had voted before,
/// every one of them succeeds, and the poll's voter count and tally total
/// both end exactly that many higher — no vote is lost and none counts
/// twice.
pub proof fn law_distinct_fresh_votes_all_count(
    states: Seq<PollStore>,
    id: Seq<char>,
    opts: Seq<int>,
    fps: Seq<String>,
    rs: Seq<Result<(), PollError>>,
)
    requires
        vote_run(states, id, opts, fps, rs),
        states[0].has_poll(id),
        forall|k: int|
            0 <= k < fps.len() ==> 0 <= #[trigger] opts[k] < states[0].poll_at(
                id,
            ).options@.len(),
        forall|k: int, l: int| 0 <= k < l < fps.len() ==> fps[k]@ != fps[l]@,
        forall|k: int|
            0 <= k < fps.len() ==> !states[0].poll_at(id).has_voter((#[trigger] fps[k])@),
    ensures
        forall|k: int| 0 <= k < fps.len() ==> (#[trigger] rs[k]) is Ok,
        states.last().has_poll(id),
        states.last().poll_at(id).voters@.len() == states[0].poll_at(id).voters@.len()
            + fps.len(),
        sum_of(states.last().poll_at(id).tally@) == sum_of(states[0].poll_at(id).tally@)
            + fps.len(),
    decreases fps.len(),
{
    if fps.len() == 0 {
        assert(states.last() == states[0]);
    } else {
        let s0 = states[0];
        let s1 = states[1];
        let p = s0.poll_at(id);
        let i0 = s0.index_of(id);
        law_fresh_vote_succeeds(s0, s1, id, opts[0], fps[0], rs[0]);
        let q = s1.spec_polls()[i0];
        assert(q.id_view() == id);
        assert(s1.has_poll(id));
        s1.lemma_index_unique(id, s1.index_of(id), i0);
        assert(s1.poll_at(id) == q);
        lemma_sum_update(p.tally@, opts[0], (p.tally@[opts[0]] + 1) as u64);

        let states2 = states.drop_first();
        let opts2 = opts.drop_first();
        let fps2 = fps.drop_first();
        let rs2 = rs.drop_first();
        assert(vote_run(states2, id, opts2, fps2, rs2)) by {
            assert forall|k: int| 0 <= k < fps2.len() implies vote_transition(
                states2[k],
                states2[k + 1],
                id,
                opts2[k],
                fps2[k],
                #[trigger] rs2[k],
            ) by {
                assert(rs2[k] == rs[k + 1]);
                assert(vote_transition(states[k + 1], states[k + 2], id, opts[k + 1], fps[k + 1], rs[k + 1]));
            }
        }
        assert forall|k: int|
            0 <= k < fps2.len() implies !s1.poll_at(id).has_voter((#[trigger] fps2[k])@) by {
            assert(fps2[k]@ == fps[k + 1]@);
            if s1.poll_at(id).has_voter(fps[k + 1]@) {
                let j = choose|j: int|
                    0 <= j < q.voters@.len() && (#[trigger] q.voters@[j])@ == fps[k + 1]@;
                if j < p.voters@.len() {
                    assert(p.has_voter(fps[k + 1]@));
                } else {
                    assert(q.voters@[j]@ == fps[0]@);
                }
            }
        }
        assert forall|k: int|
            0 <= k < fps2.len() implies 0 <= #[trigger] opts2[k] < s1.poll_at(
                id,
            ).options@.len() by {
            assert(opts2[k] == opts[k + 1]);
        }
        law_distinct_fresh_votes_all_count(states2, id, opts2, fps2, rs2);
        assert(states2.last() == states.last());
        assert forall|k: int| 0 <= k < fps.len() implies (#[trigger] rs[k]) is Ok by {
            if k > 0 {
                assert(rs2[k - 1] is Ok);
            }
        }
    }
}

/// No two polls in a well-formed store share an id string.
pub proof fn law_store_ids_distinct(s: PollStore, i: int, j: int)
    requires
        s.wf(),
        0 <= i < j < s.spec_polls().len(),
    ensures
        s.spec_polls()[i].id_view() != s.spec_polls()[j].id_view(),
{
    if s.spec_polls()[i].id_view() == s.spec_polls()[j].id_view() {
        lemma_enc_injective(s.spec_polls()[i].id_num as nat, s.spec_polls()[j].id_num as nat);
    }
}

/// Two polls created in sequence never share an id.
pub proof fn law_created_ids_distinct(
    s0: PollStore,
    s1: PollStore,
    s2: PollStore,
    opts1: Seq<String>,
    opts2: Seq<String>,
    id1: String,
    id2: String,
)
    requires
        create_transition(s0, s1, opts1, Ok(id1)),
        create_transition(s1, s2, opts2, Ok(id2)),
    ensures
        id1@ != id2@,
{
    if id1@ == id2@ {
        lemma_enc_injective(s0.spec_next() as nat, s1.spec_next() as nat);
    }
}

/// The snapshot of a well-formed store is always accepted by `restore`.
pub proof fn law_snapshot_is_restorable(s: PollStore, next_id: u64, polls: Seq<PollRecord>)
    requires
        s.wf(),
        next_id == s.spec_next(),
        records_match(polls, s.spec_polls()),
    ensures
        crate::store::valid_image(next_id, polls),
{
    assert forall|i: int| 0 <= i < polls.len() implies (#[trigger] polls[i]).wf() by {
        assert(record_matches(polls[i], s.spec_polls()[i]));
        assert(s.spec_polls()[i].wf());
    }
}

/// A store whose records match another's, entry for entry, serves exactly
/// the same observables: the same polls exist, with the same options,
/// tallies and voters — so a restart through snapshot and restore loses
/// nothing.
pub proof fn law_restored_state_matches(s: PollStore, t: PollStore)
    requires
        s.wf(),
        t.wf(),
        t.spec_next() == s.spec_next(),
        records_match(t.spec_polls(), s.spec_polls()),
    ensures
        forall|id: Seq<char>| s.has_poll(id) == t.has_poll(id),
        forall|id: Seq<char>|
            #[trigger] s.has_poll(id) ==> record_matches(t.poll_at(id), s.poll_at(id)),
        forall|id: Seq<char>, f: Seq<char>| s.spec_voted(id, f) == t.spec_voted(id, f),
{
    assert forall|id: Seq<char>| s.has_poll(id) == t.has_poll(id) by {
        if s.has_poll(id) {
            let i = choose|i: int|
                0 <= i < s.spec_polls().len() && (#[trigger] s.spec_polls()[i]).id_view() == id;
            assert(t.spec_polls()[i].id_view() == id);
        }
        if t.has_poll(id) {
            let i = choose|i: int|
                0 <= i < t.spec_polls().len() && (#[trigger] t.spec_polls()[i]).id_view() == id;
            assert(s.spec_polls()[i].id_view() == id);
        }
    }
    assert forall|id: Seq<char>| #[trigger] s.has_poll(id)
        implies record_matches(t.poll_at(id), s.poll_at(id)) by {
        let i = s.index_of(id);
        assert(t.spec_polls()[i].id_view() == id);
        t.lemma_index_unique(id, t.index_of(id), i);
    }
    assert forall|id: Seq<char>, f: Seq<char>| s.spec_voted(id, f) == t.spec_voted(id, f) by {
        if s.has_poll(id) {
            assert(record_matches(t.poll_at(id), s.poll_at(id)));
        }
    }
}

} // verus!
