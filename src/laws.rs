//! What holds across the driver's operations: every accepted operation is
//! accounted for until its single entry is reported, entries carry the
//! tokens they were submitted with, and the queue bounds behave.
use vstd::multiset::Multiset;
use vstd::prelude::*;

use crate::driver::{
    entry_tokens, harvest, index_of, kernel_outcome, lemma_index_of, tokens_of, DriverState, Entry,
    CANCEL_USER_DATA, ECANCELED,
};
use crate::op::SubmissionEntry;

verus! {

broadcast use vstd::seq_lib::group_to_multiset_ensures;

proof fn lemma_concat3_multiset(a: Seq<usize>, b: Seq<usize>, c: Seq<usize>)
    ensures
        (a + b + c).to_multiset() == a.to_multiset().add(b.to_multiset()).add(c.to_multiset()),
{
    vstd::seq_lib::lemma_multiset_commutative(a + b, c);
    vstd::seq_lib::lemma_multiset_commutative(a, b);
}

/// Tokens in flight before a harvest are those still in flight after it plus
/// those of the entries it reported.
proof fn lemma_harvest_conserves(in_flight: Seq<usize>, cqes: Seq<(usize, i32)>)
    ensures
        in_flight.to_multiset() == harvest(in_flight, cqes).0.to_multiset().add(
            entry_tokens(harvest(in_flight, cqes).1).to_multiset(),
        ),
    decreases cqes.len(),
{
    if cqes.len() == 0 {
        assert(entry_tokens(Seq::<Entry>::empty()) =~= Seq::<usize>::empty());
        assert(in_flight.to_multiset() =~= in_flight.to_multiset().add(Multiset::empty()));
    } else {
        lemma_harvest_conserves(in_flight, cqes.drop_last());
        let (left, reported) = harvest(in_flight, cqes.drop_last());
        let (t, res) = cqes.last();
        let i = index_of(left, t);
        lemma_index_of(left, t);
        if t != CANCEL_USER_DATA && i >= 0 {
            let e = Entry::spec_new(t, kernel_outcome(res));
            Entry::lemma_spec_new(t, kernel_outcome(res));
            assert(entry_tokens(reported.push(e)) =~= entry_tokens(reported).push(t));
            assert(left.remove(i).to_multiset() == left.to_multiset().remove(t));
            assert(left.to_multiset().count(t) > 0);
            assert(left.to_multiset() =~= left.to_multiset().remove(t).insert(t));
            assert(in_flight.to_multiset() =~= left.remove(i).to_multiset().add(
                entry_tokens(reported.push(e)).to_multiset(),
            ));
        }
    }
}

/// Exactly-once accounting, harvest step: the tokens outstanding before a
/// harvest are those outstanding after it plus those of the entries it
/// reported. So no entry is reported for an operation that was not
/// outstanding, and each report retires one acceptance.
pub proof fn lemma_completion_accounting(s: DriverState, cqes: Seq<(usize, i32)>)
    ensures
        s.outstanding() == s.completed(cqes).outstanding().add(
            entry_tokens(s.reported(cqes)).to_multiset(),
        ),
{
    let h = harvest(s.in_flight, cqes);
    lemma_harvest_conserves(s.in_flight, cqes);
    let q = tokens_of(s.queued);
    let er = entry_tokens(s.ready);
    lemma_concat3_multiset(q, s.in_flight, er);
    assert(entry_tokens(Seq::<Entry>::empty()) =~= Seq::<usize>::empty());
    lemma_concat3_multiset(q, h.0, Seq::<usize>::empty());
    assert(entry_tokens(s.reported(cqes)) =~= er + entry_tokens(h.1));
    vstd::seq_lib::lemma_multiset_commutative(er, entry_tokens(h.1));
    assert(s.completed(cqes).tokens() == q + h.0 + Seq::<usize>::empty());
    assert(s.outstanding() =~= s.completed(cqes).outstanding().add(
        entry_tokens(s.reported(cqes)).to_multiset(),
    ));
}

/// Exactly-once accounting, push step: pushing records makes their tokens
/// outstanding, once each.
pub proof fn lemma_push_accounting(s: DriverState, recs: Seq<SubmissionEntry>)
    ensures
        s.push_all(recs).outstanding() == s.outstanding().add(tokens_of(recs).to_multiset()),
{
    let q = tokens_of(s.queued);
    let er = entry_tokens(s.ready);
    assert(tokens_of(s.queued + recs) =~= q + tokens_of(recs));
    lemma_concat3_multiset(q, s.in_flight, er);
    lemma_concat3_multiset(q + tokens_of(recs), s.in_flight, er);
    vstd::seq_lib::lemma_multiset_commutative(q, tokens_of(recs));
    assert(s.push_all(recs).outstanding() =~= s.outstanding().add(tokens_of(recs).to_multiset()));
}

/// Exactly-once accounting, submit step: flushing the submission queue
/// changes no operation's count.
pub proof fn lemma_submit_accounting(s: DriverState)
    ensures
        s.submitted().outstanding() == s.outstanding(),
{
    let q = tokens_of(s.queued);
    let er = entry_tokens(s.ready);
    assert(tokens_of(Seq::<SubmissionEntry>::empty()) =~= Seq::<usize>::empty());
    assert(s.submitted().tokens() =~= Seq::<usize>::empty() + (s.in_flight + q) + er);
    lemma_concat3_multiset(q, s.in_flight, er);
    lemma_concat3_multiset(Seq::<usize>::empty(), s.in_flight + q, er);
    vstd::seq_lib::lemma_multiset_commutative(s.in_flight, q);
    assert(s.submitted().outstanding() =~= s.outstanding());
}

/// Exactly-once accounting, cancel step: a cancel changes no operation's
/// count; one removed from the queue is outstanding through its entry.
pub proof fn lemma_cancel_accounting(s: DriverState, t: usize)
    requires
        s.cancel(t) is Some,
    ensures
        s.cancel(t)->Some_0.outstanding() == s.outstanding(),
{
    let q = tokens_of(s.queued);
    let er = entry_tokens(s.ready);
    let i = index_of(q, t);
    lemma_index_of(q, t);
    if i >= 0 {
        let e = Entry::spec_new(t, Err(ECANCELED));
        Entry::lemma_spec_new(t, Err(ECANCELED));
        assert(tokens_of(s.queued.remove(i)) =~= q.remove(i));
        assert(entry_tokens(s.ready.push(e)) =~= er.push(t));
        lemma_concat3_multiset(q, s.in_flight, er);
        lemma_concat3_multiset(q.remove(i), s.in_flight, er.push(t));
        assert(q.to_multiset().count(t) > 0);
        assert(q.to_multiset() =~= q.to_multiset().remove(t).insert(t));
        assert(s.cancel(t)->Some_0.outstanding() =~= s.outstanding());
    } else {
        assert(s.cancel(t)->Some_0.tokens() == s.tokens());
    }
}

/// Token fidelity: every entry a harvest reports from the kernel carries the
/// token and the outcome of one of the kernel's completions.
pub proof fn lemma_token_fidelity(in_flight: Seq<usize>, cqes: Seq<(usize, i32)>, k: int)
    requires
        0 <= k < harvest(in_flight, cqes).1.len(),
    ensures
        exists|j: int|
            0 <= j < cqes.len() && (#[trigger] cqes[j]).0 == harvest(in_flight, cqes).1[k].token()
                && harvest(in_flight, cqes).1[k].outcome() == kernel_outcome(cqes[j].1),
    decreases cqes.len(),
{
    let (left, reported) = harvest(in_flight, cqes.drop_last());
    let (t, res) = cqes.last();
    if k < reported.len() {
        lemma_token_fidelity(in_flight, cqes.drop_last(), k);
        let j = choose|j: int|
            0 <= j < cqes.drop_last().len() && (#[trigger] cqes.drop_last()[j]).0
                == reported[k].token() && reported[k].outcome() == kernel_outcome(
                cqes.drop_last()[j].1,
            );
        assert(cqes[j] == cqes.drop_last()[j]);
    } else {
        Entry::lemma_spec_new(t, kernel_outcome(res));
        let j = cqes.len() - 1;
        assert(cqes[j] == cqes.last());
    }
}

/// A full queue frees up: after the submission queue is flushed, and
/// whatever the kernel reports, a push finds a free slot again.
pub proof fn lemma_repush_after_submit(s: DriverState, cqes: Seq<(usize, i32)>)
    requires
        s.wf(),
    ensures
        s.submitted().completed(cqes).wf(),
        s.submitted().completed(cqes).capacity_left() == s.capacity,
        s.submitted().completed(cqes).capacity_left() > 0,
{
}

/// Cancellation completes: an operation still in the submission queue when
/// it is cancelled is reported as cancelled by the next harvest, whatever
/// the kernel reports.
pub proof fn lemma_cancel_reported(s: DriverState, t: usize, cqes: Seq<(usize, i32)>)
    requires
        s.wf(),
        tokens_of(s.queued).contains(t),
    ensures
        s.cancel(t) is Some,
        s.cancel(t)->Some_0.reported(cqes).contains(Entry::spec_new(t, Err(ECANCELED))),
{
    lemma_index_of(tokens_of(s.queued), t);
    let s1 = s.cancel(t)->Some_0;
    let n = s.ready.len() as int;
    assert(s1.reported(cqes)[n] == Entry::spec_new(t, Err(ECANCELED)));
}

/// The state after harvesting each batch of kernel completions in turn.
pub open spec fn completed_all(s: DriverState, batches: Seq<Seq<(usize, i32)>>) -> DriverState
    decreases batches.len(),
{
    if batches.len() == 0 {
        s
    } else {
        completed_all(s, batches.drop_last()).completed(batches.last())
    }
}

/// The tokens of every entry reported while harvesting each batch in turn.
pub open spec fn reported_all(s: DriverState, batches: Seq<Seq<(usize, i32)>>) -> Seq<usize>
    decreases batches.len(),
{
    if batches.len() == 0 {
        Seq::empty()
    } else {
        reported_all(s, batches.drop_last()) + entry_tokens(
            completed_all(s, batches.drop_last()).reported(batches.last()),
        )
    }
}

/// Exactly-once accounting over any number of harvests: the tokens
/// outstanding at the start are those still outstanding at the end plus
/// those of every entry reported on the way. An operation accepted once is
/// reported at most once, and is reported unless it is still outstanding.
pub proof fn lemma_exactly_once(s: DriverState, batches: Seq<Seq<(usize, i32)>>)
    ensures
        s.outstanding() == completed_all(s, batches).outstanding().add(
            reported_all(s, batches).to_multiset(),
        ),
    decreases batches.len(),
{
    if batches.len() == 0 {
        assert(reported_all(s, batches) =~= Seq::<usize>::empty());
        assert(s.outstanding() =~= s.outstanding().add(Multiset::empty()));
    } else {
        let prev = completed_all(s, batches.drop_last());
        lemma_exactly_once(s, batches.drop_last());
        lemma_completion_accounting(prev, batches.last());
        vstd::seq_lib::lemma_multiset_commutative(
            reported_all(s, batches.drop_last()),
            entry_tokens(prev.reported(batches.last())),
        );
        assert(s.outstanding() =~= completed_all(s, batches).outstanding().add(
            reported_all(s, batches).to_multiset(),
        ));
    }
}

} // verus!
