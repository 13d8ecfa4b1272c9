use vstd::prelude::*;

use crate::ids::LookupId;
use crate::planner::crawl::LookupState;
use crate::runtime::ledger::{
    find, has_other_id, LedgerView, LookupPhase, RuntimeLookup, RuntimeRequest,
};

verus! {

/// Whether a ledger holds a lookup.
pub open spec fn holds(ledger: LedgerView, lookup: RuntimeLookup) -> bool {
    ledger.lookups.contains(lookup)
}

/// Whether a ledger holds some lookup with an id.
pub open spec fn holds_id(ledger: LedgerView, lookup_id: LookupId) -> bool {
    exists|lookup: RuntimeLookup| #[trigger]
        holds(ledger, lookup) && lookup.lookup_id == lookup_id
}

proof fn lemma_find(lookups: Seq<RuntimeLookup>, lookup_id: LookupId)
    ensures
        match find(lookups, lookup_id) {
            Some(lookup) => lookups.contains(lookup) && lookup.lookup_id == lookup_id,
            None => forall|lookup: RuntimeLookup| #[trigger]
                lookups.contains(lookup) ==> lookup.lookup_id != lookup_id,
        },
    decreases lookups.len(),
{
    if lookups.len() > 0 {
        let rest = lookups.drop_first();
        lemma_find(rest, lookup_id);
        assert(lookups.contains(lookups[0]));
        if lookups[0].lookup_id != lookup_id {
            match find(rest, lookup_id) {
                Some(lookup) => {
                    let i = rest.index_of(lookup);
                    assert(lookups[i + 1] == lookup);
                },
                None => {
                    assert forall|lookup: RuntimeLookup| #[trigger]
                        lookups.contains(lookup) implies lookup.lookup_id != lookup_id by {
                        let i = lookups.index_of(lookup);
                        if i > 0 {
                            assert(rest[i - 1] == lookup);
                            assert(rest.contains(lookup));
                        }
                    }
                },
            }
        }
    }
}

proof fn lemma_without(ledger: LedgerView, lookup_id: LookupId, lookup: RuntimeLookup)
    ensures
        holds(ledger.without(lookup_id), lookup) <==> holds(ledger, lookup) && lookup.lookup_id
            != lookup_id,
{
    let other = has_other_id(lookup_id);
    let kept = ledger.lookups.filter(other);
    if kept.contains(lookup) {
        ledger.lookups.lemma_filter_pred(other, kept.index_of(lookup));
        ledger.lookups.lemma_filter_contains_rev(other, lookup);
    }
    if ledger.lookups.contains(lookup) && other(lookup) {
        ledger.lookups.lemma_filter_contains(other, ledger.lookups.index_of(lookup));
    }
}

/// A lookup that is found is one that is there under its id, and one that is there is found.
pub proof fn lookups_are_found_by_id(ledger: LedgerView, lookup_id: LookupId)
    ensures
        match ledger.get(lookup_id) {
            Some(lookup) => holds(ledger, lookup) && lookup.lookup_id == lookup_id,
            None => !holds_id(ledger, lookup_id),
        },
{
    lemma_find(ledger.lookups, lookup_id);
}

/// Ending a lookup takes it out, leaves all others, and asks the runtime to end it, known or not.
pub proof fn ending_takes_out_one(ledger: LedgerView, lookup_id: LookupId, lookup: RuntimeLookup)
    ensures
        ({
            let after = ledger.cancelled(lookup_id);
            &&& holds(after, lookup) <==> holds(ledger, lookup) && lookup.lookup_id != lookup_id
            &&& after.requests == ledger.requests.push(RuntimeRequest::Cancel(lookup_id))
        }),
{
    lemma_without(ledger, lookup_id, lookup);
}

/// Ending several lookups takes out exactly these, and asks the runtime to end each, in their order.
pub proof fn ending_takes_out_all(
    ledger: LedgerView,
    lookup_ids: Seq<LookupId>,
    lookup: RuntimeLookup,
)
    ensures
        ({
            let after = ledger.cancelled_all(lookup_ids);
            &&& holds(after, lookup) <==> holds(ledger, lookup) && !lookup_ids.contains(
                lookup.lookup_id,
            )
            &&& after.requests.len() == ledger.requests.len() + lookup_ids.len()
            &&& forall|i: int|
                0 <= i < lookup_ids.len() ==> after.requests[ledger.requests.len() + i]
                    == RuntimeRequest::Cancel(#[trigger] lookup_ids[i])
        }),
    decreases lookup_ids.len(),
{
    if lookup_ids.len() > 0 {
        let rest = lookup_ids.drop_last();
        ending_takes_out_all(ledger, rest, lookup);
        lemma_without(ledger.cancelled_all(rest), lookup_ids.last(), lookup);
        assert(lookup_ids[lookup_ids.len() - 1] == lookup_ids.last());
        if rest.contains(lookup.lookup_id) {
            assert(lookup_ids[rest.index_of(lookup.lookup_id)] == lookup.lookup_id);
        }
        if lookup_ids.contains(lookup.lookup_id) && lookup_ids.last() != lookup.lookup_id {
            assert(rest[lookup_ids.index_of(lookup.lookup_id)] == lookup.lookup_id);
        }
        let after = ledger.cancelled_all(lookup_ids);
        assert forall|i: int| 0 <= i < lookup_ids.len() implies after.requests[
        ledger.requests.len() + i] == RuntimeRequest::Cancel(#[trigger] lookup_ids[i]) by {
            if i < rest.len() {
                assert(rest[i] == lookup_ids[i]);
            }
        }
    }
}

/// Parking lookups takes out exactly those that are asked for, and keeps of each that was there its
/// id, its family and its progress.
pub proof fn parking_keeps_what_it_takes_out(
    ledger: LedgerView,
    lookup_ids: Seq<LookupId>,
    lookup: RuntimeLookup,
)
    ensures
        ({
            let (after, states) = ledger.parked_all(lookup_ids);
            &&& holds(after, lookup) <==> holds(ledger, lookup) && !lookup_ids.contains(
                lookup.lookup_id,
            )
            &&& holds(ledger, lookup) && lookup_ids.contains(lookup.lookup_id) ==> exists|i: int|
                0 <= i < states.len() && (#[trigger] states[i]).lookup_id == lookup.lookup_id
            &&& forall|i: int|
                0 <= i < states.len() ==> exists|taken: RuntimeLookup|
                    #![trigger holds(ledger, taken)]
                    holds(ledger, taken) && lookup_ids.contains(taken.lookup_id)
                        && taken.lookup_id == (#[trigger] states[i]).lookup_id && taken.family
                        == states[i].family && taken.quality == states[i].quality
        }),
    decreases lookup_ids.len(),
{
    let (after, states) = ledger.parked_all(lookup_ids);
    if lookup_ids.len() > 0 {
        let rest = lookup_ids.drop_last();
        let last = lookup_ids.last();
        let (before, earlier) = ledger.parked_all(rest);
        parking_keeps_what_it_takes_out(ledger, rest, lookup);
        lemma_without(before, last, lookup);
        lemma_find(before.lookups, last);
        assert(lookup_ids[lookup_ids.len() - 1] == last);
        assert forall|id: LookupId| rest.contains(id) implies lookup_ids.contains(id) by {
            assert(lookup_ids[rest.index_of(id)] == id);
        }
        if lookup_ids.contains(lookup.lookup_id) && last != lookup.lookup_id {
            assert(rest[lookup_ids.index_of(lookup.lookup_id)] == lookup.lookup_id);
        }
        assert forall|i: int| 0 <= i < earlier.len() implies states[i] == earlier[i] by {}
        if holds(ledger, lookup) && lookup_ids.contains(lookup.lookup_id) {
            if rest.contains(lookup.lookup_id) {
                let i = choose|i: int|
                    0 <= i < earlier.len() && (#[trigger] earlier[i]).lookup_id
                        == lookup.lookup_id;
                assert(states[i].lookup_id == lookup.lookup_id);
            } else {
                assert(before.lookups.contains(lookup));
                assert(states[earlier.len() as int].lookup_id == last);
            }
        }
        assert forall|i: int| 0 <= i < states.len() implies exists|taken: RuntimeLookup|
            #![trigger holds(ledger, taken)]
            holds(ledger, taken) && lookup_ids.contains(taken.lookup_id) && taken.lookup_id == (
            #[trigger] states[i]).lookup_id && taken.family == states[i].family && taken.quality
                == states[i].quality by {
            if i < earlier.len() {
                assert(states[i] == earlier[i]);
                let taken = choose|taken: RuntimeLookup|
                    #![trigger holds(ledger, taken)]
                    holds(ledger, taken) && rest.contains(taken.lookup_id) && taken.lookup_id
                        == earlier[i].lookup_id && taken.family == earlier[i].family
                        && taken.quality == earlier[i].quality;
                assert(holds(ledger, taken));
            } else {
                let taken = before.get(last).unwrap();
                parking_keeps_what_it_takes_out(ledger, rest, taken);
                assert(holds(before, taken));
                assert(holds(ledger, taken));
            }
        }
    }
}

/// Parking a lookup that is there asks the runtime for that; one that is not there changes nothing.
pub proof fn parking_asks_the_runtime(ledger: LedgerView, lookup_id: LookupId)
    ensures
        ({
            let (after, states) = ledger.parked_all(seq![lookup_id]);
            let found = ledger.get(lookup_id);
            &&& found.is_some() ==> after.requests == ledger.requests.push(
                RuntimeRequest::Park(lookup_id),
            )
            &&& found.is_some() ==> states =~= seq![
                LookupState {
                    lookup_id: found.unwrap().lookup_id,
                    family: found.unwrap().family,
                    quality: found.unwrap().quality,
                },
            ]
            &&& found.is_none() ==> after == ledger && states.len() == 0
        }),
{
    let ids = seq![lookup_id];
    assert(ids.drop_last() =~= Seq::<LookupId>::empty());
    reveal_with_fuel(LedgerView::parked_all, 2);
}

/// Doing with several lookups is doing so with each, one after the other: pausing gives the ids of
/// those that ran, ending those that drain gives what is kept of them.
pub proof fn lookups_are_taken_in_turn(
    ledger: LedgerView,
    lookup_ids: Seq<LookupId>,
    lookup_id: LookupId,
)
    ensures
        ({
            let (before, paused) = ledger.paused_all(lookup_ids);
            let (after, more) = ledger.paused_all(lookup_ids.push(lookup_id));
            let found = before.get(lookup_id);
            let runs = found.is_some() && found.unwrap().phase == LookupPhase::Active;
            &&& after == before.paused(lookup_id)
            &&& more == if runs {
                paused.push(lookup_id)
            } else {
                paused
            }
        }),
        ({
            let (before, kept) = ledger.finished_all(lookup_ids);
            let (after, more) = ledger.finished_all(lookup_ids.push(lookup_id));
            let found = before.get(lookup_id);
            let drains = found.is_some() && found.unwrap().phase == LookupPhase::Draining;
            &&& after == before.finished(lookup_id)
            &&& more.len() == kept.len() + if drains {
                1nat
            } else {
                0nat
            }
            &&& drains ==> more.last().lookup_id == found.unwrap().lookup_id && more.last().family
                == found.unwrap().family && more.last().quality == found.unwrap().quality
        }),
{
    assert(lookup_ids.push(lookup_id).drop_last() =~= lookup_ids);
}

/// Pausing a lookup that runs makes it drain and asks the runtime for that. It changes no other
/// lookup, and nothing where the lookup does not run.
pub proof fn pausing_changes_one(ledger: LedgerView, lookup_id: LookupId, i: int)
    requires
        0 <= i < ledger.lookups.len(),
    ensures
        ({
            let after = ledger.paused(lookup_id);
            let found = ledger.get(lookup_id);
            let runs = found.is_some() && found.unwrap().phase == LookupPhase::Active;
            let (lookup, now) = (ledger.lookups[i], after.lookups[i]);
            &&& after.lookups.len() == ledger.lookups.len()
            &&& runs && lookup.lookup_id == lookup_id ==> now.phase == LookupPhase::Draining
            &&& lookup.lookup_id != lookup_id ==> now == lookup
            &&& now.lookup_id == lookup.lookup_id && now.family == lookup.family && now.quality
                == lookup.quality
            &&& runs ==> after.requests == ledger.requests.push(RuntimeRequest::Pause(lookup_id))
            &&& !runs ==> after == ledger
        }),
{
}

/// Ending a drained lookup takes it out, asks the runtime for that, and touches no other; one that
/// does not drain stays.
pub proof fn only_drained_lookups_are_finished(
    ledger: LedgerView,
    lookup_id: LookupId,
    lookup: RuntimeLookup,
)
    ensures
        ({
            let after = ledger.finished(lookup_id);
            let found = ledger.get(lookup_id);
            let drains = found.is_some() && found.unwrap().phase == LookupPhase::Draining;
            &&& drains ==> (holds(after, lookup) <==> holds(ledger, lookup) && lookup.lookup_id
                != lookup_id)
            &&& drains ==> after.requests == ledger.requests.push(
                RuntimeRequest::FinishDrained(lookup_id),
            )
            &&& !drains ==> after == ledger
        }),
{
    lemma_without(ledger, lookup_id, lookup);
}

/// What is kept of drained lookups: of each that drained its id, its family and its progress.
pub proof fn finishing_keeps_what_it_takes_out(ledger: LedgerView, lookup_id: LookupId)
    ensures
        ({
            let (after, states) = ledger.finished_all(seq![lookup_id]);
            let found = ledger.get(lookup_id);
            let drains = found.is_some() && found.unwrap().phase == LookupPhase::Draining;
            &&& after == ledger.finished(lookup_id)
            &&& drains ==> states.len() == 1 && states[0] == (LookupState {
                lookup_id: found.unwrap().lookup_id,
                family: found.unwrap().family,
                quality: found.unwrap().quality,
            })
            &&& !drains ==> states.len() == 0
        }),
{
    let ids = seq![lookup_id];
    assert(ids.drop_last() =~= Seq::<LookupId>::empty());
    reveal_with_fuel(LedgerView::finished_all, 2);
}

/// The progress of one more lookup adds to each sum; a lookup that is not there adds nothing.
pub proof fn progress_adds_up(ledger: LedgerView, lookup_ids: Seq<LookupId>, lookup_id: LookupId)
    ensures
        ({
            let before = ledger.quality_of(lookup_ids);
            let after = ledger.quality_of(lookup_ids.push(lookup_id));
            let nothing = ledger.quality_of(Seq::<LookupId>::empty());
            let found = ledger.get(lookup_id);
            let more = found.unwrap().quality;
            &&& nothing.inflight_len == 0 && nothing.visited_len == 0 && nothing.frontier_len == 0
            &&& nothing.eligible_responder_count == 0 && nothing.received_peer_count == 0
            &&& found.is_none() ==> after == before
            &&& found.is_some() && before.inflight_len + more.inflight_len <= usize::MAX
                ==> after.inflight_len == before.inflight_len + more.inflight_len
            &&& found.is_some() && before.visited_len + more.visited_len <= usize::MAX
                ==> after.visited_len == before.visited_len + more.visited_len
            &&& found.is_some() && before.frontier_len + more.frontier_len <= usize::MAX
                ==> after.frontier_len == before.frontier_len + more.frontier_len
            &&& found.is_some() && before.eligible_responder_count + more.eligible_responder_count
                <= usize::MAX ==> after.eligible_responder_count == before.eligible_responder_count
                + more.eligible_responder_count
            &&& found.is_some() && before.received_peer_count + more.received_peer_count
                <= usize::MAX ==> after.received_peer_count == before.received_peer_count
                + more.received_peer_count
        }),
{
    assert(lookup_ids.push(lookup_id).drop_last() =~= lookup_ids);
}

/// Nothing is outstanding exactly where no lookup that is there has a query in flight.
pub proof fn nothing_outstanding_without_queries(ledger: LedgerView, lookup_ids: Seq<LookupId>)
    ensures
        ledger.settled(lookup_ids) <==> !exists|i: int|
            0 <= i < lookup_ids.len() && {
                let found = ledger.get(#[trigger] lookup_ids[i]);
                found.is_some() && found.unwrap().quality.inflight_len > 0
            },
{
    if !ledger.settled(lookup_ids) {
        let i = choose|i: int|
            0 <= i < lookup_ids.len() && match ledger.get(#[trigger] lookup_ids[i]) {
                Some(lookup) => lookup.quality.inflight_len != 0,
                None => false,
            };
        assert(ledger.get(lookup_ids[i]).is_some());
    }
}

} // verus!
