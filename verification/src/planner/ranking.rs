use vstd::prelude::*;

use crate::scheduler::DueDemandCandidate;

verus! {

/// A candidate with the numbers by which it is ordered: the first that differs decides, the
/// smaller number comes first.
#[derive(Debug)]
pub struct RankedCandidate {
    pub candidate: DueDemandCandidate,
    pub rank: Vec<u64>,
}

/// The mathematical content of a ranked candidate.
pub type Ranked = (DueDemandCandidate, Seq<u64>);

impl View for RankedCandidate {
    type V = (DueDemandCandidate, Seq<u64>);

    open spec fn view(&self) -> (DueDemandCandidate, Seq<u64>) {
        (self.candidate, self.rank@)
    }
}

/// The content of a list of ranked candidates.
pub open spec fn ranked_view(ranked: Seq<RankedCandidate>) -> Seq<Ranked> {
    ranked.map_values(|entry: RankedCandidate| entry@)
}

/// Whether the first number in which two ranks differ is smaller on the left.
pub open spec fn ranks_before(left: Seq<u64>, right: Seq<u64>) -> bool {
    exists|i: int|
        0 <= i < left.len() && i < right.len() && left[i] < right[i] && agree(left, right, i)
}

/// Whether the first `n` numbers of two ranks are the same.
pub open spec fn agree(left: Seq<u64>, right: Seq<u64>, n: int) -> bool {
    forall|j: int| 0 <= j < n ==> left[j] == right[j]
}

/// A list with one more candidate, behind all that it does not come before.
pub open spec fn with_ranked(sorted: Seq<Ranked>, entry: Ranked) -> Seq<Ranked>
    decreases sorted.len(),
{
    if sorted.len() == 0 || !ranks_before(entry.1, sorted.last().1) {
        sorted.push(entry)
    } else {
        with_ranked(sorted.drop_last(), entry).push(sorted.last())
    }
}

/// The candidates ordered by rank. Those of equal rank keep their order.
pub open spec fn rank_order(entries: Seq<Ranked>) -> Seq<Ranked>
    decreases entries.len(),
{
    if entries.len() == 0 {
        entries
    } else {
        with_ranked(rank_order(entries.drop_last()), entries.last())
    }
}

/// Whether the first number in which two ranks differ is smaller on the left.
fn comes_before(left: &Vec<u64>, right: &Vec<u64>) -> (before: bool)
    ensures
        before == ranks_before(left@, right@),
{
    let mut i: usize = 0;
    while i < left.len() && i < right.len()
        invariant
            0 <= i <= left@.len(),
            i <= right@.len(),
            agree(left@, right@, i as int),
        decreases left@.len() - i,
    {
        if left[i] < right[i] {
            return true;
        }
        if left[i] > right[i] {
            proof {
                if ranks_before(left@, right@) {
                    let k = choose|k: int|
                        0 <= k < left@.len() && k < right@.len() && left@[k] < right@[k] && agree(
                            left@,
                            right@,
                            k,
                        );
                    assert(k > i || k < i);
                    assert(left@[i as int] == right@[i as int]);
                }
            }
            return false;
        }
        i = i + 1;
    }
    false
}

proof fn lemma_with_ranked_at(sorted: Seq<Ranked>, entry: Ranked, position: int)
    requires
        0 <= position <= sorted.len(),
        forall|j: int| position <= j < sorted.len() ==> ranks_before(entry.1, #[trigger] sorted[j].1),
        position > 0 ==> !ranks_before(entry.1, sorted[position - 1].1),
    ensures
        with_ranked(sorted, entry) == sorted.insert(position, entry),
    decreases sorted.len(),
{
    if position == sorted.len() {
        assert(sorted.insert(position, entry) =~= sorted.push(entry));
    } else {
        assert(ranks_before(entry.1, sorted[sorted.len() - 1].1));
        lemma_with_ranked_at(sorted.drop_last(), entry, position);
        assert(sorted.insert(position, entry) =~= sorted.drop_last().insert(position, entry).push(
            sorted.last(),
        ));
    }
}

/// Puts a candidate into a list, behind all that it does not come before.
pub fn insert_ranked(sorted: &mut Vec<RankedCandidate>, entry: RankedCandidate)
    ensures
        ranked_view(final(sorted)@) == with_ranked(ranked_view(old(sorted)@), entry@),
{
    let ghost view = ranked_view(sorted@);
    let mut position: usize = sorted.len();
    while position > 0 && comes_before(&entry.rank, &sorted[position - 1].rank)
        invariant
            0 <= position <= sorted@.len(),
            view == ranked_view(sorted@),
            forall|j: int|
                position <= j < view.len() ==> ranks_before(entry@.1, #[trigger] view[j].1),
        ensures
            position > 0 ==> !ranks_before(entry@.1, view[position - 1].1),
        decreases position,
    {
        position = position - 1;
    }
    proof {
        lemma_with_ranked_at(view, entry@, position as int);
        assert(ranked_view(sorted@.insert(position as int, entry)) =~= view.insert(
            position as int,
            entry@,
        ));
    }
    sorted.insert(position, entry);
}

// What the order keeps.

proof fn lemma_before_is_strict(left: Seq<u64>, right: Seq<u64>)
    requires
        left.len() == right.len(),
    ensures
        ranks_before(left, right) ==> !ranks_before(right, left),
        !ranks_before(left, right) && !ranks_before(right, left) ==> left == right,
{
    if ranks_before(left, right) && ranks_before(right, left) {
        let i = choose|i: int|
            0 <= i < left.len() && i < right.len() && left[i] < right[i] && agree(left, right, i);
        let j = choose|j: int|
            0 <= j < right.len() && j < left.len() && right[j] < left[j] && agree(right, left, j);
        assert(i < j || j < i || i == j);
        if i < j {
            assert(right[i] == left[i]);
        } else if j < i {
            assert(left[j] == right[j]);
        }
    }
    if left != right {
        lemma_first_difference(left, right, 0);
    }
}

/// Two ranks of equal length that agree up to `from` and differ come one before the other.
proof fn lemma_first_difference(left: Seq<u64>, right: Seq<u64>, from: int)
    requires
        left.len() == right.len(),
        0 <= from <= left.len(),
        agree(left, right, from),
        left != right,
    ensures
        ranks_before(left, right) || ranks_before(right, left),
    decreases left.len() - from,
{
    if from == left.len() {
        assert(left =~= right);
    } else if left[from] == right[from] {
        lemma_first_difference(left, right, from + 1);
    } else if left[from] < right[from] {
        assert(ranks_before(left, right));
    } else {
        assert(agree(right, left, from));
        assert(ranks_before(right, left));
    }
}

proof fn lemma_before_is_transitive(a: Seq<u64>, b: Seq<u64>, c: Seq<u64>)
    requires
        a.len() == b.len(),
        b.len() == c.len(),
        ranks_before(a, b),
        ranks_before(b, c),
    ensures
        ranks_before(a, c),
{
    let i = choose|i: int| 0 <= i < a.len() && i < b.len() && a[i] < b[i] && agree(a, b, i);
    let j = choose|j: int| 0 <= j < b.len() && j < c.len() && b[j] < c[j] && agree(b, c, j);
    let k = if i < j { i } else { j };
    if i < j {
        assert(b[i] == c[i]);
    } else if j < i {
        assert(a[j] == b[j]);
    }
    assert forall|m: int| 0 <= m < k implies a[m] == c[m] by {
        assert(a[m] == b[m]);
        assert(b[m] == c[m]);
    }
    assert(agree(a, c, k));
    assert(a[k] < c[k]);
}

/// Every rank has the same number of numbers.
pub open spec fn same_width(entries: Seq<Ranked>, width: nat) -> bool {
    forall|i: int| 0 <= i < entries.len() ==> (#[trigger] entries[i]).1.len() == width
}

/// No candidate stands behind one that it comes before.
pub open spec fn is_ordered(entries: Seq<Ranked>) -> bool {
    forall|i: int, j: int|
        0 <= i < j < entries.len() ==> !ranks_before((#[trigger] entries[j]).1, (
        #[trigger] entries[i]).1)
}

proof fn lemma_with_ranked(sorted: Seq<Ranked>, entry: Ranked, width: nat)
    requires
        same_width(sorted, width),
        entry.1.len() == width,
        is_ordered(sorted),
    ensures
        is_ordered(with_ranked(sorted, entry)),
        same_width(with_ranked(sorted, entry), width),
        with_ranked(sorted, entry).len() == sorted.len() + 1,
        forall|other: Ranked| #[trigger]
            with_ranked(sorted, entry).contains(other) ==> sorted.contains(other) || other
                == entry,
    decreases sorted.len(),
{
    let result = with_ranked(sorted, entry);
    if sorted.len() == 0 || !ranks_before(entry.1, sorted.last().1) {
        assert forall|i: int, j: int| 0 <= i < j < result.len() implies !ranks_before(
            (#[trigger] result[j]).1,
            (#[trigger] result[i]).1,
        ) by {
            if j == sorted.len() {
                lemma_before_is_strict(sorted.last().1, entry.1);
                if ranks_before(entry.1, sorted[i].1) && i < sorted.len() - 1 {
                    assert(!ranks_before(sorted[sorted.len() - 1].1, sorted[i].1));
                    lemma_before_is_strict(sorted.last().1, sorted[i].1);
                    if ranks_before(sorted.last().1, entry.1) {
                        lemma_before_is_transitive(sorted.last().1, entry.1, sorted[i].1);
                    }
                }
            } else {
                assert(result[i] == sorted[i] && result[j] == sorted[j]);
            }
        }
        assert forall|other: Ranked| #[trigger] result.contains(other) implies sorted.contains(
            other,
        ) || other == entry by {
            let j = result.index_of(other);
            if j < sorted.len() {
                assert(sorted[j] == other);
            }
        }
    } else {
        let rest = sorted.drop_last();
        assert(is_ordered(rest)) by {
            assert forall|i: int, j: int| 0 <= i < j < rest.len() implies !ranks_before(
                (#[trigger] rest[j]).1,
                (#[trigger] rest[i]).1,
            ) by {
                assert(rest[i] == sorted[i] && rest[j] == sorted[j]);
            }
        }
        assert(same_width(rest, width)) by {
            assert forall|i: int| 0 <= i < rest.len() implies (#[trigger] rest[i]).1.len()
                == width by {
                assert(rest[i] == sorted[i]);
            }
        }
        lemma_with_ranked(rest, entry, width);
        let inner = with_ranked(rest, entry);
        assert forall|i: int, j: int| 0 <= i < j < result.len() implies !ranks_before(
            (#[trigger] result[j]).1,
            (#[trigger] result[i]).1,
        ) by {
            if j == inner.len() {
                assert(inner.contains(inner[i]));
                if inner[i] == entry {
                    lemma_before_is_strict(entry.1, sorted.last().1);
                } else {
                    assert(rest.contains(inner[i]));
                    let k = rest.index_of(inner[i]);
                    assert(sorted[k] == inner[i]);
                    assert(!ranks_before(sorted[sorted.len() - 1].1, sorted[k].1));
                }
            } else {
                assert(result[i] == inner[i] && result[j] == inner[j]);
            }
        }
        assert forall|other: Ranked| #[trigger] result.contains(other) implies sorted.contains(
            other,
        ) || other == entry by {
            let j = result.index_of(other);
            if j < inner.len() {
                assert(inner[j] == other);
                assert(inner.contains(other));
                if other != entry {
                    let k = rest.index_of(other);
                    assert(sorted[k] == other);
                }
            } else {
                assert(sorted[sorted.len() - 1] == other);
            }
        }
    }
}

/// In the order of ranks no candidate stands behind one that it comes before.
pub proof fn rank_order_is_ordered(entries: Seq<Ranked>, width: nat)
    requires
        same_width(entries, width),
    ensures
        is_ordered(rank_order(entries)),
        same_width(rank_order(entries), width),
        rank_order(entries).len() == entries.len(),
    decreases entries.len(),
{
    if entries.len() > 0 {
        let rest = entries.drop_last();
        assert(same_width(rest, width)) by {
            assert forall|i: int| 0 <= i < rest.len() implies (#[trigger] rest[i]).1.len()
                == width by {
                assert(rest[i] == entries[i]);
            }
        }
        rank_order_is_ordered(rest, width);
        assert(entries[entries.len() - 1].1.len() == width);
        lemma_with_ranked(rank_order(rest), entries.last(), width);
    }
}

proof fn lemma_with_ranked_multiset(sorted: Seq<Ranked>, entry: Ranked)
    ensures
        with_ranked(sorted, entry).to_multiset() == sorted.to_multiset().insert(entry),
    decreases sorted.len(),
{
    broadcast use vstd::seq_lib::group_to_multiset_ensures;

    if sorted.len() == 0 || !ranks_before(entry.1, sorted.last().1) {
    } else {
        lemma_with_ranked_multiset(sorted.drop_last(), entry);
        assert(sorted =~= sorted.drop_last().push(sorted.last()));
        assert(with_ranked(sorted, entry).to_multiset() =~= sorted.to_multiset().insert(entry));
    }
}

/// The order of ranks holds the same candidates, each as often.
pub proof fn rank_order_keeps_all(entries: Seq<Ranked>)
    ensures
        rank_order(entries).to_multiset() == entries.to_multiset(),
    decreases entries.len(),
{
    broadcast use vstd::seq_lib::group_to_multiset_ensures;

    if entries.len() > 0 {
        rank_order_keeps_all(entries.drop_last());
        lemma_with_ranked_multiset(rank_order(entries.drop_last()), entries.last());
        assert(entries =~= entries.drop_last().push(entries.last()));
    }
}

/// The candidates of one rank, in their order.
pub open spec fn of_rank(entries: Seq<Ranked>, rank: Seq<u64>) -> Seq<Ranked> {
    entries.filter(has_rank(rank))
}

/// Whether a candidate has a rank.
pub open spec fn has_rank(rank: Seq<u64>) -> spec_fn(Ranked) -> bool {
    |entry: Ranked| entry.1 == rank
}

proof fn lemma_with_ranked_stable(sorted: Seq<Ranked>, entry: Ranked, rank: Seq<u64>, width: nat)
    requires
        same_width(sorted, width),
        entry.1.len() == width,
    ensures
        of_rank(with_ranked(sorted, entry), rank) == of_rank(sorted.push(entry), rank),
    decreases sorted.len(),
{
    reveal(Seq::filter);
    if sorted.len() == 0 || !ranks_before(entry.1, sorted.last().1) {
    } else {
        let rest = sorted.drop_last();
        assert(same_width(rest, width)) by {
            assert forall|i: int| 0 <= i < rest.len() implies (#[trigger] rest[i]).1.len()
                == width by {
                assert(rest[i] == sorted[i]);
            }
        }
        lemma_with_ranked_stable(rest, entry, rank, width);
        let inner = with_ranked(rest, entry);
        assert(inner.push(sorted.last()).drop_last() =~= inner);
        assert(sorted.push(entry).drop_last() =~= sorted);
        assert(rest.push(entry).drop_last() =~= rest);
        let pred = has_rank(rank);
        assert(inner.filter(pred) == rest.push(entry).filter(pred));
        assert(inner.push(sorted.last()).filter(pred) == if sorted.last().1 == rank {
            inner.filter(pred).push(sorted.last())
        } else {
            inner.filter(pred)
        });
        assert(sorted.filter(pred) == if sorted.last().1 == rank {
            rest.filter(pred).push(sorted.last())
        } else {
            rest.filter(pred)
        });
        assert(rest.push(entry).filter(pred) == if entry.1 == rank {
            rest.filter(pred).push(entry)
        } else {
            rest.filter(pred)
        });
        assert(sorted.push(entry).filter(pred) == if entry.1 == rank {
            sorted.filter(pred).push(entry)
        } else {
            sorted.filter(pred)
        });
        assert(sorted[sorted.len() - 1].1.len() == width);
        lemma_before_is_strict(entry.1, sorted.last().1);
        assert(entry.1 != sorted.last().1) by {
            if entry.1 == sorted.last().1 {
                assert(ranks_before(entry.1, entry.1));
            }
        }
    }
}

/// Candidates of equal rank keep the order in which they were given.
pub proof fn rank_order_is_stable(entries: Seq<Ranked>, rank: Seq<u64>, width: nat)
    requires
        same_width(entries, width),
    ensures
        of_rank(rank_order(entries), rank) == of_rank(entries, rank),
    decreases entries.len(),
{
    reveal(Seq::filter);
    if entries.len() > 0 {
        let rest = entries.drop_last();
        assert(same_width(rest, width)) by {
            assert forall|i: int| 0 <= i < rest.len() implies (#[trigger] rest[i]).1.len()
                == width by {
                assert(rest[i] == entries[i]);
            }
        }
        rank_order_is_stable(rest, rank, width);
        rank_order_is_ordered(rest, width);
        assert(entries[entries.len() - 1].1.len() == width);
        lemma_with_ranked_stable(rank_order(rest), entries.last(), rank, width);
        assert(rank_order(rest).push(entries.last()).drop_last() =~= rank_order(rest));
    }
}

} // verus!
