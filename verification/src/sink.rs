//! The list of result records that the workers share, and its final order.

use crate::result::{RawResultEntry, TimeResult};
use vstd::prelude::*;

verus! {

/// The mean successful duration of a record in nanoseconds, or `None` for
/// a server that never answered.
pub open spec fn average(e: RawResultEntry) -> Option<nat> {
    match e.avg_duration {
        TimeResult::Succeeded(d) => Some(d@),
        TimeResult::Failed(_) => None,
    }
}

/// Whether a record with mean `a` may stand before one with mean `b`:
/// the shorter mean first, a server that never answered last.
pub open spec fn may_precede(a: Option<nat>, b: Option<nat>) -> bool {
    match (a, b) {
        (Some(x), Some(y)) => x <= y,
        (_, None) => true,
        (None, Some(_)) => false,
    }
}

/// Whether the records are in ascending order of their mean successful
/// duration, with the servers that never answered at the end.
pub open spec fn sorted_by_average(s: Seq<RawResultEntry>) -> bool {
    forall|i: int, j: int|
        0 <= i < j < s.len() ==> may_precede(#[trigger] average(s[i]), #[trigger] average(s[j]))
}

/// The records of `s` whose mean is `mean`, in their order.
pub open spec fn with_average(s: Seq<RawResultEntry>, mean: Option<nat>) -> Seq<RawResultEntry> {
    s.filter(|e: RawResultEntry| average(e) == mean)
}

/// Whether `sorted` is `s` brought into ascending order of the mean with
/// records of equal mean left in the order they had.
pub open spec fn is_stable_sort_of(sorted: Seq<RawResultEntry>, s: Seq<RawResultEntry>) -> bool {
    &&& sorted_by_average(sorted)
    &&& sorted.to_multiset() == s.to_multiset()
    &&& forall|mean: Option<nat>| #[trigger] with_average(sorted, mean) == with_average(s, mean)
}

/// A sequence none of whose elements passes the filter is filtered to nothing.
proof fn lemma_filter_none<A>(s: Seq<A>, p: spec_fn(A) -> bool)
    requires
        forall|i: int| 0 <= i < s.len() ==> !p(#[trigger] s[i]),
    ensures
        s.filter(p) == Seq::<A>::empty(),
    decreases s.len(),
{
    reveal(Seq::filter);
    if s.len() > 0 {
        assert forall|i: int| 0 <= i < s.drop_last().len() implies !p(
            #[trigger] s.drop_last()[i],
        ) by {
            assert(s.drop_last()[i] == s[i]);
        }
        lemma_filter_none(s.drop_last(), p);
    }
}

/// Moving an element towards the front, past elements that the filter
/// treats otherwise than the element, leaves what the filter keeps as it
/// was.
proof fn lemma_move_keeps_filter<A>(s: Seq<A>, to: int, from: int, p: spec_fn(A) -> bool)
    requires
        0 <= to <= from < s.len(),
        p(s[from]) ==> forall|k: int| to <= k < from ==> !p(#[trigger] s[k]),
    ensures
        s.remove(from).insert(to, s[from]).filter(p) == s.filter(p),
{
    reveal(Seq::filter);
    let x = s[from];
    let front = s.subrange(0, to);
    let passed = s.subrange(to, from);
    let back = s.subrange(from + 1, s.len() as int);
    assert(s =~= front + passed + seq![x] + back);
    assert(s.remove(from).insert(to, x) =~= front + seq![x] + passed + back);
    Seq::filter_distributes_over_add(front + passed + seq![x], back, p);
    Seq::filter_distributes_over_add(front + passed, seq![x], p);
    Seq::filter_distributes_over_add(front, passed, p);
    Seq::filter_distributes_over_add(front + seq![x] + passed, back, p);
    Seq::filter_distributes_over_add(front + seq![x], passed, p);
    Seq::filter_distributes_over_add(front, seq![x], p);
    assert(seq![x].drop_last() =~= Seq::<A>::empty());
    assert(Seq::<A>::empty().filter(p) =~= Seq::<A>::empty());
    if p(x) {
        assert forall|k: int| 0 <= k < passed.len() implies !p(#[trigger] passed[k]) by {
            assert(passed[k] == s[to + k]);
        }
        lemma_filter_none(passed, p);
        assert(seq![x].filter(p) =~= seq![x]);
        assert(front.filter(p) + passed.filter(p) + seq![x].filter(p) =~= front.filter(p)
            + seq![x].filter(p) + passed.filter(p));
    } else {
        assert(seq![x].filter(p) =~= Seq::<A>::empty());
        assert(front.filter(p) + passed.filter(p) + seq![x].filter(p) =~= front.filter(p)
            + seq![x].filter(p) + passed.filter(p));
    }
}

/// Whether the record `a` may stand before the record `b`.
pub fn precedes(a: &RawResultEntry, b: &RawResultEntry) -> (r: bool)
    ensures
        r == may_precede(average(*a), average(*b)),
{
    match (&a.avg_duration, &b.avg_duration) {
        (TimeResult::Succeeded(x), TimeResult::Succeeded(y)) => x.as_nanos() <= y.as_nanos(),
        (_, TimeResult::Failed(_)) => true,
        (TimeResult::Failed(_), TimeResult::Succeeded(_)) => false,
    }
}

/// Brings the records into ascending order of their mean successful
/// duration. Servers that never answered go to the end. Records with the
/// same mean keep the order they had.
pub fn sort_result_entries(entries: &mut Vec<RawResultEntry>)
    ensures
        is_stable_sort_of(final(entries)@, old(entries)@),
        final(entries)@.len() == old(entries)@.len(),
{
    let mut i: usize = 0;
    while i < entries.len()
        invariant
            i <= entries.len(),
            entries@.len() == old(entries)@.len(),
            sorted_by_average(entries@.take(i as int)),
            entries@.to_multiset() == old(entries)@.to_multiset(),
            forall|mean: Option<nat>| #[trigger]
                with_average(entries@, mean) == with_average(old(entries)@, mean),
        decreases entries.len() - i,
    {
        let mut j: usize = 0;
        while j < i && precedes(&entries[j], &entries[i])
            invariant
                j <= i < entries.len(),
                forall|k: int|
                    0 <= k < j ==> may_precede(
                        #[trigger] average(entries@[k]),
                        average(entries@[i as int]),
                    ),
            decreases i - j,
        {
            j += 1;
        }
        let ghost before = entries@;
        let ghost x = entries@[i as int];
        proof {
            assert forall|k: int| j <= k < i implies !may_precede(
                #[trigger] average(before[k]),
                average(x),
            ) by {
                assert(before.take(i as int)[j as int] == before[j as int]);
                assert(before.take(i as int)[k] == before[k]);
            }
        }
        if j < i {
            let moved = entries.remove(i);
            entries.insert(j, moved);
        }
        proof {
            assert(entries@ =~= before.remove(i as int).insert(j as int, x));
            assert(entries@.to_multiset() == before.to_multiset()) by {
                broadcast use vstd::multiset::group_multiset_axioms;

                vstd::seq_lib::to_multiset_remove(before, i as int);
                vstd::seq_lib::to_multiset_insert(before.remove(i as int), j as int, x);
                before.to_multiset_ensures();
                assert(before.contains(x));
                assert(before.to_multiset().remove(x).insert(x) =~= before.to_multiset());
            }
            assert forall|mean: Option<nat>| #[trigger]
                with_average(entries@, mean) == with_average(old(entries)@, mean) by {
                let p = |e: RawResultEntry| average(e) == mean;
                lemma_move_keeps_filter(before, j as int, i as int, p);
                assert(with_average(before, mean) == with_average(old(entries)@, mean));
            }
            let next = entries@.take(i + 1);
            assert forall|a: int, b: int| 0 <= a < b < next.len() implies may_precede(
                #[trigger] average(next[a]),
                #[trigger] average(next[b]),
            ) by {
                let prev = before.take(i as int);
                if b < j {
                    assert(next[a] == prev[a] && next[b] == prev[b]);
                } else if b == j {
                    assert(next[a] == before[a]);
                } else if a < j {
                    assert(next[a] == prev[a] && next[b] == prev[b - 1]);
                } else if a == j {
                    assert(next[b] == before[b - 1]);
                } else {
                    assert(next[a] == prev[a - 1] && next[b] == prev[b - 1]);
                }
            }
        }
        i += 1;
    }
    assert(entries@.take(i as int) =~= entries@);
}

/// The records the workers have finished, in the order they came in.
pub struct ResultSink {
    entries: Vec<RawResultEntry>,
}

impl View for ResultSink {
    type V = Seq<RawResultEntry>;

    closed spec fn view(&self) -> Seq<RawResultEntry> {
        self.entries@
    }
}

impl ResultSink {
    /// A list with no records.
    pub fn new() -> (s: ResultSink)
        ensures
            s@ == Seq::<RawResultEntry>::empty(),
    {
        ResultSink { entries: Vec::new() }
    }

    /// Adds a record at the end.
    pub fn push(&mut self, entry: RawResultEntry)
        ensures
            final(self)@ == old(self)@.push(entry),
    {
        self.entries.push(entry);
    }

    /// How many records there are.
    pub fn len(&self) -> (n: usize)
        ensures
            n == self@.len(),
    {
        self.entries.len()
    }

    /// The records in ascending order of their mean successful duration,
    /// servers that never answered at the end, records of equal mean in the
    /// order they came in.
    pub fn into_sorted(self) -> (sorted: Vec<RawResultEntry>)
        ensures
            is_stable_sort_of(sorted@, self@),
            sorted@.len() == self@.len(),
    {
        let mut entries = self.entries;
        sort_result_entries(&mut entries);
        entries
    }
}

} // verus!
