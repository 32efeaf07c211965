//! Flattening and cutting: many lists of items become one flat list with a
//! record of how many items each list had, and a flat list of results is
//! cut back into one segment per list by that record.

use vstd::prelude::*;

verus! {

/// The items of all submissions of a batch, in the order of the submissions.
pub open spec fn flattened<T>(batch: Seq<Seq<T>>) -> Seq<T>
    decreases batch.len(),
{
    if batch.len() == 0 {
        Seq::empty()
    } else {
        flattened(batch.drop_last()) + batch.last()
    }
}

/// The number of items of each submission.
pub open spec fn counts_of<T>(batch: Seq<Seq<T>>) -> Seq<int> {
    Seq::new(batch.len(), |i: int| batch[i].len() as int)
}

/// The sum of the counts.
pub open spec fn total(counts: Seq<int>) -> int
    decreases counts.len(),
{
    if counts.len() == 0 {
        0
    } else {
        total(counts.drop_last()) + counts.last()
    }
}

/// Where the segment of submission `i` starts in the flat list: the number of
/// items of the submissions before it.
pub open spec fn offset(counts: Seq<int>, i: int) -> int {
    total(counts.take(i))
}

/// The segment of submission `i`: as many items as it handed in, from where
/// the segments before it end.
pub open spec fn segment<T>(flat: Seq<T>, counts: Seq<int>, i: int) -> Seq<T> {
    flat.subrange(offset(counts, i), offset(counts, i) + counts[i])
}

/// The flat list cut into one segment per submission.
pub open spec fn segments<T>(flat: Seq<T>, counts: Seq<int>) -> Seq<Seq<T>> {
    Seq::new(counts.len(), |i: int| segment(flat, counts, i))
}

/// What a list of lists holds.
pub open spec fn nested_view<T>(lists: Seq<Vec<T>>) -> Seq<Seq<T>> {
    Seq::new(lists.len(), |i: int| lists[i]@)
}

/// The counts as numbers.
pub open spec fn counts_view(counts: Seq<usize>) -> Seq<int> {
    Seq::new(counts.len(), |i: int| counts[i] as int)
}

/// Whether no count is negative.
pub open spec fn natural(counts: Seq<int>) -> bool {
    forall|i: int| 0 <= i < counts.len() ==> 0 <= #[trigger] counts[i]
}

/// A total of counts is not negative.
pub proof fn lemma_total_nonnegative(counts: Seq<int>)
    requires
        natural(counts),
    ensures
        0 <= total(counts),
    decreases counts.len(),
{
    if counts.len() > 0 {
        lemma_total_nonnegative(counts.drop_last());
    }
}

/// Offsets are sums of counts: they start at zero, grow by the count of each
/// submission and end at the total.
pub proof fn lemma_offsets(counts: Seq<int>, i: int)
    requires
        natural(counts),
        0 <= i <= counts.len(),
    ensures
        0 <= offset(counts, i) <= total(counts),
        i < counts.len() ==> offset(counts, i + 1) == offset(counts, i) + counts[i],
        offset(counts, 0) == 0,
        offset(counts, counts.len() as int) == total(counts),
    decreases counts.len() - i,
{
    assert(counts.take(counts.len() as int) =~= counts);
    lemma_total_nonnegative(counts.take(i));
    if i < counts.len() {
        assert(counts.take(i + 1).drop_last() =~= counts.take(i));
        lemma_offsets(counts, i + 1);
    }
}

/// The flat list holds as many items as the submissions together.
pub proof fn lemma_lengths<T>(batch: Seq<Seq<T>>)
    ensures
        flattened(batch).len() == total(counts_of(batch)),
    decreases batch.len(),
{
    if batch.len() > 0 {
        lemma_lengths(batch.drop_last());
        assert(counts_of(batch).drop_last() =~= counts_of(batch.drop_last()));
    }
}

/// The items of the first `i` submissions come first in the flat list, which
/// holds as many items as the submissions together.
pub proof fn lemma_flattened<T>(batch: Seq<Seq<T>>, i: int)
    requires
        0 <= i <= batch.len(),
    ensures
        flattened(batch.take(i)).len() == offset(counts_of(batch), i),
        flattened(batch.take(i)) == flattened(batch).subrange(0, offset(counts_of(batch), i)),
        flattened(batch).len() == total(counts_of(batch)),
    decreases batch.len() - i,
{
    let counts = counts_of(batch);
    lemma_offsets(counts, i);
    lemma_lengths(batch.take(i));
    lemma_lengths(batch);
    if i < batch.len() {
        lemma_flattened(batch, i + 1);
        lemma_offsets(counts, i + 1);
        assert(batch.take(i + 1).drop_last() =~= batch.take(i));
        let shorter = flattened(batch.take(i));
        let longer = flattened(batch.take(i + 1));
        assert forall|k: int| 0 <= k < shorter.len() implies shorter[k] == flattened(batch)[k] by {
            assert(shorter[k] == longer[k]);
        }
    } else {
        assert(batch.take(i) =~= batch);
    }
}

/// Records the number of items of each submission and moves all items into
/// one flat list, in the order of the submissions.
pub fn flatten<E>(batch: Vec<Vec<E>>) -> (out: (Vec<usize>, Vec<E>))
    ensures
        counts_view(out.0@) == counts_of(nested_view(batch@)),
        out.1@ == flattened(nested_view(batch@)),
{
    let ghost given = nested_view(batch@);
    let mut batch = batch;
    let mut counts: Vec<usize> = Vec::new();
    let mut flat: Vec<E> = Vec::new();
    let mut i: usize = 0;
    while i < batch.len()
        invariant
            i <= batch.len(),
            batch.len() == given.len(),
            forall|k: int| i <= k < batch.len() ==> (#[trigger] batch[k])@ == given[k],
            counts.len() == i,
            forall|k: int| 0 <= k < i ==> #[trigger] counts[k] == given[k].len(),
            flat@ == flattened(given.take(i as int)),
        decreases batch.len() - i,
    {
        counts.push(batch[i].len());
        flat.append(&mut batch[i]);
        proof {
            assert(given.take(i + 1).drop_last() =~= given.take(i as int));
        }
        i += 1;
    }
    assert(given.take(i as int) =~= given);
    (counts, flat)
}

/// Cuts the flat results into one segment per submission by the recorded
/// counts, in the order of the submissions. Results beyond what the counts
/// cover belong to nobody and are dropped.
pub fn reassemble<R>(flat_results: Vec<R>, counts: &Vec<usize>) -> (cut: Vec<Vec<R>>)
    requires
        total(counts_view(counts@)) <= flat_results.len(),
    ensures
        nested_view(cut@) == segments(flat_results@, counts_view(counts@)),
{
    let ghost flat = flat_results@;
    let ghost sizes = counts_view(counts@);
    let mut rest = flat_results;
    let mut sum: usize = 0;
    let mut i: usize = 0;
    proof {
        lemma_offsets(sizes, 0);
    }
    while i < counts.len()
        invariant
            i <= counts.len(),
            sizes == counts_view(counts@),
            natural(sizes),
            sum == offset(sizes, i as int),
            total(sizes) <= flat.len(),
            flat.len() <= usize::MAX,
        decreases counts.len() - i,
    {
        proof {
            lemma_offsets(sizes, i as int);
            lemma_offsets(sizes, i + 1);
        }
        sum = sum + counts[i];
        i += 1;
    }
    proof {
        lemma_offsets(sizes, counts.len() as int);
    }
    rest.truncate(sum);
    let mut reversed: Vec<Vec<R>> = Vec::new();
    let mut end: usize = sum;
    while i > 0
        invariant
            i <= counts.len(),
            sizes == counts_view(counts@),
            natural(sizes),
            total(sizes) <= flat.len(),
            end == offset(sizes, i as int),
            rest@ == flat.subrange(0, end as int),
            reversed.len() == counts.len() - i,
            forall|k: int|
                0 <= k < reversed.len() ==> (#[trigger] reversed[k])@ == segment(
                    flat,
                    sizes,
                    counts.len() - 1 - k,
                ),
        decreases i,
    {
        i -= 1;
        proof {
            lemma_offsets(sizes, i as int);
            lemma_offsets(sizes, i + 1);
        }
        let start: usize = end - counts[i];
        let tail = rest.split_off(start);
        reversed.push(tail);
        end = start;
    }
    let ghost backwards = nested_view(reversed@);
    let mut cut: Vec<Vec<R>> = Vec::new();
    while reversed.len() > 0
        invariant
            reversed.len() + cut.len() == counts.len(),
            backwards.len() == counts.len(),
            sizes.len() == counts.len(),
            forall|k: int|
                0 <= k < backwards.len() ==> #[trigger] backwards[k] == segment(
                    flat,
                    sizes,
                    counts.len() - 1 - k,
                ),
            forall|k: int| 0 <= k < reversed.len() ==> (#[trigger] reversed[k])@ == backwards[k],
            forall|k: int| 0 <= k < cut.len() ==> (#[trigger] cut[k])@ == segment(flat, sizes, k),
        decreases reversed.len(),
    {
        match reversed.pop() {
            Some(next) => {
                cut.push(next);
            },
            None => {},
        }
    }
    cut
}

/// Whether `available` results are enough for the recorded counts.
pub fn covers(counts: &Vec<usize>, available: usize) -> (ok: bool)
    ensures
        ok == (total(counts_view(counts@)) <= available),
{
    let ghost sizes = counts_view(counts@);
    let mut sum: usize = 0;
    let mut i: usize = 0;
    proof {
        lemma_offsets(sizes, 0);
    }
    while i < counts.len()
        invariant
            i <= counts.len(),
            sizes == counts_view(counts@),
            natural(sizes),
            sum == offset(sizes, i as int),
            sum <= available,
        decreases counts.len() - i,
    {
        proof {
            lemma_offsets(sizes, i as int);
            lemma_offsets(sizes, i + 1);
        }
        if counts[i] > available - sum {
            return false;
        }
        sum = sum + counts[i];
        i += 1;
    }
    proof {
        lemma_offsets(sizes, counts.len() as int);
    }
    true
}

/// Reassembly: cutting the flat list of a batch by the recorded counts gives
/// every submission exactly its own items back.
pub proof fn law_reassembly<T>(batch: Seq<Seq<T>>)
    ensures
        segments(flattened(batch), counts_of(batch)) == batch,
{
    let flat = flattened(batch);
    let counts = counts_of(batch);
    assert forall|i: int| 0 <= i < batch.len() implies segment(flat, counts, i) == batch[i] by {
        lemma_flattened(batch, i);
        lemma_flattened(batch, i + 1);
        lemma_offsets(counts, i);
        lemma_offsets(counts, i + 1);
        let shorter = flattened(batch.take(i));
        let longer = flattened(batch.take(i + 1));
        assert forall|k: int| 0 <= k < batch[i].len() implies segment(flat, counts, i)[k]
            == batch[i][k] by {
            let at = shorter.len() + k;
            assert(longer[at] == flat.subrange(0, offset(counts, i + 1))[at]);
        }
    }
}

/// The segments have the recorded lengths, and laid end to end they are the
/// part of the flat list that the counts cover.
pub proof fn law_segments<T>(flat: Seq<T>, counts: Seq<int>)
    requires
        natural(counts),
        total(counts) <= flat.len(),
    ensures
        counts_of(segments(flat, counts)) == counts,
        flattened(segments(flat, counts)) == flat.subrange(0, total(counts)),
    decreases counts.len(),
{
    let cut = segments(flat, counts);
    assert forall|i: int| 0 <= i < counts.len() implies (#[trigger] cut[i]).len() == counts[i] by {
        lemma_offsets(counts, i);
        if i + 1 < counts.len() {
            lemma_offsets(counts, i + 1);
        }
    }
    if counts.len() > 0 {
        let front = counts.drop_last();
        lemma_total_nonnegative(front);
        law_segments(flat, front);
        assert forall|i: int| 0 <= i < front.len() implies segment(flat, front, i) == segment(
            flat,
            counts,
            i,
        ) by {
            assert(front.take(i) =~= counts.take(i));
        }
        assert(cut.drop_last() =~= segments(flat, front));
    }
}

/// Every submitter gets its own results: where the processing function
/// returns one result per item, in the order of the items, the segment
/// delivered to submission `i` holds the results of that submission's items,
/// in their order, and nothing else.
pub proof fn law_delivery<E, R>(batch: Seq<Seq<E>>, results: Seq<R>, i: int, k: int)
    requires
        results.len() == flattened(batch).len(),
        0 <= i < batch.len(),
        0 <= k < batch[i].len(),
    ensures
        segments(results, counts_of(batch)).len() == batch.len(),
        segments(results, counts_of(batch))[i].len() == batch[i].len(),
        0 <= offset(counts_of(batch), i) + k < results.len(),
        flattened(batch)[offset(counts_of(batch), i) + k] == batch[i][k],
        segments(results, counts_of(batch))[i][k] == results[offset(counts_of(batch), i) + k],
{
    let counts = counts_of(batch);
    lemma_lengths(batch);
    lemma_offsets(counts, i);
    lemma_offsets(counts, i + 1);
    law_reassembly(batch);
}

} // verus!
