use vstd::prelude::*;

verus! {

/// Number of buckets in a frequency table.
pub const BUCKETS: usize = 24;

/// The unsigned value of eight bytes read in little-endian order.
pub open spec fn le_value(b: Seq<u8>) -> int {
    b[0] + 256 * (b[1] + 256 * (b[2] + 256 * (b[3] + 256 * (b[4] + 256 * (b[5] + 256 * (b[6]
        + 256 * b[7] as int) as int) as int) as int) as int) as int) as int
}

/// The bucket of an identifier: its little-endian value modulo 24.
pub open spec fn bucket_spec(id: [u8; 8]) -> int {
    le_value(id@) % 24
}

/// How many identifiers of `ids` fall into bucket `k`.
pub open spec fn count_in(ids: Seq<[u8; 8]>, k: int) -> int
    decreases ids.len(),
{
    if ids.len() == 0 {
        0
    } else {
        count_in(ids.drop_last(), k) + (if bucket_spec(ids.last()) == k { 1int } else { 0int })
    }
}

/// The frequency table of `ids`: entry `k` counts the identifiers in bucket `k`.
pub open spec fn table_of(ids: Seq<[u8; 8]>) -> Seq<int> {
    Seq::new(24, |k: int| count_in(ids, k))
}

/// Sum of a sequence of integers.
pub open spec fn sum_of(s: Seq<int>) -> int
    decreases s.len(),
{
    if s.len() == 0 {
        0
    } else {
        sum_of(s.drop_last()) + s.last()
    }
}

/// A table of `u32` counts seen as integers.
pub open spec fn counts_view(c: Seq<u32>) -> Seq<int> {
    c.map_values(|v: u32| v as int)
}

/// The bucket, in `0..24`, of an identifier read as a little-endian `u64`.
pub fn bucket_of(id: &[u8; 8]) -> (r: usize)
    ensures
        r == bucket_spec(*id),
        r < BUCKETS,
{
    let v: u64 = id[0] as u64 + 256 * (id[1] as u64 + 256 * (id[2] as u64 + 256 * (id[3] as u64
        + 256 * (id[4] as u64 + 256 * (id[5] as u64 + 256 * (id[6] as u64 + 256 * id[7] as u64))))));
    (v % 24) as usize
}

/// Replacing one entry changes the sum by the difference.
pub proof fn lemma_sum_update(s: Seq<int>, j: int, v: int)
    requires
        0 <= j < s.len(),
    ensures
        sum_of(s.update(j, v)) == sum_of(s) - s[j] + v,
    decreases s.len(),
{
    let u = s.update(j, v);
    if j == s.len() - 1 {
        assert(u.drop_last() =~= s.drop_last());
    } else {
        assert(u.drop_last() =~= s.drop_last().update(j, v));
        lemma_sum_update(s.drop_last(), j, v);
    }
}

/// A count never exceeds the number of identifiers.
pub proof fn lemma_count_bounded(ids: Seq<[u8; 8]>, k: int)
    ensures
        0 <= count_in(ids, k) <= ids.len(),
    decreases ids.len(),
{
    if ids.len() > 0 {
        lemma_count_bounded(ids.drop_last(), k);
    }
}

/// Appending one identifier adds one to its bucket and leaves the others.
pub proof fn lemma_table_push(ids: Seq<[u8; 8]>, id: [u8; 8])
    ensures
        table_of(ids.push(id)) =~= table_of(ids).update(
            bucket_spec(id),
            table_of(ids)[bucket_spec(id)] + 1,
        ),
{
    assert(ids.push(id).drop_last() =~= ids);
}

/// Bucketing any number of identifiers gives a table of 24 counts whose sum
/// is the number of identifiers.
pub proof fn law_table_total(ids: Seq<[u8; 8]>)
    ensures
        table_of(ids).len() == 24,
        sum_of(table_of(ids)) == ids.len(),
    decreases ids.len(),
{
    if ids.len() == 0 {
        assert(table_of(ids) =~= Seq::new(24, |k: int| 0int));
        lemma_sum_zeros(24);
    } else {
        let prev = ids.drop_last();
        law_table_total(prev);
        assert(prev.push(ids.last()) =~= ids);
        lemma_table_push(prev, ids.last());
        lemma_sum_update(table_of(prev), bucket_spec(ids.last()), table_of(prev)[bucket_spec(ids.last())] + 1);
    }
}

/// A sequence of zeros sums to zero.
pub proof fn lemma_sum_zeros(n: nat)
    ensures
        sum_of(Seq::new(n, |k: int| 0int)) == 0,
    decreases n,
{
    if n > 0 {
        assert(Seq::new(n, |k: int| 0int).drop_last() =~= Seq::new((n - 1) as nat, |k: int| 0int));
        lemma_sum_zeros((n - 1) as nat);
    }
}

/// The frequency table of `ids`: 24 counts, entry `k` the number of identifiers
/// whose little-endian value is `k` modulo 24. The counts sum to `ids.len()`.
pub fn bucketize(ids: &Vec<[u8; 8]>) -> (r: Vec<u32>)
    requires
        ids.len() <= u32::MAX,
    ensures
        r.len() == BUCKETS,
        counts_view(r@) == table_of(ids@),
        sum_of(counts_view(r@)) == ids.len(),
{
    let mut counts: Vec<u32> = Vec::new();
    let mut k: usize = 0;
    while k < BUCKETS
        invariant
            k <= 24,
            counts@.len() == k,
            forall|j: int| 0 <= j < k ==> counts@[j] == 0,
        decreases 24 - k,
    {
        counts.push(0);
        k = k + 1;
    }
    assert(counts_view(counts@) =~= table_of(ids@.take(0)));
    let mut i: usize = 0;
    while i < ids.len()
        invariant
            i <= ids.len(),
            ids.len() <= u32::MAX,
            counts@.len() == 24,
            counts_view(counts@) == table_of(ids@.take(i as int)),
        decreases ids.len() - i,
    {
        let b = bucket_of(&ids[i]);
        proof {
            let pre = ids@.take(i as int);
            assert(ids@.take(i as int + 1) =~= pre.push(ids@[i as int]));
            lemma_table_push(pre, ids@[i as int]);
            lemma_count_bounded(pre, b as int);
            assert(counts_view(counts@)[b as int] == counts@[b as int] as int);
        }
        let c = counts[b];
        counts.set(b, c + 1);
        i = i + 1;
        assert(counts_view(counts@) =~= table_of(ids@.take(i as int)));
    }
    proof {
        assert(ids@.take(ids.len() as int) =~= ids@);
        law_table_total(ids@);
    }
    counts
}

} // verus!
