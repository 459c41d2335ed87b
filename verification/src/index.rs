//! The index from block hash to block number.
//!
//! Hashes are spread over buckets by their leading bytes; a bucket is a short
//! list of entries that is searched from the front.

use crate::chain::BlockNumber;
use crate::hash::BlockHash;
use std::collections::HashMap;
use vstd::prelude::*;

verus! {

broadcast use vstd::std_specs::hash::group_hash_axioms;

/// A map from block hash to block number.
pub struct HashIndex {
    buckets: HashMap<u64, Vec<(BlockHash, BlockNumber)>>,
}

/// The bucket of a hash: its first eight bytes, read as one number.
spec fn bucket_key(h: BlockHash) -> u64 {
    (((((((h.bytes[0] as int * 256 + h.bytes[1] as int) * 256 + h.bytes[2] as int) * 256
        + h.bytes[3] as int) * 256 + h.bytes[4] as int) * 256 + h.bytes[5] as int) * 256
        + h.bytes[6] as int) * 256 + h.bytes[7] as int) as u64
}

/// The bucket has an entry for the hash.
spec fn holds(bucket: Seq<(BlockHash, BlockNumber)>, h: BlockHash) -> bool {
    exists|i: int| 0 <= i < bucket.len() && (#[trigger] bucket[i]).0 == h
}

/// The number that the bucket gives for a hash that it holds.
spec fn value_of(bucket: Seq<(BlockHash, BlockNumber)>, h: BlockHash) -> BlockNumber {
    bucket[choose|i: int| 0 <= i < bucket.len() && (#[trigger] bucket[i]).0 == h].1
}

/// No hash has two entries in the bucket.
spec fn distinct(bucket: Seq<(BlockHash, BlockNumber)>) -> bool {
    forall|i: int, j: int|
        0 <= i < j < bucket.len() ==> (#[trigger] bucket[i]).0 != (#[trigger] bucket[j]).0
}

proof fn lemma_value_of(bucket: Seq<(BlockHash, BlockNumber)>, h: BlockHash, j: int)
    requires
        distinct(bucket),
        0 <= j < bucket.len(),
        bucket[j].0 == h,
    ensures
        holds(bucket, h),
        value_of(bucket, h) == bucket[j].1,
{
    let c = choose|i: int| 0 <= i < bucket.len() && (#[trigger] bucket[i]).0 == h;
    assert(c == j) by {
        if c < j {
            assert(bucket[c].0 != bucket[j].0);
        } else if j < c {
            assert(bucket[j].0 != bucket[c].0);
        }
    }
}

/// A bucket after a number was recorded for a hash. The entry of the hash,
/// at position `at`, was overwritten, or it was added at the end. The hash
/// now has the number, every other hash has what it had, and still no hash
/// has two entries.
proof fn lemma_bucket_with(
    before: Seq<(BlockHash, BlockNumber)>,
    after: Seq<(BlockHash, BlockNumber)>,
    at: int,
    h: BlockHash,
    number: BlockNumber,
)
    requires
        distinct(before),
        0 <= at <= before.len(),
        at < before.len() ==> before[at].0 == h && after == before.update(at, (h, number)),
        at == before.len() ==> !holds(before, h) && after == before.push((h, number)),
    ensures
        distinct(after),
        holds(after, h),
        value_of(after, h) == number,
        forall|g: BlockHash|
            g != h ==> (holds(after, g) <==> holds(before, g)) && (holds(before, g) ==> value_of(
                after,
                g,
            ) == value_of(before, g)),
{
    assert forall|a: int, b: int| 0 <= a < b < after.len() implies (#[trigger] after[a]).0 != (
    #[trigger] after[b]).0 by {
        assert(after[a].0 == if a < before.len() {
            before[a].0
        } else {
            h
        });
        assert(after[b].0 == if b < before.len() {
            before[b].0
        } else {
            h
        });
        if b < before.len() {
            assert(before[a].0 != before[b].0);
        } else {
            assert(before[a].0 != h);
        }
    }
    assert(after[at] == (h, number));
    lemma_value_of(after, h, at);
    assert forall|g: BlockHash| g != h implies (holds(after, g) <==> holds(before, g)) && (holds(
        before,
        g,
    ) ==> value_of(after, g) == value_of(before, g)) by {
        if holds(before, g) {
            let i = choose|i: int| 0 <= i < before.len() && (#[trigger] before[i]).0 == g;
            assert(after[i] == before[i]);
            lemma_value_of(before, g, i);
            lemma_value_of(after, g, i);
        }
        if holds(after, g) {
            let i = choose|i: int| 0 <= i < after.len() && (#[trigger] after[i]).0 == g;
            assert(i < before.len() && before[i] == after[i]);
        }
    }
}

/// A bucket after the entry at position `at` was taken out. The hash of
/// that entry has no number any more, every other hash has what it had, and
/// still no hash has two entries.
proof fn lemma_bucket_without(before: Seq<(BlockHash, BlockNumber)>, at: int)
    requires
        distinct(before),
        0 <= at < before.len(),
    ensures
        distinct(before.remove(at)),
        !holds(before.remove(at), before[at].0),
        forall|g: BlockHash|
            g != before[at].0 ==> (holds(before.remove(at), g) <==> holds(before, g)) && (holds(
                before,
                g,
            ) ==> value_of(before.remove(at), g) == value_of(before, g)),
{
    let after = before.remove(at);
    let h = before[at].0;
    // Position `i` of the bucket after is position `i` or `i + 1` before.
    assert forall|i: int| 0 <= i < after.len() implies #[trigger] after[i] == before[if i < at {
        i
    } else {
        i + 1
    }] by {}
    assert forall|a: int, b: int| 0 <= a < b < after.len() implies (#[trigger] after[a]).0 != (
    #[trigger] after[b]).0 by {
        let a0 = if a < at { a } else { a + 1 };
        let b0 = if b < at { b } else { b + 1 };
        assert(before[a0].0 != before[b0].0);
    }
    if holds(after, h) {
        let i = choose|i: int| 0 <= i < after.len() && (#[trigger] after[i]).0 == h;
        let i0 = if i < at { i } else { i + 1 };
        if i0 < at {
            assert(before[i0].0 != before[at].0);
        } else {
            assert(before[at].0 != before[i0].0);
        }
    }
    assert forall|g: BlockHash| g != h implies (holds(after, g) <==> holds(before, g)) && (holds(
        before,
        g,
    ) ==> value_of(after, g) == value_of(before, g)) by {
        if holds(before, g) {
            let i = choose|i: int| 0 <= i < before.len() && (#[trigger] before[i]).0 == g;
            let i1 = if i < at { i } else { i - 1 };
            assert(after[i1] == before[i]);
            lemma_value_of(before, g, i);
            lemma_value_of(after, g, i1);
        }
        if holds(after, g) {
            let i = choose|i: int| 0 <= i < after.len() && (#[trigger] after[i]).0 == g;
            let i0 = if i < at { i } else { i + 1 };
            assert(before[i0] == after[i]);
        }
    }
}

impl View for HashIndex {
    type V = Map<BlockHash, BlockNumber>;

    closed spec fn view(&self) -> Map<BlockHash, BlockNumber> {
        Map::new(
            |h: BlockHash|
                self.buckets@.contains_key(bucket_key(h)) && holds(
                    self.buckets@[bucket_key(h)]@,
                    h,
                ),
            |h: BlockHash| value_of(self.buckets@[bucket_key(h)]@, h),
        )
    }
}

fn key_of(h: &BlockHash) -> (k: u64)
    ensures
        k == bucket_key(*h),
{
    let k1: u64 = h.bytes[0] as u64 * 256 + h.bytes[1] as u64;
    let k2: u64 = k1 * 256 + h.bytes[2] as u64;
    let k3: u64 = k2 * 256 + h.bytes[3] as u64;
    let k4: u64 = k3 * 256 + h.bytes[4] as u64;
    let k5: u64 = k4 * 256 + h.bytes[5] as u64;
    let k6: u64 = k5 * 256 + h.bytes[6] as u64;
    let k7: u64 = k6 * 256 + h.bytes[7] as u64;
    k7
}

/// Position of the entry for a hash in a bucket.
fn position(bucket: &Vec<(BlockHash, BlockNumber)>, h: &BlockHash) -> (r: Option<usize>)
    ensures
        match r {
            Some(j) => j < bucket@.len() && bucket@[j as int].0 == *h,
            None => !holds(bucket@, *h),
        },
{
    let mut j: usize = 0;
    while j < bucket.len()
        invariant
            j <= bucket@.len(),
            forall|k: int| 0 <= k < j ==> (#[trigger] bucket@[k]).0 != *h,
        decreases bucket@.len() - j,
    {
        if bucket[j].0 == *h {
            return Some(j);
        }
        j += 1;
    }
    None
}

impl HashIndex {
    /// The invariant of the index: no hash has two entries.
    pub closed spec fn wf(&self) -> bool {
        forall|k: u64| #[trigger]
            self.buckets@.contains_key(k) ==> distinct(self.buckets@[k]@)
    }

    /// An index without entries.
    pub fn new() -> (r: HashIndex)
        ensures
            r.wf(),
            r@ == Map::<BlockHash, BlockNumber>::empty(),
    {
        let r = HashIndex { buckets: HashMap::new() };
        assert(r@ =~= Map::<BlockHash, BlockNumber>::empty());
        r
    }

    /// The number recorded for a hash.
    pub fn get(&self, h: &BlockHash) -> (r: Option<BlockNumber>)
        requires
            self.wf(),
        ensures
            r == if self@.contains_key(*h) {
                Some(self@[*h])
            } else {
                None::<BlockNumber>
            },
    {
        let k = key_of(h);
        match self.buckets.get(&k) {
            None => None,
            Some(bucket) => match position(bucket, h) {
                None => None,
                Some(j) => {
                    proof {
                        lemma_value_of(bucket@, *h, j as int);
                    }
                    Some(bucket[j].1)
                },
            },
        }
    }

    /// Records a number for a hash, in place of any number recorded before.
    pub fn insert(&mut self, h: BlockHash, number: BlockNumber)
        requires
            old(self).wf(),
        ensures
            final(self).wf(),
            final(self)@ == old(self)@.insert(h, number),
    {
        let k = key_of(&h);
        let mut bucket = match self.buckets.remove(&k) {
            Some(bucket) => bucket,
            None => Vec::new(),
        };
        let ghost before = bucket@;
        assert(distinct(before));
        let at = match position(&bucket, &h) {
            Some(j) => {
                bucket[j].1 = number;
                j
            },
            None => {
                bucket.push((h, number));
                bucket.len() - 1
            },
        };
        proof {
            lemma_bucket_with(before, bucket@, at as int, h, number);
        }
        self.buckets.insert(k, bucket);
        assert(final(self)@ =~= old(self)@.insert(h, number));
    }

    /// Forgets the number recorded for a hash, if there is one.
    pub fn remove(&mut self, h: &BlockHash)
        requires
            old(self).wf(),
        ensures
            final(self).wf(),
            final(self)@ == old(self)@.remove(*h),
    {
        let k = key_of(h);
        match self.buckets.remove(&k) {
            None => {
                assert(self@ =~= old(self)@.remove(*h));
            },
            Some(mut bucket) => {
                let ghost before = bucket@;
                assert(distinct(before));
                match position(&bucket, h) {
                    Some(j) => {
                        bucket.remove(j);
                        proof {
                            lemma_bucket_without(before, j as int);
                        }
                    },
                    None => {},
                }
                if bucket.len() > 0 {
                    self.buckets.insert(k, bucket);
                }
                assert(final(self)@ =~= old(self)@.remove(*h));
            },
        }
    }

    /// Forgets every entry.
    pub fn clear(&mut self)
        ensures
            final(self).wf(),
            final(self)@ == Map::<BlockHash, BlockNumber>::empty(),
    {
        self.buckets.clear();
        assert(self@ =~= Map::<BlockHash, BlockNumber>::empty());
    }
}

} // verus!
