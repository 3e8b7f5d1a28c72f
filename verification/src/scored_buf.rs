use vstd::prelude::*;

verus! {

use vstd::multiset::Multiset;

/// Whether higher scores (`Descending`) or lower scores (`Ascending`) count
/// as better when the buffer ranks its entries.
#[derive(Clone, Copy)]
pub enum Sort {
    Ascending,
    Descending,
}

/// One buffered entry: the score it was ranked under, the bucket key it was
/// deduplicated under (`None` for plain pushes), and the value itself.
#[derive(Clone)]
pub struct ScoredItem<V> {
    pub score: u64,
    pub bucket: Option<u64>,
    pub value: V,
}

/// A value that carries its own ranking score.
pub trait Scored {
    /// The score the value reports, at the specification level.
    spec fn score_spec(&self) -> u64;

    /// The score the value reports.
    fn score(&self) -> (r: u64)
        ensures
            r == self.score_spec(),
    ;
}

/// True when `s1` ranks strictly better than `s2` under `sort`.
pub open spec fn strictly_better(sort: Sort, s1: u64, s2: u64) -> bool {
    match sort {
        Sort::Descending => s1 > s2,
        Sort::Ascending => s1 < s2,
    }
}

/// The entries are ordered from worst to best.
pub open spec fn sorted_worst_first<V>(sort: Sort, s: Seq<ScoredItem<V>>) -> bool {
    forall|i: int, j: int|
        0 <= i < j < s.len() ==> !strictly_better(sort, #[trigger] s[i].score, #[trigger] s[j].score)
}

/// No two entries share a bucket key.
pub open spec fn buckets_unique<V>(s: Seq<ScoredItem<V>>) -> bool {
    forall|i: int, j: int|
        0 <= i < j < s.len() && (#[trigger] s[i].bucket) is Some ==> s[i].bucket != #[trigger] s[j].bucket
}

/// The position at which an entry of score `score` belongs: just before the
/// first entry that ranks strictly better than it.
pub open spec fn spec_insert_pos<V>(sort: Sort, s: Seq<ScoredItem<V>>, score: u64) -> int
    decreases s.len(),
{
    if s.len() == 0 {
        0
    } else if strictly_better(sort, s[0].score, score) {
        0
    } else {
        1 + spec_insert_pos(sort, s.drop_first(), score)
    }
}

/// Insertion preserving the worst-to-best order.
pub open spec fn spec_insert_sorted<V>(sort: Sort, s: Seq<ScoredItem<V>>, item: ScoredItem<V>) -> Seq<
    ScoredItem<V>,
> {
    s.insert(spec_insert_pos(sort, s, item.score), item)
}

/// What one push leaves in the buffer: insert while there is room; at
/// capacity, evict the worst entry only for a strictly better newcomer,
/// otherwise discard the newcomer.
pub open spec fn spec_push<V>(
    sort: Sort,
    size: nat,
    s: Seq<ScoredItem<V>>,
    item: ScoredItem<V>,
) -> Seq<ScoredItem<V>> {
    if s.len() < size {
        spec_insert_sorted(sort, s, item)
    } else if size > 0 && strictly_better(sort, item.score, s[0].score) {
        spec_insert_sorted(sort, s.drop_first(), item)
    } else {
        s
    }
}

/// The index of the entry holding bucket key `b`, or -1 when none does.
pub open spec fn spec_bucket_pos<V>(s: Seq<ScoredItem<V>>, b: u64) -> int
    decreases s.len(),
{
    if s.len() == 0 {
        -1
    } else if s[0].bucket == Some(b) {
        0
    } else if spec_bucket_pos(s.drop_first(), b) < 0 {
        -1
    } else {
        1 + spec_bucket_pos(s.drop_first(), b)
    }
}

/// What one bucketed push leaves in the buffer: with no incumbent for the
/// key it acts as a plain push; a strictly better newcomer replaces the
/// incumbent; otherwise the newcomer is discarded.
pub open spec fn spec_push_bucket<V>(
    sort: Sort,
    size: nat,
    s: Seq<ScoredItem<V>>,
    item: ScoredItem<V>,
) -> Seq<ScoredItem<V>>
    recommends
        item.bucket is Some,
{
    let p = spec_bucket_pos(s, item.bucket->0);
    if p < 0 {
        spec_push(sort, size, s, item)
    } else if strictly_better(sort, item.score, s[p].score) {
        spec_insert_sorted(sort, s.remove(p), item)
    } else {
        s
    }
}

/// A fixed-capacity top-K selector: it retains at most `size` entries, kept
/// ordered from worst to best under `sort`, with at most one entry per
/// bucket key.
pub struct ScoredCircularBuffer<V> {
    size: usize,
    items: Vec<ScoredItem<V>>,
    sort: Sort,
}

impl<V> View for ScoredCircularBuffer<V> {
    type V = Seq<ScoredItem<V>>;

    /// The retained entries, ordered from worst to best.
    closed spec fn view(&self) -> Seq<ScoredItem<V>> {
        self.items@
    }
}

impl<V> ScoredCircularBuffer<V> {
    /// The capacity the buffer was created with.
    pub closed spec fn spec_capacity(&self) -> nat {
        self.size as nat
    }

    /// The ranking mode the buffer was created with.
    pub closed spec fn spec_sort(&self) -> Sort {
        self.sort
    }

    /// The buffer never outgrows its capacity, stays ordered from worst to
    /// best, and never holds two entries of one bucket key.
    pub open spec fn well_formed(&self) -> bool {
        &&& self@.len() <= self.spec_capacity()
        &&& sorted_worst_first(self.spec_sort(), self@)
        &&& buckets_unique(self@)
    }

    pub fn new(size: usize, sort: Sort) -> (r: ScoredCircularBuffer<V>)
        ensures
            r.well_formed(),
            r@ == Seq::<ScoredItem<V>>::empty(),
            r.spec_capacity() == size,
            r.spec_sort() == sort,
    {
        ScoredCircularBuffer { size, items: Vec::new(), sort }
    }

    pub fn capacity(&self) -> (r: usize)
        ensures
            r == self.spec_capacity(),
    {
        self.size
    }

    pub fn len(&self) -> (r: usize)
        ensures
            r == self@.len(),
    {
        self.items.len()
    }

    pub fn is_empty(&self) -> (r: bool)
        ensures
            r == (self@.len() == 0),
    {
        self.items.len() == 0
    }

    pub fn clear(&mut self)
        ensures
            final(self)@ == Seq::<ScoredItem<V>>::empty(),
            final(self).well_formed(),
            final(self).spec_capacity() == old(self).spec_capacity(),
            final(self).spec_sort() == old(self).spec_sort(),
    {
        self.items.clear();
    }
}

/// Exec counterpart of `strictly_better`.
pub fn better(sort: &Sort, s1: u64, s2: u64) -> (r: bool)
    ensures
        r == strictly_better(*sort, s1, s2),
{
    match *sort {
        Sort::Descending => s1 > s2,
        Sort::Ascending => s1 < s2,
    }
}

impl Sort {
    /// Whether `v1` ranks strictly better than `v2` under this mode.
    pub fn gt<V>(&self, v1: &ScoredItem<V>, v2: &ScoredItem<V>) -> (r: bool)
        ensures
            r == strictly_better(*self, v1.score, v2.score),
    {
        better(self, v1.score, v2.score)
    }
}

/// `spec_insert_pos` is the first position whose entry ranks strictly
/// better than the probed score.
pub proof fn lemma_insert_pos_props<V>(sort: Sort, s: Seq<ScoredItem<V>>, score: u64)
    ensures
        0 <= spec_insert_pos(sort, s, score) <= s.len(),
        forall|i: int|
            0 <= i < spec_insert_pos(sort, s, score) ==> !strictly_better(
                sort,
                #[trigger] s[i].score,
                score,
            ),
        spec_insert_pos(sort, s, score) < s.len() ==> strictly_better(
            sort,
            s[spec_insert_pos(sort, s, score)].score,
            score,
        ),
    decreases s.len(),
{
    if s.len() == 0 {
    } else if strictly_better(sort, s[0].score, score) {
    } else {
        lemma_insert_pos_props(sort, s.drop_first(), score);
        let p = spec_insert_pos(sort, s, score);
        assert forall|i: int| 0 <= i < p implies !strictly_better(
            sort,
            #[trigger] s[i].score,
            score,
        ) by {
            if i > 0 {
                assert(s.drop_first()[i - 1] == s[i]);
            }
        }
        if p < s.len() {
            assert(s.drop_first()[p - 1] == s[p]);
        }
    }
}

/// Inserting at `spec_insert_pos` keeps the buffer ordered and, when the
/// newcomer's bucket key is fresh, keeps bucket keys unique.
pub proof fn lemma_insert_sorted_preserves_wf<V>(
    sort: Sort,
    s: Seq<ScoredItem<V>>,
    item: ScoredItem<V>,
)
    requires
        sorted_worst_first(sort, s),
        buckets_unique(s),
        item.bucket is Some ==> forall|i: int|
            0 <= i < s.len() ==> (#[trigger] s[i].bucket) != item.bucket,
    ensures
        spec_insert_sorted(sort, s, item).len() == s.len() + 1,
        sorted_worst_first(sort, spec_insert_sorted(sort, s, item)),
        buckets_unique(spec_insert_sorted(sort, s, item)),
        spec_insert_sorted(sort, s, item).to_multiset() == s.to_multiset().insert(item),
{
    lemma_insert_pos_props(sort, s, item.score);
    let p = spec_insert_pos(sort, s, item.score);
    let t = spec_insert_sorted(sort, s, item);
    s.insert_ensures(p, item);
    assert forall|i: int, j: int| 0 <= i < j < t.len() implies !strictly_better(
        sort,
        #[trigger] t[i].score,
        #[trigger] t[j].score,
    ) by {
        if i < p && j == p {
            assert(t[i] == s[i]);
        } else if i == p && j > p {
            assert(t[j] == s[j - 1]);
        } else if i < p && j > p {
            assert(t[i] == s[i] && t[j] == s[j - 1]);
        } else if i > p {
            assert(t[i] == s[i - 1] && t[j] == s[j - 1]);
        } else if j < p {
            assert(t[i] == s[i] && t[j] == s[j]);
        }
    }
    assert forall|i: int, j: int|
        0 <= i < j < t.len() && (#[trigger] t[i].bucket) is Some implies t[i].bucket != (
    #[trigger] t[j].bucket) by {
        if i < p && j == p {
            assert(t[i] == s[i]);
        } else if i == p && j > p {
            assert(t[j] == s[j - 1]);
        } else if i < p && j > p {
            assert(t[i] == s[i] && t[j] == s[j - 1]);
        } else if i > p {
            assert(t[i] == s[i - 1] && t[j] == s[j - 1]);
        } else if j < p {
            assert(t[i] == s[i] && t[j] == s[j]);
        }
    }
    lemma_insert_to_multiset(s, p, item);
}

/// Inserting anywhere adds exactly the inserted entry to the multiset of
/// entries.
pub proof fn lemma_insert_to_multiset<V>(s: Seq<ScoredItem<V>>, p: int, item: ScoredItem<V>)
    requires
        0 <= p <= s.len(),
    ensures
        s.insert(p, item).to_multiset() == s.to_multiset().insert(item),
{
    let t = s.insert(p, item);
    s.insert_ensures(p, item);
    t.to_multiset_ensures();
    assert(t.remove(p) =~= s);
    assert(t[p] == item);
    assert(t.to_multiset().remove(item) =~= s.to_multiset());
    assert(t.contains(item));
    assert(t.to_multiset().count(item) > 0);
    assert(t.to_multiset() =~= s.to_multiset().insert(item));
}

impl<V> ScoredCircularBuffer<V> {
    /// The position where an entry of score `score` belongs.
    fn insert_index(&self, score: u64) -> (r: usize)
        ensures
            r == spec_insert_pos(self.spec_sort(), self@, score),
    {
        proof {
            lemma_insert_pos_props(self.spec_sort(), self@, score);
        }
        let ghost p = spec_insert_pos(self.spec_sort(), self@, score);
        let n = self.items.len();
        let mut i: usize = 0;
        while i < n
            invariant
                0 <= i <= n,
                n == self@.len(),
                p == spec_insert_pos(self.spec_sort(), self@, score),
                0 <= p <= self@.len(),
                forall|k: int|
                    0 <= k < p ==> !strictly_better(self.spec_sort(), #[trigger] self@[k].score, score),
                p < self@.len() ==> strictly_better(self.spec_sort(), self@[p].score, score),
                forall|k: int|
                    0 <= k < i ==> !strictly_better(self.spec_sort(), #[trigger] self@[k].score, score),
            decreases n - i,
        {
            if better(&self.sort, self.items[i].score, score) {
                assert(i == p) by {
                    if (i as int) < p {
                        assert(!strictly_better(self.spec_sort(), self@[i as int].score, score));
                    }
                    if p < i as int {
                        assert(!strictly_better(self.spec_sort(), self@[p].score, score));
                    }
                }
                return i;
            }
            i += 1;
        }
        assert(p == n as int) by {
            if p < n as int {
                assert(!strictly_better(self.spec_sort(), self@[p].score, score));
            }
        }
        n
    }

    /// Core insertion step shared by the push variants.
    fn push_item(&mut self, new: ScoredItem<V>)
        requires
            old(self).well_formed(),
            new.bucket is Some ==> forall|i: int|
                0 <= i < old(self)@.len() ==> (#[trigger] old(self)@[i].bucket) != new.bucket,
        ensures
            final(self)@ == spec_push(old(self).spec_sort(), old(self).spec_capacity(), old(self)@, new),
            final(self).well_formed(),
            final(self).spec_capacity() == old(self).spec_capacity(),
            final(self).spec_sort() == old(self).spec_sort(),
    {
        let ghost s0 = self@;
        if self.items.len() < self.size {
            let p = self.insert_index(new.score);
            proof {
                lemma_insert_pos_props(self.spec_sort(), self@, new.score);
                lemma_insert_sorted_preserves_wf(self.spec_sort(), self@, new);
            }
            self.items.insert(p, new);
        } else if self.size > 0 && better(&self.sort, new.score, self.items[0].score) {
            let _worst = self.items.remove(0);
            proof {
                assert(self@ =~= s0.drop_first());
                lemma_insert_pos_props(self.spec_sort(), self@, new.score);
                lemma_insert_sorted_preserves_wf(self.spec_sort(), self@, new);
            }
            let p = self.insert_index(new.score);
            self.items.insert(p, new);
        }
    }

    /// Retain `value` under `score` while it ranks among the best seen.
    pub fn push(&mut self, value: V, score: u64)
        requires
            old(self).well_formed(),
        ensures
            final(self)@ == spec_push(
                old(self).spec_sort(),
                old(self).spec_capacity(),
                old(self)@,
                ScoredItem { score, bucket: None, value },
            ),
            final(self).well_formed(),
            final(self).spec_capacity() == old(self).spec_capacity(),
            final(self).spec_sort() == old(self).spec_sort(),
    {
        self.push_item(ScoredItem { score, bucket: None, value });
    }

    /// Push only when a score is present.
    pub fn push_opt(&mut self, value: V, score: Option<u64>)
        requires
            old(self).well_formed(),
        ensures
            final(self)@ == match score {
                Some(k) => spec_push(
                    old(self).spec_sort(),
                    old(self).spec_capacity(),
                    old(self)@,
                    ScoredItem { score: k, bucket: None, value },
                ),
                None => old(self)@,
            },
            final(self).well_formed(),
            final(self).spec_capacity() == old(self).spec_capacity(),
            final(self).spec_sort() == old(self).spec_sort(),
    {
        match score {
            Some(k) => self.push(value, k),
            None => {},
        }
    }
}

/// `spec_bucket_pos` is the first position holding the probed bucket key,
/// and -1 exactly when no position holds it.
pub proof fn lemma_bucket_pos_props<V>(s: Seq<ScoredItem<V>>, b: u64)
    ensures
        spec_bucket_pos(s, b) < 0 ==> forall|i: int|
            0 <= i < s.len() ==> (#[trigger] s[i].bucket) != Some(b),
        spec_bucket_pos(s, b) >= 0 ==> {
            &&& spec_bucket_pos(s, b) < s.len()
            &&& s[spec_bucket_pos(s, b)].bucket == Some(b)
            &&& forall|i: int| 0 <= i < spec_bucket_pos(s, b) ==> (#[trigger] s[i].bucket) != Some(b)
        },
    decreases s.len(),
{
    if s.len() == 0 {
    } else if s[0].bucket == Some(b) {
    } else {
        lemma_bucket_pos_props(s.drop_first(), b);
        let p = spec_bucket_pos(s, b);
        if p < 0 {
            assert forall|i: int| 0 <= i < s.len() implies (#[trigger] s[i].bucket) != Some(b) by {
                if i > 0 {
                    assert(s.drop_first()[i - 1] == s[i]);
                }
            }
        } else {
            assert(s.drop_first()[p - 1] == s[p]);
            assert forall|i: int| 0 <= i < p implies (#[trigger] s[i].bucket) != Some(b) by {
                if i > 0 {
                    assert(s.drop_first()[i - 1] == s[i]);
                }
            }
        }
    }
}

impl<V> ScoredCircularBuffer<V> {
    /// The position of the entry holding bucket key `b`, when one does.
    fn bucket_index(&self, b: u64) -> (r: Option<usize>)
        ensures
            r matches Some(p) ==> p == spec_bucket_pos(self@, b),
            r is None ==> spec_bucket_pos(self@, b) < 0,
    {
        proof {
            lemma_bucket_pos_props(self@, b);
        }
        let ghost p = spec_bucket_pos(self@, b);
        let n = self.items.len();
        let mut i: usize = 0;
        while i < n
            invariant
                0 <= i <= n,
                n == self@.len(),
                p == spec_bucket_pos(self@, b),
                p < 0 ==> forall|k: int| 0 <= k < n ==> (#[trigger] self@[k].bucket) != Some(b),
                p >= 0 ==> p < n && self@[p].bucket == Some(b) && forall|k: int|
                    0 <= k < p ==> (#[trigger] self@[k].bucket) != Some(b),
                forall|k: int| 0 <= k < i ==> (#[trigger] self@[k].bucket) != Some(b),
            decreases n - i,
        {
            let hit = match self.items[i].bucket {
                Some(key) => key == b,
                None => false,
            };
            if hit {
                return Some(i);
            }
            i += 1;
        }
        None
    }

    /// Retain at most one entry per bucket key: a strictly better newcomer
    /// replaces the incumbent of its key, otherwise the newcomer is
    /// discarded; a fresh key behaves as a plain push.
    pub fn push_bucket(&mut self, value: V, score: u64, bucket: u64)
        requires
            old(self).well_formed(),
        ensures
            final(self)@ == spec_push_bucket(
                old(self).spec_sort(),
                old(self).spec_capacity(),
                old(self)@,
                ScoredItem { score, bucket: Some(bucket), value },
            ),
            final(self).well_formed(),
            final(self).spec_capacity() == old(self).spec_capacity(),
            final(self).spec_sort() == old(self).spec_sort(),
    {
        let ghost s0 = self@;
        let ghost item = ScoredItem { score, bucket: Some(bucket), value };
        proof {
            lemma_bucket_pos_props(self@, bucket);
        }
        match self.bucket_index(bucket) {
            None => {
                self.push_item(ScoredItem { score, bucket: Some(bucket), value });
            },
            Some(i) => {
                if better(&self.sort, score, self.items[i].score) {
                    let _incumbent = self.items.remove(i);
                    proof {
                        assert(self@ =~= s0.remove(i as int));
                        assert forall|k: int|
                            0 <= k < self@.len() implies (#[trigger] self@[k].bucket) != Some(
                            bucket,
                        ) by {
                            if k < i as int {
                                assert(self@[k] == s0[k]);
                            } else {
                                assert(self@[k] == s0[k + 1]);
                            }
                        }
                        assert(sorted_worst_first(self.spec_sort(), self@)) by {
                            assert forall|a: int, b: int|
                                0 <= a < b < self@.len() implies !strictly_better(
                                self.spec_sort(),
                                #[trigger] self@[a].score,
                                #[trigger] self@[b].score,
                            ) by {
                                let a0 = if a < i as int { a } else { a + 1 };
                                let b0 = if b < i as int { b } else { b + 1 };
                                assert(self@[a] == s0[a0] && self@[b] == s0[b0]);
                            }
                        }
                        assert(buckets_unique(self@)) by {
                            assert forall|a: int, b: int|
                                0 <= a < b < self@.len() && (#[trigger] self@[a].bucket) is Some
                                implies self@[a].bucket != (#[trigger] self@[b].bucket) by {
                                let a0 = if a < i as int { a } else { a + 1 };
                                let b0 = if b < i as int { b } else { b + 1 };
                                assert(self@[a] == s0[a0] && self@[b] == s0[b0]);
                            }
                        }
                    }
                    self.push_item(ScoredItem { score, bucket: Some(bucket), value });
                    proof {
                        assert(self@ == spec_insert_sorted(
                            old(self).spec_sort(),
                            s0.remove(i as int),
                            item,
                        ));
                    }
                }
            },
        }
    }
}

/// One push, routed through bucket deduplication when the entry carries a
/// bucket key.
pub open spec fn spec_push_any<V>(
    sort: Sort,
    size: nat,
    s: Seq<ScoredItem<V>>,
    item: ScoredItem<V>,
) -> Seq<ScoredItem<V>> {
    if item.bucket is Some {
        spec_push_bucket(sort, size, s, item)
    } else {
        spec_push(sort, size, s, item)
    }
}

/// The buffer contents after pushing every entry of `items` in order.
pub open spec fn spec_push_all<V>(
    sort: Sort,
    size: nat,
    s: Seq<ScoredItem<V>>,
    items: Seq<ScoredItem<V>>,
) -> Seq<ScoredItem<V>>
    decreases items.len(),
{
    if items.len() == 0 {
        s
    } else {
        spec_push_all(sort, size, spec_push_any(sort, size, s, items[0]), items.drop_first())
    }
}

impl<V> ScoredCircularBuffer<V> {
    /// Empty the buffer, returning its entries ordered worst to best.
    pub fn drain(&mut self) -> (r: Vec<ScoredItem<V>>)
        ensures
            r@ == old(self)@,
            final(self)@ == Seq::<ScoredItem<V>>::empty(),
            final(self).well_formed(),
            final(self).spec_capacity() == old(self).spec_capacity(),
            final(self).spec_sort() == old(self).spec_sort(),
    {
        let mut out: Vec<ScoredItem<V>> = Vec::new();
        std::mem::swap(&mut out, &mut self.items);
        out
    }

    /// The retained values, ordered best to worst.
    pub fn sort(&self) -> (r: Vec<&V>)
        ensures
            r@.len() == self@.len(),
            forall|i: int|
                0 <= i < r@.len() ==> *(#[trigger] r@[i]) == self@[self@.len() - 1 - i].value,
    {
        let mut out: Vec<&V> = Vec::new();
        let n = self.items.len();
        let mut i: usize = 0;
        while i < n
            invariant
                0 <= i <= n,
                n == self@.len(),
                out@.len() == i,
                forall|k: int|
                    0 <= k < i ==> *(#[trigger] out@[k]) == self@[self@.len() - 1 - k].value,
            decreases n - i,
        {
            out.push(&self.items[n - 1 - i].value);
            i += 1;
        }
        out
    }

    /// Empty the buffer, returning its values ordered best to worst.
    pub fn sort_mut(&mut self) -> (r: Vec<V>)
        ensures
            r@.len() == old(self)@.len(),
            forall|i: int|
                0 <= i < r@.len() ==> #[trigger] r@[i] == old(self)@[old(self)@.len() - 1
                    - i].value,
            final(self)@ == Seq::<ScoredItem<V>>::empty(),
            final(self).well_formed(),
            final(self).spec_capacity() == old(self).spec_capacity(),
            final(self).spec_sort() == old(self).spec_sort(),
    {
        let ghost s0 = self@;
        let mut out: Vec<V> = Vec::new();
        loop
            invariant
                self@.len() + out@.len() == s0.len(),
                self@ == s0.take(s0.len() - out@.len()),
                forall|k: int|
                    0 <= k < out@.len() ==> #[trigger] out@[k] == s0[s0.len() - 1 - k].value,
                self.spec_capacity() == old(self).spec_capacity(),
                self.spec_sort() == old(self).spec_sort(),
            ensures
                out@.len() == s0.len(),
                self@.len() == 0,
            decreases self@.len(),
        {
            proof {
                assert(self@ =~= s0.take(s0.len() - out@.len()));
            }
            match self.items.pop() {
                Some(it) => {
                    proof {
                        assert(s0.take(s0.len() - out@.len()).last() == s0[s0.len() - 1
                            - out@.len()]);
                        assert(s0.take(s0.len() - out@.len()).drop_last() =~= s0.take(
                            s0.len() - (out@.len() + 1),
                        ));
                    }
                    out.push(it.value);
                },
                None => {
                    break ;
                },
            }
        }
        proof {
            assert(self@ =~= Seq::<ScoredItem<V>>::empty());
        }
        out
    }

    /// Drain `other` and push every entry of it into this buffer, keeping
    /// each entry's score and bucket key: a keyed entry goes through bucket
    /// deduplication again, deliberately, so a merge can never leave two
    /// entries of one key behind.
    pub fn append(&mut self, other: &mut ScoredCircularBuffer<V>)
        requires
            old(self).well_formed(),
        ensures
            final(self)@ == spec_push_all(
                old(self).spec_sort(),
                old(self).spec_capacity(),
                old(self)@,
                old(other)@,
            ),
            final(self).well_formed(),
            final(self).spec_capacity() == old(self).spec_capacity(),
            final(self).spec_sort() == old(self).spec_sort(),
            final(other)@ == Seq::<ScoredItem<V>>::empty(),
    {
        let ghost sort = self.spec_sort();
        let ghost size = self.spec_capacity();
        let ghost pushed = other@;
        let mut incoming = other.drain();
        while incoming.len() > 0
            invariant
                incoming@.len() <= pushed.len(),
                incoming@ == pushed.skip(pushed.len() - incoming@.len()),
                self.well_formed(),
                self.spec_sort() == sort,
                self.spec_capacity() == size,
                spec_push_all(sort, size, self@, incoming@) == spec_push_all(
                    sort,
                    size,
                    old(self)@,
                    pushed,
                ),
            decreases incoming@.len(),
        {
            let ghost before = incoming@;
            let it = incoming.remove(0);
            proof {
                assert(incoming@ =~= before.drop_first());
                assert(incoming@ =~= pushed.skip(pushed.len() - incoming@.len()));
            }
            let ScoredItem { score, bucket, value } = it;
            match bucket {
                Some(b) => {
                    self.push_bucket(value, score, b);
                },
                None => {
                    self.push_item(ScoredItem { score, bucket: None, value });
                },
            }
        }
        proof {
            assert(incoming@ =~= Seq::<ScoredItem<V>>::empty());
        }
    }
}


/// One bucketed push preserves the buffer shape: the capacity bound, the
/// worst-to-best order and the one-entry-per-key rule.
pub proof fn lemma_spec_push_bucket_preserves_wf<V>(
    sort: Sort,
    size: nat,
    s: Seq<ScoredItem<V>>,
    item: ScoredItem<V>,
)
    requires
        sorted_worst_first(sort, s),
        buckets_unique(s),
        s.len() <= size,
        item.bucket is Some,
    ensures
        spec_push_bucket(sort, size, s, item).len() <= size,
        sorted_worst_first(sort, spec_push_bucket(sort, size, s, item)),
        buckets_unique(spec_push_bucket(sort, size, s, item)),
{
    let b = item.bucket->0;
    let p = spec_bucket_pos(s, b);
    lemma_bucket_pos_props(s, b);
    if p < 0 {
        lemma_spec_push_preserves_wf(sort, size, s, item);
    } else if strictly_better(sort, item.score, s[p].score) {
        let base = s.remove(p);
        assert forall|a: int, c: int| 0 <= a < c < base.len() implies !strictly_better(
            sort,
            #[trigger] base[a].score,
            #[trigger] base[c].score,
        ) by {
            let a0 = if a < p {
                a
            } else {
                a + 1
            };
            let c0 = if c < p {
                c
            } else {
                c + 1
            };
            assert(base[a] == s[a0] && base[c] == s[c0]);
        }
        assert forall|a: int, c: int|
            0 <= a < c < base.len() && (#[trigger] base[a].bucket) is Some implies base[a].bucket
            != (#[trigger] base[c].bucket) by {
            let a0 = if a < p {
                a
            } else {
                a + 1
            };
            let c0 = if c < p {
                c
            } else {
                c + 1
            };
            assert(base[a] == s[a0] && base[c] == s[c0]);
        }
        assert forall|a: int| 0 <= a < base.len() implies (#[trigger] base[a].bucket)
            != item.bucket by {
            let a0 = if a < p {
                a
            } else {
                a + 1
            };
            assert(base[a] == s[a0]);
            if a0 != p && s[a0].bucket == Some(b) {
                if a0 < p {
                    assert(s[a0].bucket != Some(b));
                } else {
                    assert(s[p].bucket != s[a0].bucket);
                }
            }
        }
        lemma_insert_sorted_preserves_wf(sort, base, item);
    }
}

/// One plain push preserves the buffer shape, provided the pushed entry's
/// key (when it has one) is not already present.
pub proof fn lemma_spec_push_preserves_wf<V>(
    sort: Sort,
    size: nat,
    s: Seq<ScoredItem<V>>,
    item: ScoredItem<V>,
)
    requires
        sorted_worst_first(sort, s),
        buckets_unique(s),
        s.len() <= size,
        item.bucket is Some ==> forall|i: int|
            0 <= i < s.len() ==> (#[trigger] s[i].bucket) != item.bucket,
    ensures
        spec_push(sort, size, s, item).len() <= size,
        sorted_worst_first(sort, spec_push(sort, size, s, item)),
        buckets_unique(spec_push(sort, size, s, item)),
{
    if s.len() < size {
        lemma_insert_sorted_preserves_wf(sort, s, item);
    } else if size > 0 && strictly_better(sort, item.score, s[0].score) {
        let base = s.drop_first();
        assert(forall|a: int| 0 <= a < base.len() ==> #[trigger] base[a] == s[a + 1]);
        lemma_insert_sorted_preserves_wf(sort, base, item);
    }
}

/// Folding one more push at the end of a run of pushes.
pub proof fn lemma_push_all_snoc<V>(
    sort: Sort,
    size: nat,
    s: Seq<ScoredItem<V>>,
    items: Seq<ScoredItem<V>>,
    x: ScoredItem<V>,
)
    ensures
        spec_push_all(sort, size, s, items.push(x)) == spec_push_any(
            sort,
            size,
            spec_push_all(sort, size, s, items),
            x,
        ),
    decreases items.len(),
{
    if items.len() == 0 {
        assert(items.push(x)[0] == x);
        assert(items.push(x).drop_first() =~= Seq::<ScoredItem<V>>::empty());
        assert(spec_push_all(sort, size, s, items.push(x)) == spec_push_all(
            sort,
            size,
            spec_push_any(sort, size, s, x),
            items.push(x).drop_first(),
        ));
        assert(spec_push_all(sort, size, spec_push_any(sort, size, s, x), Seq::empty())
            == spec_push_any(sort, size, s, x));
    } else {
        assert(items.push(x)[0] == items[0]);
        assert(items.push(x).drop_first() =~= items.drop_first().push(x));
        let s1 = spec_push_any(sort, size, s, items[0]);
        assert(spec_push_all(sort, size, s, items.push(x)) == spec_push_all(
            sort,
            size,
            s1,
            items.drop_first().push(x),
        ));
        assert(spec_push_all(sort, size, s, items) == spec_push_all(
            sort,
            size,
            s1,
            items.drop_first(),
        ));
        lemma_push_all_snoc(sort, size, s1, items.drop_first(), x);
    }
}

/// Folding pushes over a concatenation equals folding the two runs one
/// after the other: gathering per-chunk results and pushing the merged run
/// leaves exactly what pushing the unsplit run leaves, so how candidates
/// were chunked across workers cannot change the outcome.
pub proof fn lemma_push_all_append<V>(
    sort: Sort,
    size: nat,
    s: Seq<ScoredItem<V>>,
    a: Seq<ScoredItem<V>>,
    b: Seq<ScoredItem<V>>,
)
    ensures
        spec_push_all(sort, size, s, a + b) == spec_push_all(
            sort,
            size,
            spec_push_all(sort, size, s, a),
            b,
        ),
    decreases a.len(),
{
    if a.len() == 0 {
        assert(a + b =~= b);
    } else {
        assert((a + b)[0] == a[0]);
        assert((a + b).drop_first() =~= a.drop_first() + b);
        let s1 = spec_push_any(sort, size, s, a[0]);
        assert(spec_push_all(sort, size, s, a + b) == spec_push_all(
            sort,
            size,
            s1,
            a.drop_first() + b,
        ));
        assert(spec_push_all(sort, size, s, a) == spec_push_all(sort, size, s1, a.drop_first()));
        lemma_push_all_append(sort, size, s1, a.drop_first(), b);
    }
}


/// Whether some entry carries the key.
pub open spec fn key_present<V>(s: Seq<ScoredItem<V>>, b: Option<u64>) -> bool {
    exists|q: int| 0 <= q < s.len() && (#[trigger] s[q]).bucket == b
}

/// What always holds of a buffer grown by bucketed pushes from empty:
/// it is well shaped; no push of a key ever beats the retained entry of
/// that key; while there is room every pushed key is retained; and once at
/// capacity, a push whose key is no longer retained never beats the current
/// worst entry (the floor over which every newcomer must climb).
pub open spec fn bucket_history_inv<V>(
    sort: Sort,
    size: nat,
    s: Seq<ScoredItem<V>>,
    pushed: Seq<ScoredItem<V>>,
) -> bool {
    &&& sorted_worst_first(sort, s)
    &&& buckets_unique(s)
    &&& s.len() <= size
    &&& forall|q: int, w: int|
        0 <= q < s.len() && 0 <= w < pushed.len() && (#[trigger] pushed[w]).bucket == (
        #[trigger] s[q]).bucket ==> !strictly_better(sort, pushed[w].score, s[q].score)
    &&& (s.len() < size ==> forall|w: int|
        0 <= w < pushed.len() ==> key_present(s, (#[trigger] pushed[w]).bucket))
    &&& (s.len() == size && size > 0 ==> forall|w: int|
        0 <= w < pushed.len() && !key_present(s, (#[trigger] pushed[w]).bucket)
            ==> !strictly_better(sort, pushed[w].score, s[0].score))
}

/// One more bucketed push keeps the history invariant.
proof fn lemma_bucket_history_step<V>(
    sort: Sort,
    size: nat,
    s: Seq<ScoredItem<V>>,
    pushed: Seq<ScoredItem<V>>,
    item: ScoredItem<V>,
)
    requires
        bucket_history_inv(sort, size, s, pushed),
        item.bucket is Some,
    ensures
        bucket_history_inv(sort, size, spec_push_bucket(sort, size, s, item), pushed.push(item)),
    decreases 0int,
{
    let b = item.bucket->0;
    let p = spec_bucket_pos(s, b);
    let r = spec_push_bucket(sort, size, s, item);
    let pushed2 = pushed.push(item);
    lemma_bucket_pos_props(s, b);
    lemma_spec_push_bucket_preserves_wf(sort, size, s, item);
    if p >= 0 {
        let e = s[p];
        if strictly_better(sort, item.score, e.score) {
            // the newcomer replaces the incumbent of its key
            let base = s.remove(p);
            lemma_insert_pos_props(sort, base, item.score);
            let ip = spec_insert_pos(sort, base, item.score);
            base.insert_ensures(ip, item);
            assert(forall|a: int|
                0 <= a < base.len() ==> #[trigger] base[a] == (if a < p {
                    s[a]
                } else {
                    s[a + 1]
                }));
            assert forall|q: int, w: int|
                0 <= q < r.len() && 0 <= w < pushed2.len() && (#[trigger] pushed2[w]).bucket == (
            #[trigger] r[q]).bucket implies !strictly_better(sort, pushed2[w].score, r[q].score) by {
                if r[q] == item {
                    if pushed2[w].bucket == item.bucket {
                        if w < pushed.len() {
                            assert(!strictly_better(sort, pushed[w].score, e.score));
                        }
                    }
                } else {
                    let a = if q < ip {
                        q
                    } else {
                        q - 1
                    };
                    assert(r[q] == base[a]);
                    let a0 = if a < p {
                        a
                    } else {
                        a + 1
                    };
                    assert(base[a] == s[a0]);
                    if w < pushed.len() {
                        assert(!strictly_better(sort, pushed[w].score, s[a0].score));
                    } else {
                        assert(pushed2[w] == item);
                        if item.bucket == s[a0].bucket {
                            assert(a0 != p ==> s[a0].bucket != Some(b));
                        }
                    }
                }
            }
            // every key retained before is retained still, and the key of
            // the newcomer is retained by the newcomer itself
            assert forall|bb: Option<u64>| key_present(s, bb) implies key_present(r, bb) by {
                let q0 = choose|q0: int| 0 <= q0 < s.len() && (#[trigger] s[q0]).bucket == bb;
                if q0 == p {
                    assert(r[ip].bucket == bb);
                } else {
                    let a = if q0 < p {
                        q0
                    } else {
                        q0 - 1
                    };
                    let q1 = if a < ip {
                        a
                    } else {
                        a + 1
                    };
                    assert(r[q1] == base[a] && base[a] == s[q0]);
                }
            }
            assert(r[ip] == item);
            if r.len() < size {
                assert forall|w: int| 0 <= w < pushed2.len() implies key_present(
                    r,
                    (#[trigger] pushed2[w]).bucket,
                ) by {
                    if w < pushed.len() {
                        assert(key_present(s, pushed[w].bucket));
                    } else {
                        assert(r[ip].bucket == item.bucket);
                    }
                }
            }
            if r.len() == size && size > 0 {
                // the worst never falls: the removed incumbent was beaten,
                // and every other entry stays
                assert(!strictly_better(sort, s[0].score, r[0].score)) by {
                    if ip == 0 {
                        assert(r[0] == item);
                        if p == 0 {
                        } else {
                            assert(base[0] == s[0]);
                            assert(!strictly_better(sort, base[0].score, item.score));
                        }
                    } else {
                        assert(r[0] == base[0]);
                        if p == 0 {
                            assert(base[0] == s[1]);
                        } else {
                            assert(base[0] == s[0]);
                        }
                    }
                }
                assert forall|w: int|
                    0 <= w < pushed2.len() && !key_present(r, (#[trigger] pushed2[w]).bucket)
                    implies !strictly_better(sort, pushed2[w].score, r[0].score) by {
                    if w < pushed.len() {
                        assert(!key_present(s, pushed[w].bucket));
                        if s.len() == size {
                            assert(!strictly_better(sort, pushed[w].score, s[0].score));
                        }
                    } else {
                        assert(r[ip].bucket == item.bucket);
                    }
                }
            }
        } else {
            // the newcomer is discarded: the incumbent already beats it
            assert(r == s);
            assert forall|q: int, w: int|
                0 <= q < r.len() && 0 <= w < pushed2.len() && (#[trigger] pushed2[w]).bucket == (
            #[trigger] r[q]).bucket implies !strictly_better(sort, pushed2[w].score, r[q].score) by {
                if w >= pushed.len() {
                    assert(pushed2[w] == item);
                    if item.bucket == r[q].bucket {
                        assert(q == p) by {
                            if q != p {
                                if q < p {
                                    assert(s[q].bucket != s[p].bucket || !(s[q].bucket is Some));
                                    assert(s[q].bucket != Some(b));
                                } else {
                                    assert(s[p].bucket != s[q].bucket);
                                }
                            }
                        }
                    }
                }
            }
            if r.len() < size {
                assert forall|w: int| 0 <= w < pushed2.len() implies key_present(
                    r,
                    (#[trigger] pushed2[w]).bucket,
                ) by {
                    if w >= pushed.len() {
                        assert(r[p].bucket == item.bucket);
                    }
                }
            }
            if r.len() == size && size > 0 {
                assert forall|w: int|
                    0 <= w < pushed2.len() && !key_present(r, (#[trigger] pushed2[w]).bucket)
                    implies !strictly_better(sort, pushed2[w].score, r[0].score) by {
                    if w >= pushed.len() {
                        assert(r[p].bucket == item.bucket);
                    }
                }
            }
        }
    } else {
        // no incumbent: the newcomer goes through a plain push
        lemma_push_history_step(sort, size, s, pushed, item);
    }
}

/// The plain-push case of the history step: the pushed key is fresh.
proof fn lemma_push_history_step<V>(
    sort: Sort,
    size: nat,
    s: Seq<ScoredItem<V>>,
    pushed: Seq<ScoredItem<V>>,
    item: ScoredItem<V>,
)
    requires
        bucket_history_inv(sort, size, s, pushed),
        item.bucket is Some,
        forall|i: int| 0 <= i < s.len() ==> (#[trigger] s[i].bucket) != item.bucket,
        spec_push_bucket(sort, size, s, item) == spec_push(sort, size, s, item),
    ensures
        bucket_history_inv(sort, size, spec_push_bucket(sort, size, s, item), pushed.push(item)),
{
    let r = spec_push(sort, size, s, item);
    let pushed2 = pushed.push(item);
    lemma_spec_push_bucket_preserves_wf(sort, size, s, item);
    if s.len() < size {
        // room: the newcomer is simply inserted
        lemma_insert_pos_props(sort, s, item.score);
        let ip = spec_insert_pos(sort, s, item.score);
        s.insert_ensures(ip, item);
        assert(r[ip] == item);
        // a push of the newcomer's key cannot have happened before: while
        // there is room every pushed key stays retained, and none carries it
        assert forall|w: int|
            0 <= w < pushed.len() implies (#[trigger] pushed[w]).bucket != item.bucket by {
            assert(key_present(s, pushed[w].bucket));
            let q0 = choose|q0: int|
                0 <= q0 < s.len() && (#[trigger] s[q0]).bucket == pushed[w].bucket;
        }
        assert forall|q: int, w: int|
            0 <= q < r.len() && 0 <= w < pushed2.len() && (#[trigger] pushed2[w]).bucket == (
        #[trigger] r[q]).bucket implies !strictly_better(sort, pushed2[w].score, r[q].score) by {
            let a = if q < ip {
                q
            } else {
                q - 1
            };
            if r[q] != item {
                assert(r[q] == s[a]);
                if w >= pushed.len() {
                    assert(pushed2[w] == item);
                    assert(s[a].bucket != item.bucket);
                } else {
                    assert(!strictly_better(sort, pushed[w].score, s[a].score));
                }
            } else {
                assert(q == ip && r[q] == item);
                if w < pushed.len() {
                    assert(pushed[w].bucket != item.bucket);
                }
            }
        }
        if r.len() < size {
            assert forall|w: int| 0 <= w < pushed2.len() implies key_present(
                r,
                (#[trigger] pushed2[w]).bucket,
            ) by {
                if w < pushed.len() {
                    assert(key_present(s, pushed[w].bucket));
                    let q0 = choose|q0: int|
                        0 <= q0 < s.len() && (#[trigger] s[q0]).bucket == pushed[w].bucket;
                    let q1 = if q0 < ip {
                        q0
                    } else {
                        q0 + 1
                    };
                    assert(r[q1] == s[q0]);
                } else {
                    assert(r[ip].bucket == item.bucket);
                }
            }
        }
        if r.len() == size && size > 0 {
            // the buffer just reached capacity: nothing has vanished yet
            assert forall|w: int|
                0 <= w < pushed2.len() && !key_present(r, (#[trigger] pushed2[w]).bucket)
                implies !strictly_better(sort, pushed2[w].score, r[0].score) by {
                if w < pushed.len() {
                    assert(key_present(s, pushed[w].bucket));
                    let q0 = choose|q0: int|
                        0 <= q0 < s.len() && (#[trigger] s[q0]).bucket == pushed[w].bucket;
                    let q1 = if q0 < ip {
                        q0
                    } else {
                        q0 + 1
                    };
                    assert(r[q1] == s[q0]);
                    assert(key_present(r, pushed[w].bucket));
                } else {
                    assert(r[ip].bucket == item.bucket);
                    assert(key_present(r, item.bucket));
                }
            }
        }
    } else if size > 0 && strictly_better(sort, item.score, s[0].score) {
        // at capacity: the newcomer climbs over the worst, which leaves
        let base = s.drop_first();
        lemma_insert_pos_props(sort, base, item.score);
        let ip = spec_insert_pos(sort, base, item.score);
        base.insert_ensures(ip, item);
        assert(forall|a: int| 0 <= a < base.len() ==> #[trigger] base[a] == s[a + 1]);
        assert(r[ip] == item);
        assert forall|q: int, w: int|
            0 <= q < r.len() && 0 <= w < pushed2.len() && (#[trigger] pushed2[w]).bucket == (
        #[trigger] r[q]).bucket implies !strictly_better(sort, pushed2[w].score, r[q].score) by {
            if r[q] == item {
                if w < pushed.len() && pushed[w].bucket == item.bucket {
                    // its key was never retained, so its pushes sit under
                    // the old worst, which the newcomer beat
                    assert(!key_present(s, pushed[w].bucket));
                    assert(!strictly_better(sort, pushed[w].score, s[0].score));
                }
            } else {
                let a = if q < ip {
                    q
                } else {
                    q - 1
                };
                assert(r[q] == base[a] && base[a] == s[a + 1]);
                if w < pushed.len() {
                    assert(!strictly_better(sort, pushed[w].score, s[a + 1].score));
                } else {
                    assert(pushed2[w] == item);
                    assert(s[a + 1].bucket != item.bucket);
                }
            }
        }
        if r.len() == size && size > 0 {
            // the worst never falls: the evicted entry was the old worst
            assert(!strictly_better(sort, s[0].score, r[0].score)) by {
                if ip == 0 {
                    assert(r[0] == item);
                } else {
                    assert(r[0] == base[0] && base[0] == s[1]);
                }
            }
            assert forall|w: int|
                0 <= w < pushed2.len() && !key_present(r, (#[trigger] pushed2[w]).bucket)
                implies !strictly_better(sort, pushed2[w].score, r[0].score) by {
                if w < pushed.len() {
                    if key_present(s, pushed[w].bucket) {
                        // its witness in the old buffer either survives or
                        // was the evicted worst
                        let q0 = choose|q0: int|
                            0 <= q0 < s.len() && (#[trigger] s[q0]).bucket == pushed[w].bucket;
                        if q0 > 0 {
                            let q1 = if q0 - 1 < ip {
                                q0 - 1
                            } else {
                                q0
                            };
                            assert(r[q1] == base[q0 - 1] && base[q0 - 1] == s[q0]);
                            assert(key_present(r, pushed[w].bucket));
                        } else {
                            assert(!strictly_better(sort, pushed[w].score, s[0].score));
                        }
                    } else {
                        assert(!strictly_better(sort, pushed[w].score, s[0].score));
                    }
                } else {
                    assert(r[ip].bucket == item.bucket);
                    assert(key_present(r, item.bucket));
                }
            }
        }
    } else {
        // at capacity and not better than the worst: discarded, and the
        // floor records exactly that
        assert(r == s);
        assert forall|q: int, w: int|
            0 <= q < r.len() && 0 <= w < pushed2.len() && (#[trigger] pushed2[w]).bucket == (
        #[trigger] r[q]).bucket implies !strictly_better(sort, pushed2[w].score, r[q].score) by {
            if w >= pushed.len() {
                assert(pushed2[w] == item);
                assert(r[q].bucket != item.bucket);
            }
        }
        if r.len() == size && size > 0 {
            assert forall|w: int|
                0 <= w < pushed2.len() && !key_present(r, (#[trigger] pushed2[w]).bucket)
                implies !strictly_better(sort, pushed2[w].score, r[0].score) by {
                if w >= pushed.len() {
                    assert(pushed2[w] == item);
                    assert(!strictly_better(sort, item.score, s[0].score));
                }
            }
        }
    }
}

/// Pushing any run of keyed entries into an empty buffer leaves it holding,
/// for every key it retains, an entry that no push of that key ever beat:
/// the retained entry per key is the best-scored among all pushes for it.
pub proof fn lemma_push_bucket_retains_best<V>(
    sort: Sort,
    size: nat,
    items: Seq<ScoredItem<V>>,
)
    requires
        forall|w: int| 0 <= w < items.len() ==> (#[trigger] items[w]).bucket is Some,
    ensures
        ({
            let r = spec_push_all(sort, size, Seq::empty(), items);
            forall|q: int, w: int|
                0 <= q < r.len() && 0 <= w < items.len() && (#[trigger] items[w]).bucket == (
                #[trigger] r[q]).bucket ==> !strictly_better(sort, items[w].score, r[q].score)
        }),
{
    lemma_bucket_history(sort, size, items);
}

/// The history invariant holds of every buffer grown from empty.
proof fn lemma_bucket_history<V>(sort: Sort, size: nat, items: Seq<ScoredItem<V>>)
    requires
        forall|w: int| 0 <= w < items.len() ==> (#[trigger] items[w]).bucket is Some,
    ensures
        bucket_history_inv(sort, size, spec_push_all(sort, size, Seq::empty(), items), items),
    decreases items.len(),
{
    if items.len() == 0 {
        assert(spec_push_all(sort, size, Seq::<ScoredItem<V>>::empty(), items)
            == Seq::<ScoredItem<V>>::empty());
    } else {
        let front = items.drop_last();
        let x = items.last();
        assert(items =~= front.push(x));
        lemma_bucket_history(sort, size, front);
        lemma_push_all_snoc(sort, size, Seq::empty(), front, x);
        let s = spec_push_all(sort, size, Seq::<ScoredItem<V>>::empty(), front);
        assert(spec_push_all(sort, size, Seq::<ScoredItem<V>>::empty(), items)
            == spec_push_any(sort, size, s, x));
        lemma_bucket_history_step(sort, size, s, front, x);
        assert(front.push(x) =~= items);
    }
}

/// A newcomer that no present entry beats is appended at the best end.
proof fn lemma_insert_pos_at_end<V>(sort: Sort, s: Seq<ScoredItem<V>>, score: u64)
    requires
        forall|i: int| 0 <= i < s.len() ==> !strictly_better(sort, #[trigger] s[i].score, score),
    ensures
        spec_insert_pos(sort, s, score) == s.len(),
{
    lemma_insert_pos_props(sort, s, score);
    let p = spec_insert_pos(sort, s, score);
    if p < s.len() {
        assert(!strictly_better(sort, s[p].score, score));
    }
}

/// After a run of strictly improving plain pushes into an initially empty
/// buffer of capacity K under descending order, the buffer holds exactly
/// the K best-scored entries, still ordered worst to best.
pub proof fn lemma_increasing_pushes_keep_top_k<V>(size: nat, items: Seq<ScoredItem<V>>)
    requires
        size > 0,
        forall|i: int, j: int|
            0 <= i < j < items.len() ==> (#[trigger] items[i].score) < (#[trigger] items[j].score),
        forall|i: int| 0 <= i < items.len() ==> (#[trigger] items[i].bucket) is None,
    ensures
        spec_push_all(Sort::Descending, size, Seq::empty(), items) == items.skip(
            if items.len() <= size {
                0
            } else {
                items.len() - size
            },
        ),
    decreases items.len(),
{
    let sort = Sort::Descending;
    if items.len() == 0 {
        assert(items.skip(0) =~= items);
    } else {
        let front = items.drop_last();
        let x = items.last();
        assert(items =~= front.push(x));
        lemma_increasing_pushes_keep_top_k(size, front);
        lemma_push_all_snoc(sort, size, Seq::empty(), front, x);
        let r = spec_push_all(sort, size, Seq::empty(), front);
        let cut = if front.len() <= size {
            0
        } else {
            front.len() - size
        };
        assert(r == front.skip(cut as int));
        assert forall|i: int| 0 <= i < r.len() implies !strictly_better(
            sort,
            #[trigger] r[i].score,
            x.score,
        ) by {
            assert(r[i] == front[cut + i]);
            assert(front[cut + i] == items[cut + i]);
        }
        if r.len() < size {
            lemma_insert_pos_at_end(sort, r, x.score);
            assert(spec_push(sort, size, r, x) =~= r.push(x));
            assert(r.push(x) =~= items.skip(cut as int));
        } else {
            assert(r[0] == front[cut as int]);
            assert(strictly_better(sort, x.score, r[0].score));
            lemma_insert_pos_at_end(sort, r.drop_first(), x.score);
            assert(spec_push(sort, size, r, x) =~= r.drop_first().push(x));
            assert(r.drop_first().push(x) =~= items.skip(cut + 1));
        }
    }
}

/// After any run of pushes that all carry one bucket key `b` into an
/// initially empty buffer, exactly one entry is retained, it carries `b`,
/// no pushed score beats it, and it is one of the pushed entries.
pub proof fn lemma_push_bucket_keeps_best<V>(
    sort: Sort,
    size: nat,
    items: Seq<ScoredItem<V>>,
    b: u64,
)
    requires
        size > 0,
        items.len() > 0,
        forall|i: int| 0 <= i < items.len() ==> (#[trigger] items[i].bucket) == Some(b),
    ensures
        ({
            let r = spec_push_all(sort, size, Seq::empty(), items);
            &&& r.len() == 1
            &&& r[0].bucket == Some(b)
            &&& forall|i: int|
                0 <= i < items.len() ==> !strictly_better(sort, (#[trigger] items[i]).score, r[0].score)
            &&& exists|i: int| 0 <= i < items.len() && items[i] == r[0]
        }),
    decreases items.len(),
{
    let x = items.last();
    if items.len() == 1 {
        assert(items[0] == x);
        assert(items.drop_first() =~= Seq::<ScoredItem<V>>::empty());
        let r = spec_push_all(sort, size, Seq::<ScoredItem<V>>::empty(), items);
        assert(r == spec_push_all(
            sort,
            size,
            spec_push_any(sort, size, Seq::empty(), x),
            items.drop_first(),
        ));
        assert(r == spec_push_any(sort, size, Seq::empty(), x));
        assert(spec_bucket_pos(Seq::<ScoredItem<V>>::empty(), b) == -1);
        lemma_insert_pos_at_end(sort, Seq::<ScoredItem<V>>::empty(), x.score);
        assert(r =~= Seq::empty().push(x));
        assert(r[0] == x);
        assert(items[0] == r[0]);
    } else {
        let front = items.drop_last();
        assert(items =~= front.push(x));
        lemma_push_bucket_keeps_best(sort, size, front, b);
        lemma_push_all_snoc(sort, size, Seq::empty(), front, x);
        let r0 = spec_push_all(sort, size, Seq::empty(), front);
        let r = spec_push_all(sort, size, Seq::empty(), items);
        assert(r == spec_push_bucket(sort, size, r0, x));
        assert(spec_bucket_pos(r0, b) == 0) by {
            lemma_bucket_pos_props(r0, b);
            assert(r0[0].bucket == Some(b));
        }
        if strictly_better(sort, x.score, r0[0].score) {
            assert(r0.remove(0) =~= Seq::<ScoredItem<V>>::empty());
            lemma_insert_pos_at_end(sort, Seq::<ScoredItem<V>>::empty(), x.score);
            assert(r =~= Seq::empty().push(x));
            assert(r[0] == x);
            assert(items[items.len() - 1] == r[0]);
            assert forall|i: int| 0 <= i < items.len() implies !strictly_better(
                sort,
                (#[trigger] items[i]).score,
                r[0].score,
            ) by {
                if i < items.len() - 1 {
                    assert(front[i] == items[i]);
                    assert(!strictly_better(sort, items[i].score, r0[0].score));
                }
            }
        } else {
            assert(r == r0);
            let w = choose|i: int| 0 <= i < front.len() && front[i] == r0[0];
            assert(items[w] == r0[0]);
            assert forall|i: int| 0 <= i < items.len() implies !strictly_better(
                sort,
                (#[trigger] items[i]).score,
                r[0].score,
            ) by {
                if i < items.len() - 1 {
                    assert(front[i] == items[i]);
                }
            }
        }
    }
}


/// Whatever one push leaves in the buffer was already there or is the
/// pushed entry itself.
pub proof fn lemma_push_any_elements<V>(
    sort: Sort,
    size: nat,
    s: Seq<ScoredItem<V>>,
    item: ScoredItem<V>,
)
    ensures
        forall|q: int|
            0 <= q < spec_push_any(sort, size, s, item).len() ==> s.contains(
                #[trigger] spec_push_any(sort, size, s, item)[q],
            ) || spec_push_any(sort, size, s, item)[q] == item,
{
    let r = spec_push_any(sort, size, s, item);
    assert forall|q: int| 0 <= q < r.len() implies s.contains(#[trigger] r[q]) || r[q] == item by {
        if item.bucket is Some {
            let p = spec_bucket_pos(s, item.bucket->0);
            lemma_bucket_pos_props(s, item.bucket->0);
            if p < 0 {
                lemma_push_elem_helper(sort, size, s, item, q);
            } else if strictly_better(sort, item.score, s[p].score) {
                let base = s.remove(p);
                lemma_insert_pos_props(sort, base, item.score);
                base.insert_ensures(spec_insert_pos(sort, base, item.score), item);
                if r[q] != item {
                    let w = choose|w: int| 0 <= w < base.len() && base[w] == r[q];
                    assert(base[w] == if w < p {
                        s[w]
                    } else {
                        s[w + 1]
                    });
                    assert(s.contains(r[q]));
                }
            }
        } else {
            lemma_push_elem_helper(sort, size, s, item, q);
        }
    }
}

/// The plain-push case of the membership fact above.
proof fn lemma_push_elem_helper<V>(
    sort: Sort,
    size: nat,
    s: Seq<ScoredItem<V>>,
    item: ScoredItem<V>,
    q: int,
)
    requires
        0 <= q < spec_push(sort, size, s, item).len(),
    ensures
        s.contains(spec_push(sort, size, s, item)[q]) || spec_push(sort, size, s, item)[q] == item,
{
    let r = spec_push(sort, size, s, item);
    if s.len() < size {
        lemma_insert_pos_props(sort, s, item.score);
        s.insert_ensures(spec_insert_pos(sort, s, item.score), item);
        if r[q] != item {
            let w = choose|w: int| 0 <= w < s.len() && s[w] == r[q];
            assert(s.contains(r[q]));
        }
    } else if size > 0 && strictly_better(sort, item.score, s[0].score) {
        let base = s.drop_first();
        lemma_insert_pos_props(sort, base, item.score);
        base.insert_ensures(spec_insert_pos(sort, base, item.score), item);
        if r[q] != item {
            let w = choose|w: int| 0 <= w < base.len() && base[w] == r[q];
            assert(base[w] == s[w + 1]);
            assert(s.contains(r[q]));
        }
    } else {
        assert(s[q] == r[q]);
        assert(s.contains(r[q]));
    }
}

impl<V: Scored> ScoredCircularBuffer<V> {
    /// Push a value under the score it reports for itself.
    pub fn push_scored(&mut self, item: V)
        requires
            old(self).well_formed(),
        ensures
            final(self)@ == spec_push(
                old(self).spec_sort(),
                old(self).spec_capacity(),
                old(self)@,
                ScoredItem { score: item.score_spec(), bucket: None, value: item },
            ),
            final(self).well_formed(),
            final(self).spec_capacity() == old(self).spec_capacity(),
            final(self).spec_sort() == old(self).spec_sort(),
    {
        let score = item.score();
        self.push(item, score);
    }
}

} // verus!
