//! Instance storage shared by all models.
//!
//! Every model owns a bucket: a contiguous range of slots in one storage vector.
//! Buckets follow each other without gaps, in the order of the models, so that a
//! renderer can draw each model with one instanced call over its range.

use std::collections::HashSet;
use vstd::prelude::*;

verus! {

broadcast use vstd::std_specs::hash::group_hash_axioms;

/// Number of slots that `ModelInstances::new` allocates.
pub const MAX_INSTANCES: usize = 1000;

/// A model and the range of storage slots that hold its instances.
pub struct ModelBucket<M> {
    pub model: M,
    start_index: usize,
    current_len: usize,
}

impl<M> ModelBucket<M> {
    /// The model the bucket holds.
    pub closed spec fn model_value(&self) -> M {
        self.model
    }

    /// First slot of the bucket.
    pub closed spec fn start(&self) -> nat {
        self.start_index as nat
    }

    /// Number of instances in the bucket.
    pub closed spec fn count(&self) -> nat {
        self.current_len as nat
    }

    /// One past the last slot of the bucket.
    pub open spec fn end(&self) -> nat {
        self.start() + self.count()
    }

    /// First slot of the bucket.
    pub fn start_index(&self) -> (r: usize)
        ensures
            r == self.start(),
    {
        self.start_index
    }

    /// Number of instances in the bucket.
    pub fn current_len(&self) -> (r: usize)
        ensures
            r == self.count(),
    {
        self.current_len
    }

    /// The bucket's slot range, as the `u32` instance range of a draw call.
    pub fn get_instance_range(&self) -> (r: std::ops::Range<u32>)
        requires
            self.end() <= usize::MAX,
        ensures
            r.start == self.start() as u32,
            r.end == self.end() as u32,
    {
        std::ops::Range {
            start: self.start_index as u32,
            end: (self.start_index + self.current_len) as u32,
        }
    }
}

/// Buckets are laid out one after the other from slot 0, without gaps.
pub open spec fn chained<M>(b: Seq<ModelBucket<M>>) -> bool {
    &&& b.len() > 0 ==> b[0].start() == 0
    &&& forall|j: int| 1 <= j < b.len() ==> #[trigger] b[j].start() == b[j - 1].end()
}

/// Number of slots in use: the end of the last bucket.
pub open spec fn occupied<M>(b: Seq<ModelBucket<M>>) -> nat {
    if b.len() == 0 {
        0
    } else {
        b.last().end()
    }
}

/// `post` is `pre` with bucket `m` grown by `delta` instances and every later
/// bucket moved by `delta` slots; models are unchanged.
pub open spec fn bucket_resized<M>(
    pre: Seq<ModelBucket<M>>,
    post: Seq<ModelBucket<M>>,
    m: int,
    delta: int,
) -> bool {
    &&& post.len() == pre.len()
    &&& forall|j: int|
        0 <= j < pre.len() ==> {
            &&& (#[trigger] post[j]).model_value() == pre[j].model_value()
            &&& post[j].count() == pre[j].count() + (if j == m {
                delta
            } else {
                0
            })
            &&& post[j].start() == pre[j].start() + (if j > m {
                delta
            } else {
                0
            })
        }
}

/// What `Vec::pop` leaves of a sequence.
pub open spec fn without_last<T>(s: Seq<T>) -> Seq<T> {
    if s.len() == 0 {
        s
    } else {
        s.drop_last()
    }
}

/// Chained buckets are ordered and never overlap: every bucket ends at or before
/// the start of any later bucket.
pub proof fn lemma_buckets_disjoint<M>(b: Seq<ModelBucket<M>>, i: int, j: int)
    requires
        chained(b),
        0 <= i < j < b.len(),
    ensures
        b[i].end() <= b[j].start(),
    decreases j - i,
{
    if j > i + 1 {
        lemma_buckets_disjoint(b, i, j - 1);
        assert(b[j].start() == b[j - 1].end());
    } else {
        assert(b[j].start() == b[j - 1].end());
    }
}

/// Every chained bucket lies within the occupied prefix of the storage.
pub proof fn lemma_bucket_within_occupied<M>(b: Seq<ModelBucket<M>>, j: int)
    requires
        chained(b),
        0 <= j < b.len(),
    ensures
        b[j].end() <= occupied(b),
{
    if j < b.len() - 1 {
        lemma_buckets_disjoint(b, j, b.len() - 1);
    }
}

/// Instances of all models, in one storage vector of slots, with a parallel
/// vector of their raw (GPU-ready) forms and the set of slots whose raw form is
/// out of date.
pub struct ModelInstances<M, I, R> {
    model_buckets: Vec<ModelBucket<M>>,
    instances: Vec<I>,
    raw_instances: Vec<R>,
    num_slots: usize,
    instances_to_update: HashSet<usize>,
}

impl<M, I, R> ModelInstances<M, I, R> {
    /// The buckets, one per model, in model order.
    pub closed spec fn buckets(&self) -> Seq<ModelBucket<M>> {
        self.model_buckets@
    }

    /// The storage slots.
    pub closed spec fn slots(&self) -> Seq<I> {
        self.instances@
    }

    /// The raw forms, one per storage slot.
    pub closed spec fn raws(&self) -> Seq<R> {
        self.raw_instances@
    }

    /// The largest number of instances that may be stored.
    pub closed spec fn capacity(&self) -> nat {
        self.num_slots as nat
    }

    /// Slots handed out for modification since creation.
    pub closed spec fn pending(&self) -> Set<usize> {
        self.instances_to_update@
    }

    /// Well-formedness: one raw form per slot, buckets laid out without gaps, and
    /// no more instances than the capacity.
    pub open spec fn wf(&self) -> bool {
        &&& self.slots().len() == self.raws().len()
        &&& chained(self.buckets())
        &&& occupied(self.buckets()) <= self.capacity()
    }

    /// Number of stored instances, over all models.
    pub open spec fn total(&self) -> nat {
        occupied(self.buckets())
    }

    /// The instances of model `j`, in order.
    pub open spec fn bucket_instances(&self, j: int) -> Seq<I> {
        self.slots().subrange(self.buckets()[j].start() as int, self.buckets()[j].end() as int)
    }

    /// The instances of every model, model by model.
    pub open spec fn view_buckets(&self) -> Seq<Seq<I>> {
        Seq::new(self.buckets().len(), |j: int| self.bucket_instances(j))
    }

    /// `raws` holds, for every pending slot, the raw form that `to_raw` computes
    /// from the slot's instance, and the current raw form of every other slot.
    pub open spec fn refreshed_raws<F: Fn(&I) -> R>(&self, raws: Seq<R>, to_raw: F) -> bool {
        &&& raws.len() == self.raws().len()
        &&& forall|i: usize|
            i < self.raws().len() ==> if self.pending().contains(i) {
                call_ensures(to_raw, (&self.slots()[i as int],), #[trigger] raws[i as int])
            } else {
                raws[i as int] == self.raws()[i as int]
            }
    }

    /// Slot at which an instance added to model `m` is placed: the end of its bucket.
    pub open spec fn insert_point(&self, m: int) -> int {
        self.buckets()[m].end() as int
    }

    /// Slot of instance `k` of model `m`.
    pub open spec fn global_index(&self, m: int, k: int) -> int {
        self.buckets()[m].start() + k
    }

    /// The buckets, one per model.
    pub fn model_buckets(&self) -> (r: &Vec<ModelBucket<M>>)
        ensures
            r@ == self.buckets(),
    {
        &self.model_buckets
    }

    /// The storage slots.
    pub fn instances(&self) -> (r: &Vec<I>)
        ensures
            r@ == self.slots(),
    {
        &self.instances
    }

    /// The raw forms of the slots.
    pub fn raw_instances(&self) -> (r: &Vec<R>)
        ensures
            r@ == self.raws(),
    {
        &self.raw_instances
    }

    /// The capacity given at creation.
    pub fn num_slots(&self) -> (r: usize)
        ensures
            r == self.capacity(),
    {
        self.num_slots
    }

    /// Slots handed out for modification.
    pub fn instances_to_update(&self) -> (r: &HashSet<usize>)
        ensures
            r@ == self.pending(),
    {
        &self.instances_to_update
    }

    fn is_model_index_valid(&self, model_id: usize) -> (r: bool)
        ensures
            r == (model_id < self.buckets().len()),
    {
        if model_id >= self.model_buckets.len() {
            return false;
        }
        return true;
    }

    fn is_index_valid(&self, model_id: usize, instance_id: usize) -> (r: bool)
        ensures
            r == (model_id < self.buckets().len() && instance_id < self.buckets()[model_id as int].count()),
    {
        return self.is_model_index_valid(model_id) && instance_id
            < self.model_buckets[model_id].current_len;
    }

    /// The instances of model `model_id`, or `None` where its bucket reaches past
    /// the end of the storage.
    pub fn get_instances_from_model_id(&self, model_id: usize) -> (r: Option<&[I]>)
        requires
            self.wf(),
            model_id < self.buckets().len(),
        ensures
            r is Some <==> self.buckets()[model_id as int].end() <= self.slots().len(),
            r matches Some(s) ==> s@ == self.bucket_instances(model_id as int),
    {
        proof {
            lemma_bucket_within_occupied(self.model_buckets@, model_id as int);
        }
        let start = self.model_buckets[model_id].start_index;
        let end = start + self.model_buckets[model_id].current_len;
        if end <= self.instances.len() {
            Some(vstd::slice::slice_subrange(self.instances.as_slice(), start, end))
        } else {
            None
        }
    }

    /// Hands out instance `instance_id` of model `model_id` for modification and
    /// records its slot as pending.
    pub fn get_mut_instance(&mut self, model_id: usize, instance_id: usize) -> (r: &mut I)
        requires
            old(self).wf(),
            model_id < old(self).buckets().len(),
            instance_id < old(self).buckets()[model_id as int].count(),
            old(self).global_index(model_id as int, instance_id as int) < old(self).slots().len(),
        ensures
            *r == old(self).slots()[old(self).global_index(model_id as int, instance_id as int)],
            final(self).slots() == old(self).slots().update(
                old(self).global_index(model_id as int, instance_id as int),
                *final(r),
            ),
            final(self).buckets() == old(self).buckets(),
            final(self).raws() == old(self).raws(),
            final(self).capacity() == old(self).capacity(),
            final(self).pending() == old(self).pending().insert(
                old(self).global_index(model_id as int, instance_id as int) as usize,
            ),
            final(self).wf(),
    {
        proof {
            lemma_bucket_within_occupied(self.model_buckets@, model_id as int);
        }
        let global_idx = self.model_buckets[model_id].start_index + instance_id;
        self.instances_to_update.insert(global_idx);
        &mut self.instances[global_idx]
    }

    /// Adds `instance` at the end of model `model_id`'s bucket and moves every
    /// later bucket up by one slot. The storage keeps its length: its last slot is
    /// dropped first.
    pub fn add_instance<F: Fn(&I) -> R>(&mut self, model_id: usize, instance: I, to_raw: F)
        requires
            old(self).wf(),
            model_id < old(self).buckets().len(),
            old(self).total() + 1 <= old(self).capacity(),
            old(self).insert_point(model_id as int) <= without_last(old(self).slots()).len(),
            call_requires(to_raw, (&instance,)),
        ensures
            final(self).wf(),
            bucket_resized(old(self).buckets(), final(self).buckets(), model_id as int, 1),
            final(self).total() == old(self).total() + 1,
            old(self).slots().len() > 0 ==> final(self).slots().len() == old(self).slots().len(),
            final(self).slots()[old(self).insert_point(model_id as int)] == instance,
            forall|i: int|
                0 <= i < old(self).insert_point(model_id as int) ==> #[trigger] final(self).slots()[i]
                    == old(self).slots()[i],
            final(self).slots() == without_last(old(self).slots()).insert(
                old(self).insert_point(model_id as int),
                instance,
            ),
            final(self).raws() == without_last(old(self).raws()).insert(
                old(self).insert_point(model_id as int),
                final(self).raws()[old(self).insert_point(model_id as int)],
            ),
            call_ensures(
                to_raw,
                (&instance,),
                final(self).raws()[old(self).insert_point(model_id as int)],
            ),
            final(self).capacity() == old(self).capacity(),
            final(self).pending() == old(self).pending(),
    {
        let ghost pre = self.model_buckets@;
        let ghost p = self.insert_point(model_id as int);
        proof {
            lemma_bucket_within_occupied(pre, model_id as int);
        }
        let raw = to_raw(&instance);
        self.raw_instances.pop();
        self.instances.pop();
        let insert_index = self.model_buckets[model_id].start_index
            + self.model_buckets[model_id].current_len;
        self.raw_instances.insert(insert_index, raw);
        self.instances.insert(insert_index, instance);
        assert(self.raw_instances@[p] == raw);

        let bucket = &mut self.model_buckets[model_id];
        bucket.current_len = bucket.current_len + 1;

        // Every later bucket starts one slot further on.
        let n = self.model_buckets.len();
        let ghost slots_now = self.instances@;
        let ghost raws_now = self.raw_instances@;
        let ghost cap = self.num_slots;
        let ghost todo = self.instances_to_update@;
        let mut j: usize = model_id + 1;
        while j < n
            invariant
                n == pre.len(),
                model_id < j <= pre.len(),
                self.model_buckets@.len() == pre.len(),
                self.instances@ == slots_now,
                self.raw_instances@ == raws_now,
                self.num_slots == cap,
                self.instances_to_update@ == todo,
                chained(pre),
                occupied(pre) + 1 <= self.num_slots,
                forall|k: int|
                    0 <= k < pre.len() ==> {
                        &&& (#[trigger] self.model_buckets@[k]).model_value()
                            == pre[k].model_value()
                        &&& self.model_buckets@[k].count() == pre[k].count() + (if k
                            == model_id {
                            1int
                        } else {
                            0
                        })
                        &&& self.model_buckets@[k].start() == pre[k].start() + (if model_id < k
                            < j {
                            1int
                        } else {
                            0
                        })
                    },
            decreases pre.len() - j,
        {
            proof {
                lemma_bucket_within_occupied(pre, j as int);
            }
            let bucket = &mut self.model_buckets[j];
            bucket.start_index = bucket.start_index + 1;
            j = j + 1;
        }
        proof {
            let post = self.model_buckets@;
            assert forall|k: int| 1 <= k < post.len() implies #[trigger] post[k].start()
                == post[k - 1].end() by {
                assert(pre[k].start() == pre[k - 1].end());
            }
        }
    }

    /// Removes instance `instance_id` of model `model_id` and moves every later
    /// bucket down by one slot. The storage shrinks by one slot.
    pub fn remove_instance(&mut self, model_id: usize, instance_id: usize)
        requires
            old(self).wf(),
            model_id < old(self).buckets().len(),
            instance_id < old(self).buckets()[model_id as int].count(),
            old(self).global_index(model_id as int, instance_id as int) < old(self).slots().len(),
        ensures
            final(self).wf(),
            bucket_resized(old(self).buckets(), final(self).buckets(), model_id as int, -1),
            final(self).total() == old(self).total() - 1,
            final(self).slots().len() == old(self).slots().len() - 1,
            final(self).slots() == old(self).slots().remove(
                old(self).global_index(model_id as int, instance_id as int),
            ),
            final(self).raws() == old(self).raws().remove(
                old(self).global_index(model_id as int, instance_id as int),
            ),
            final(self).capacity() == old(self).capacity(),
            final(self).pending() == old(self).pending(),
    {
        let ghost pre = self.model_buckets@;
        proof {
            lemma_bucket_within_occupied(pre, model_id as int);
        }
        let global_idx = self.model_buckets[model_id].start_index + instance_id;
        self.instances.remove(global_idx);
        self.raw_instances.remove(global_idx);

        let bucket = &mut self.model_buckets[model_id];
        bucket.current_len = bucket.current_len - 1;

        // Every later bucket starts one slot earlier.
        let n = self.model_buckets.len();
        let ghost slots_now = self.instances@;
        let ghost raws_now = self.raw_instances@;
        let ghost cap = self.num_slots;
        let ghost todo = self.instances_to_update@;
        let mut j: usize = model_id + 1;
        while j < n
            invariant
                n == pre.len(),
                model_id < j <= pre.len(),
                self.model_buckets@.len() == pre.len(),
                self.instances@ == slots_now,
                self.raw_instances@ == raws_now,
                self.num_slots == cap,
                self.instances_to_update@ == todo,
                chained(pre),
                pre[model_id as int].count() > 0,
                forall|k: int|
                    0 <= k < pre.len() ==> {
                        &&& (#[trigger] self.model_buckets@[k]).model_value()
                            == pre[k].model_value()
                        &&& self.model_buckets@[k].count() == pre[k].count() - (if k
                            == model_id {
                            1int
                        } else {
                            0
                        })
                        &&& self.model_buckets@[k].start() == pre[k].start() - (if model_id < k
                            < j {
                            1int
                        } else {
                            0
                        })
                    },
            decreases pre.len() - j,
        {
            proof {
                lemma_buckets_disjoint(pre, model_id as int, j as int);
            }
            let bucket = &mut self.model_buckets[j];
            bucket.start_index = bucket.start_index - 1;
            j = j + 1;
        }
        proof {
            let post = self.model_buckets@;
            assert forall|k: int| 1 <= k < post.len() implies #[trigger] post[k].start()
                == post[k - 1].end() by {
                assert(pre[k].start() == pre[k - 1].end());
            }
        }
    }

    /// Recomputes the raw form of every pending slot. Returns whether any slot is
    /// pending, that is whether the raw forms must be uploaded again. The pending
    /// set is kept as it is.
    pub fn update_raw_instances<F: Fn(&I) -> R>(&mut self, to_raw: F) -> (changed: bool)
        requires
            old(self).wf(),
            forall|i: usize| #[trigger] old(self).pending().contains(i) ==> i < old(self).slots().len(),
            forall|x: I| call_requires(to_raw, (&x,)),
        ensures
            changed == (old(self).pending() != Set::<usize>::empty()),
            final(self).wf(),
            final(self).buckets() == old(self).buckets(),
            final(self).slots() == old(self).slots(),
            final(self).capacity() == old(self).capacity(),
            final(self).pending() == old(self).pending(),
            old(self).refreshed_raws(final(self).raws(), to_raw),
    {
        if self.instances_to_update.is_empty() {
            return false;
        }
        let ghost pre_raws = self.raw_instances@;
        let ghost pre_slots = self.instances@;
        let ghost pre_buckets = self.model_buckets@;
        let ghost keys = self.instances_to_update@;
        assert(keys == old(self).pending());
        assert(forall|i: usize| #[trigger] keys.contains(i) ==> i < pre_slots.len());
        let keys_iter = self.instances_to_update.iter();
        let ghost order = vstd::std_specs::iter::IteratorSpec::remaining(&keys_iter);
        proof {
            assert(order.unref().to_set() == keys);
            assert forall|k: int| 0 <= k < order.len() implies keys.contains(*#[trigger] order[k]) by {
                assert(order.unref()[k] == *order[k]);
                assert(order.unref().to_set().contains(order.unref()[k]));
            }
        }
        let ghost mut visited: int = 0;
        for idx in it: keys_iter
            invariant
                it.seq() == order,
                visited == it.index(),
                order.no_duplicates(),
                self.instances_to_update@ == keys,
                self.instances@ == pre_slots,
                self.model_buckets@ == pre_buckets,
                self.num_slots == old(self).num_slots,
                forall|i: usize| #[trigger] keys.contains(i) ==> i < pre_slots.len(),
                pre_slots.len() == pre_raws.len(),
                self.raw_instances@.len() == pre_raws.len(),
                forall|x: I| call_requires(to_raw, (&x,)),
                forall|k: int| 0 <= k < order.len() ==> keys.contains(*#[trigger] order[k]),
                forall|k: int|
                    0 <= k < visited ==> call_ensures(
                        to_raw,
                        (&pre_slots[*order[k] as int],),
                        self.raw_instances@[*#[trigger] order[k] as int],
                    ),
                forall|i: int|
                    0 <= i < pre_raws.len() && (forall|k: int|
                        0 <= k < visited ==> *#[trigger] order[k] != i) ==> self.raw_instances@[i]
                        == pre_raws[i],
        {
            let raw = to_raw(&self.instances[*idx]);
            self.raw_instances.set(*idx, raw);
            proof {
                visited = visited + 1;
            }
        }
        proof {
            assert(visited == order.len());
            assert forall|i: usize| i < pre_raws.len() && keys.contains(i) implies call_ensures(
                to_raw,
                (&pre_slots[i as int],),
                #[trigger] self.raw_instances@[i as int],
            ) by {
                assert(order.unref().to_set().contains(i));
                assert(order.unref().contains(i));
                let k = choose|k: int| 0 <= k < order.unref().len() && order.unref()[k] == i;
                assert(order.unref()[k] == *order[k]);
            }
            assert forall|i: usize| i < pre_raws.len() && !keys.contains(i) implies
                #[trigger] self.raw_instances@[i as int] == pre_raws[i as int] by {
                assert forall|k: int| 0 <= k < visited implies *#[trigger] order[k] != i by {
                    assert(keys.contains(*order[k]));
                }
            }
        }
        true
    }

    /// Adding instance `x` to model `m` while a spare slot remains (fewer
    /// instances than slots) appends `x` to model `m`'s instances and leaves the
    /// instances of every other model as they were.
    pub proof fn lemma_add_appends(pre: Self, post: Self, m: int, x: I)
        requires
            pre.wf(),
            0 <= m < pre.buckets().len(),
            pre.total() < pre.slots().len(),
            bucket_resized(pre.buckets(), post.buckets(), m, 1),
            post.slots() == without_last(pre.slots()).insert(pre.insert_point(m), x),
        ensures
            post.view_buckets() == pre.view_buckets().update(m, pre.view_buckets()[m].push(x)),
    {
        let b = pre.buckets();
        let s = without_last(pre.slots());
        let p = pre.insert_point(m);
        lemma_bucket_within_occupied(b, m);
        s.insert_ensures(p, x);
        assert forall|j: int| 0 <= j < b.len() implies #[trigger] post.bucket_instances(j) =~= (
        if j == m {
            pre.bucket_instances(m).push(x)
        } else {
            pre.bucket_instances(j)
        }) by {
            lemma_bucket_within_occupied(b, j);
            if j < m {
                lemma_buckets_disjoint(b, j, m);
            }
            if j > m {
                lemma_buckets_disjoint(b, m, j);
                assert forall|i: int| 0 <= i < b[j].count() implies #[trigger] post.bucket_instances(j)[i]
                    == pre.bucket_instances(j)[i] by {
                    assert(s[b[j].start() + i] == pre.slots()[b[j].start() + i]);
                    assert(post.slots()[b[j].start() + 1 + i] == s[b[j].start() + i]);
                }
            }
        }
        assert(post.view_buckets() =~= pre.view_buckets().update(m, pre.view_buckets()[m].push(x)));
    }

    /// Removing instance `k` of model `m` deletes exactly that instance from model
    /// `m`'s instances and leaves the instances of every other model as they were.
    pub proof fn lemma_remove_deletes(pre: Self, post: Self, m: int, k: int)
        requires
            pre.wf(),
            0 <= m < pre.buckets().len(),
            0 <= k < pre.buckets()[m].count(),
            pre.total() <= pre.slots().len(),
            bucket_resized(pre.buckets(), post.buckets(), m, -1),
            post.slots() == pre.slots().remove(pre.global_index(m, k)),
        ensures
            post.view_buckets() == pre.view_buckets().update(m, pre.view_buckets()[m].remove(k)),
    {
        let b = pre.buckets();
        let g = pre.global_index(m, k);
        lemma_bucket_within_occupied(b, m);
        pre.slots().remove_ensures(g);
        assert forall|j: int| 0 <= j < b.len() implies #[trigger] post.bucket_instances(j) =~= (
        if j == m {
            pre.bucket_instances(m).remove(k)
        } else {
            pre.bucket_instances(j)
        }) by {
            lemma_bucket_within_occupied(b, j);
            if j < m {
                lemma_buckets_disjoint(b, j, m);
            }
            if j > m {
                lemma_buckets_disjoint(b, m, j);
                assert forall|i: int| 0 <= i < b[j].count() implies #[trigger] post.bucket_instances(j)[i]
                    == pre.bucket_instances(j)[i] by {
                    assert(pre.slots().remove(g)[b[j].start() - 1 + i] == pre.slots()[b[j].start() + i]);
                }
            }
            if j == m {
                let old_m = pre.bucket_instances(m);
                assert forall|i: int| 0 <= i < b[m].count() - 1 implies #[trigger] post.bucket_instances(m)[i]
                    == old_m.remove(k)[i] by {
                    if i >= k {
                        assert(pre.slots().remove(g)[b[m].start() + i] == pre.slots()[b[m].start() + i + 1]);
                    }
                }
            }
        }
        assert(post.view_buckets() =~= pre.view_buckets().update(m, pre.view_buckets()[m].remove(k)));
    }

    /// Changing instance `k` of model `m` in place changes that instance only.
    pub proof fn lemma_modify_in_place(pre: Self, post: Self, m: int, k: int, v: I)
        requires
            pre.wf(),
            0 <= m < pre.buckets().len(),
            0 <= k < pre.buckets()[m].count(),
            pre.total() <= pre.slots().len(),
            post.buckets() == pre.buckets(),
            post.slots() == pre.slots().update(pre.global_index(m, k), v),
        ensures
            post.view_buckets() == pre.view_buckets().update(m, pre.view_buckets()[m].update(k, v)),
    {
        let b = pre.buckets();
        lemma_bucket_within_occupied(b, m);
        assert forall|j: int| 0 <= j < b.len() implies #[trigger] post.bucket_instances(j) =~= (
        if j == m {
            pre.bucket_instances(m).update(k, v)
        } else {
            pre.bucket_instances(j)
        }) by {
            lemma_bucket_within_occupied(b, j);
            if j < m {
                lemma_buckets_disjoint(b, j, m);
            }
            if j > m {
                lemma_buckets_disjoint(b, m, j);
            }
        }
        assert(post.view_buckets() =~= pre.view_buckets().update(m, pre.view_buckets()[m].update(k, v)));
    }

    /// Adding an instance to model `m` and then removing that same instance (the
    /// last of the bucket) restores the layout of every bucket and the instances
    /// of every model.
    pub proof fn lemma_add_then_remove_restores(pre: Self, mid: Self, post: Self, m: int, x: I)
        requires
            pre.wf(),
            0 <= m < pre.buckets().len(),
            pre.total() < pre.slots().len(),
            bucket_resized(pre.buckets(), mid.buckets(), m, 1),
            mid.slots() == without_last(pre.slots()).insert(pre.insert_point(m), x),
            bucket_resized(mid.buckets(), post.buckets(), m, -1),
            post.slots() == mid.slots().remove(mid.global_index(m, pre.buckets()[m].count() as int)),
        ensures
            post.buckets() == pre.buckets(),
            post.view_buckets() == pre.view_buckets(),
            post.slots() == without_last(pre.slots()),
    {
        let b = pre.buckets();
        lemma_bucket_within_occupied(b, m);
        let s = without_last(pre.slots());
        s.insert_ensures(pre.insert_point(m), x);
        assert(mid.global_index(m, b[m].count() as int) == pre.insert_point(m));
        assert(s.insert(pre.insert_point(m), x).remove(pre.insert_point(m)) =~= s);
        assert forall|j: int| 0 <= j < b.len() implies #[trigger] post.buckets()[j] == b[j] by {
            assert(post.buckets()[j].model_value() == b[j].model_value());
            assert(post.buckets()[j].start() == b[j].start());
            assert(post.buckets()[j].count() == b[j].count());
        }
        assert(post.buckets() =~= b);
        assert(post.slots() =~= s);
        assert forall|j: int| 0 <= j < b.len() implies #[trigger] post.bucket_instances(j)
            =~= pre.bucket_instances(j) by {
            lemma_bucket_within_occupied(b, j);
        }
        assert(post.view_buckets() =~= pre.view_buckets());
    }

    /// An instance handed out for modification has its raw form recomputed, from
    /// the instance as modified, by the next update of the raw forms.
    pub proof fn lemma_modified_instance_refreshed<F: Fn(&I) -> R>(
        pre: Self,
        mid: Self,
        post_raws: Seq<R>,
        m: int,
        k: int,
        v: I,
        to_raw: F,
    )
        requires
            pre.wf(),
            0 <= m < pre.buckets().len(),
            0 <= k < pre.buckets()[m].count(),
            pre.global_index(m, k) < pre.slots().len(),
            mid.slots() == pre.slots().update(pre.global_index(m, k), v),
            mid.raws() == pre.raws(),
            mid.pending() == pre.pending().insert(pre.global_index(m, k) as usize),
            mid.refreshed_raws(post_raws, to_raw),
        ensures
            call_ensures(to_raw, (&v,), post_raws[pre.global_index(m, k)]),
    {
        lemma_bucket_within_occupied(pre.buckets(), m);
        let g = pre.global_index(m, k) as usize;
        assert(g as int == pre.global_index(m, k));
        assert(mid.pending().contains(g));
        assert(mid.slots()[g as int] == v);
    }

    /// Creates the storage for `models`: `MAX_INSTANCES` slots, each a clone of
    /// `blank`, with their raw forms, and an empty bucket per model.
    pub fn new<F: Fn(&I) -> R>(models: Vec<M>, num_slots: usize, blank: I, to_raw: F) -> (r: Self) where
        I: Clone,
        requires
            forall|x: I| call_requires(to_raw, (&x,)),
        ensures
            r.wf(),
            r.buckets().len() == models@.len(),
            forall|j: int|
                0 <= j < models@.len() ==> {
                    &&& (#[trigger] r.buckets()[j]).model_value() == models@[j]
                    &&& r.buckets()[j].start() == 0
                    &&& r.buckets()[j].count() == 0
                },
            r.total() == 0,
            r.slots().len() == MAX_INSTANCES,
            forall|i: int| 0 <= i < MAX_INSTANCES ==> cloned(blank, #[trigger] r.slots()[i]),
            forall|i: int|
                0 <= i < MAX_INSTANCES ==> call_ensures(
                    to_raw,
                    (&r.slots()[i],),
                    #[trigger] r.raws()[i],
                ),
            r.capacity() == num_slots,
            r.pending() == Set::<usize>::empty(),
    {
        let instances: Vec<I> = vec![blank; MAX_INSTANCES];
        let mut raw_instances: Vec<R> = Vec::new();
        let mut i: usize = 0;
        while i < instances.len()
            invariant
                i <= instances@.len(),
                instances@.len() == MAX_INSTANCES,
                raw_instances@.len() == i,
                forall|x: I| call_requires(to_raw, (&x,)),
                forall|k: int|
                    0 <= k < i ==> call_ensures(to_raw, (&instances@[k],), #[trigger] raw_instances@[k]),
            decreases instances@.len() - i,
        {
            let raw = to_raw(&instances[i]);
            raw_instances.push(raw);
            i = i + 1;
        }
        let mut model_buckets: Vec<ModelBucket<M>> = Vec::new();
        for model in it: models
            invariant
                model_buckets@.len() == it.index(),
                it.seq() == models@,
                forall|j: int|
                    0 <= j < it.index() ==> {
                        &&& (#[trigger] model_buckets@[j]).model_value() == models@[j]
                        &&& model_buckets@[j].start() == 0
                        &&& model_buckets@[j].count() == 0
                    },
        {
            model_buckets.push(ModelBucket { model: model, start_index: 0, current_len: 0 });
        }
        let instances_to_update: HashSet<usize> = HashSet::new();
        ModelInstances { model_buckets, instances, raw_instances, num_slots, instances_to_update }
    }
}

} // verus!
