//! Moving elements between nested vectors while keeping their deep views in step.
use vstd::prelude::*;

verus! {

/// The lists concatenated in order.
pub open spec fn joined<A>(lists: Seq<Seq<A>>) -> Seq<A>
    decreases lists.len(),
{
    if lists.len() == 0 {
        Seq::empty()
    } else {
        joined(lists.drop_last()) + lists.last()
    }
}

/// Concatenating one more list extends the concatenation by that list.
pub proof fn lemma_joined_push<A>(lists: Seq<Seq<A>>, list: Seq<A>)
    ensures
        joined(lists.push(list)) == joined(lists) + list,
{
    assert(lists.push(list).drop_last() =~= lists);
}

/// The first refusal `check` raises over the items, in order, or `Ok` when it accepts them all.
pub open spec fn first_failure<A, E>(items: Seq<A>, check: spec_fn(A) -> Result<(), E>) -> Result<
    (),
    E,
>
    decreases items.len(),
{
    if items.len() == 0 {
        Ok(())
    } else {
        match first_failure(items.drop_last(), check) {
            Err(error) => Err(error),
            Ok(()) => check(items.last()),
        }
    }
}

/// One item further, the outcome is that item's check when everything before it passed.
pub proof fn lemma_first_failure_step<A, E>(items: Seq<A>, check: spec_fn(A) -> Result<(), E>, i: int)
    requires
        0 <= i < items.len(),
        first_failure(items.take(i), check) is Ok,
    ensures
        first_failure(items.take(i + 1), check) == check(items[i]),
{
    assert(items.take(i + 1).drop_last() =~= items.take(i));
    assert(items.take(i + 1).last() == items[i]);
}

/// A refusal among the first `n` items is the refusal of the whole list.
pub proof fn lemma_first_failure_persists<A, E>(
    items: Seq<A>,
    check: spec_fn(A) -> Result<(), E>,
    n: int,
)
    requires
        0 <= n <= items.len(),
        first_failure(items.take(n), check) is Err,
    ensures
        first_failure(items, check) == first_failure(items.take(n), check),
    decreases items.len(),
{
    if items.len() > n {
        assert(items.drop_last().take(n) =~= items.take(n));
        lemma_first_failure_persists(items.drop_last(), check, n);
    } else {
        assert(items.take(n) =~= items);
    }
}

/// Moves element `index` out of `items`, leaving a default value in its place.
pub fn take_at<T: DeepView + Default>(items: &mut Vec<T>, index: usize) -> (taken: T)
    requires
        index < old(items)@.len(),
    ensures
        taken == old(items)@[index as int],
        final(items)@.len() == old(items)@.len(),
        forall|j: int| 0 <= j < old(items)@.len() && j != index ==> #[trigger] final(items)@[j]
            == old(items)@[j],
{
    let mut taken = T::default();
    std::mem::swap(&mut items[index], &mut taken);
    taken
}

/// Concatenates the lists in order, moving every element.
pub fn join<T: DeepView>(lists: Vec<Vec<T>>) -> (all: Vec<T>)
    ensures
        all.deep_view() == joined(lists.deep_view()),
{
    let ghost initial = lists.deep_view();
    let mut lists = lists;
    let mut all: Vec<T> = Vec::new();
    let mut i: usize = 0;
    while i < lists.len()
        invariant
            initial.len() == lists@.len(),
            i <= lists@.len(),
            forall|j: int| i <= j < lists@.len() ==> #[trigger] lists@[j].deep_view() == initial[j],
            all.deep_view() == joined(initial.take(i as int)),
        decreases lists@.len() - i,
    {
        let mut list: Vec<T> = Vec::new();
        std::mem::swap(&mut lists[i], &mut list);
        let ghost before = all.deep_view();
        let ghost moved = list.deep_view();
        assert(moved == initial[i as int]);
        all.append(&mut list);
        proof {
            assert(initial.take(i + 1) =~= initial.take(i as int).push(initial[i as int]));
            lemma_joined_push(initial.take(i as int), initial[i as int]);
            assert(all.deep_view() =~= before + initial[i as int]);
        }
        i = i + 1;
    }
    assert(initial.take(i as int) =~= initial);
    all
}

/// The contents of a list of vectors.
pub open spec fn vecs_model<T>(vecs: Seq<Vec<T>>) -> Seq<Seq<T>> {
    Seq::new(vecs.len(), |i: int| vecs[i]@)
}

/// `batches` splits `items` into consecutive runs of `size`: they concatenate back to the items,
/// none is empty, and each holds exactly `size` items but the last, which holds at most `size`.
pub open spec fn is_batching<T>(batches: Seq<Seq<T>>, items: Seq<T>, size: nat) -> bool {
    &&& joined(batches) == items
    &&& forall|i: int| 0 <= i < batches.len() ==> (#[trigger] batches[i]).len() > 0
    &&& forall|i: int| 0 <= i < batches.len() ==> (#[trigger] batches[i]).len() <= size
    &&& forall|i: int| 0 <= i < batches.len() - 1 ==> (#[trigger] batches[i]).len() == size
}

/// Splits `items` into batches of `batch_size`, in order; a size of zero batches one by one.
pub fn batches<T>(items: Vec<T>, batch_size: usize) -> (batches: Vec<Vec<T>>)
    ensures
        is_batching(vecs_model(batches@), items@, if batch_size == 0 { 1 } else { batch_size as nat }),
{
    let size: usize = if batch_size == 0 {
        1
    } else {
        batch_size
    };
    let ghost all = items@;
    let mut batches: Vec<Vec<T>> = Vec::new();
    let mut batch: Vec<T> = Vec::new();
    let mut left = items;
    let mut rest: Vec<T> = Vec::new();
    while left.len() > 0
        invariant
            left@ + rest@.reverse() == all,
        decreases left@.len(),
    {
        let ghost before_left = left@;
        let ghost before_rest = rest@;
        let item = left.pop().unwrap();
        rest.push(item);
        assert(rest@.reverse() =~= seq![item] + before_rest.reverse());
        assert(before_left =~= left@.push(item));
        assert(left@ + rest@.reverse() =~= before_left + before_rest.reverse());
    }
    assert(left@ =~= Seq::<T>::empty());
    assert(rest@.reverse() =~= all);
    assert(joined(vecs_model(batches@)) =~= Seq::<T>::empty());
    while rest.len() > 0
        invariant
            size >= 1,
            size == (if batch_size == 0 { 1 } else { batch_size as nat }),
            joined(vecs_model(batches@)) + batch@ + rest@.reverse() == all,
            batch@.len() < size,
            forall|i: int| 0 <= i < batches@.len() ==> (#[trigger] batches@[i])@.len() == size,
        decreases rest@.len(),
    {
        let ghost before = rest@;
        let ghost before_batch = batch@;
        let item = rest.pop().unwrap();
        assert(before.reverse() =~= seq![item] + rest@.reverse());
        batch.push(item);
        assert(before_batch + before.reverse() =~= batch@ + rest@.reverse());
        if batch.len() >= size {
            let ghost full = batch@;
            let ghost old_batches = vecs_model(batches@);
            let mut taken: Vec<T> = Vec::new();
            std::mem::swap(&mut batch, &mut taken);
            batches.push(taken);
            proof {
                assert(vecs_model(batches@) =~= old_batches.push(full));
                lemma_joined_push(old_batches, full);
            }
        }
    }
    if batch.len() > 0 {
        let ghost old_batches = vecs_model(batches@);
        let ghost last = batch@;
        batches.push(batch);
        proof {
            assert(vecs_model(batches@) =~= old_batches.push(last));
            lemma_joined_push(old_batches, last);
        }
    } else {
        assert(batch@ =~= Seq::<T>::empty());
    }
    assert(rest@.reverse() =~= Seq::<T>::empty());
    assert(joined(vecs_model(batches@)) =~= all);
    batches
}

/// The items in reverse order, moved.
pub fn reversed<T>(items: Vec<T>) -> (out: Vec<T>)
    ensures
        out@ == items@.reverse(),
{
    let ghost all = items@;
    let mut left = items;
    let mut out: Vec<T> = Vec::new();
    while left.len() > 0
        invariant
            left@ + out@.reverse() == all,
        decreases left@.len(),
    {
        let ghost before_left = left@;
        let ghost before_out = out@;
        let item = left.pop().unwrap();
        out.push(item);
        assert(out@.reverse() =~= seq![item] + before_out.reverse());
        assert(before_left =~= left@.push(item));
        assert(left@ + out@.reverse() =~= before_left + before_out.reverse());
    }
    assert(left@ =~= Seq::<T>::empty());
    assert(out@.reverse() =~= all);
    assert(out@ =~= all.reverse());
    out
}

/// Gathers items into batches of a fixed size as they arrive, handing each batch out when it is
/// full and the last, partial one at the end.
pub struct Batcher<T> {
    pending: Vec<T>,
    size: usize,
}

impl<T> Batcher<T> {
    /// A batch size is at least one, and fewer items than that are pending.
    #[verifier::type_invariant]
    spec fn gathering(self) -> bool {
        self.size >= 1 && self.pending@.len() < self.size
    }

    /// The items gathered since the last full batch.
    pub closed spec fn pending(&self) -> Seq<T> {
        self.pending@
    }

    /// The size of a full batch.
    pub closed spec fn batch_size(&self) -> nat {
        self.size as nat
    }

    /// A batcher of `batch_size` items per batch; a size of zero batches one by one.
    pub fn new(batch_size: usize) -> (batcher: Batcher<T>)
        ensures
            batcher.pending() == Seq::<T>::empty(),
            batcher.batch_size() == if batch_size == 0 { 1 } else { batch_size as nat },
    {
        Batcher { pending: Vec::new(), size: if batch_size == 0 { 1 } else { batch_size } }
    }

    /// Adds one item, handing out the batch it completes.
    pub fn push(&mut self, item: T) -> (full: Option<Vec<T>>)
        ensures
            final(self).batch_size() == old(self).batch_size(),
            final(self).pending().len() < final(self).batch_size(),
            match full {
                Some(batch) => batch@ == old(self).pending().push(item) && batch@.len()
                    == old(self).batch_size() && final(self).pending() == Seq::<T>::empty(),
                None => final(self).pending() == old(self).pending().push(item),
            },
    {
        proof {
            use_type_invariant(&*self);
        }
        let mut gathered: Vec<T> = Vec::new();
        std::mem::swap(&mut self.pending, &mut gathered);
        gathered.push(item);
        if gathered.len() >= self.size {
            Some(gathered)
        } else {
            self.pending = gathered;
            None
        }
    }

    /// Hands out the last, partial batch, if any item is pending.
    pub fn finish(self) -> (last: Option<Vec<T>>)
        ensures
            match last {
                Some(batch) => batch@ == self.pending() && batch@.len() > 0,
                None => self.pending().len() == 0,
            },
    {
        if self.pending.len() > 0 {
            Some(self.pending)
        } else {
            None
        }
    }
}

/// The batches a [`Batcher`] holding `pending` hands out when `items` are pushed one by one and
/// it is then finished: each full batch as it completes, then the partial rest, if any.
pub open spec fn batcher_outputs<T>(pending: Seq<T>, items: Seq<T>, size: nat) -> Seq<Seq<T>>
    decreases items.len(),
{
    if items.len() == 0 {
        if pending.len() > 0 {
            seq![pending]
        } else {
            Seq::empty()
        }
    } else {
        let gathered = pending.push(items[0]);
        if gathered.len() >= size {
            seq![gathered] + batcher_outputs(Seq::empty(), items.drop_first(), size)
        } else {
            batcher_outputs(gathered, items.drop_first(), size)
        }
    }
}

/// One list concatenated is that list.
pub proof fn lemma_joined_single<A>(list: Seq<A>)
    ensures
        joined(seq![list]) == list,
{
    assert(seq![list].drop_last() =~= Seq::<Seq<A>>::empty());
    assert(joined(seq![list].drop_last()) == Seq::<A>::empty());
    assert(seq![list].last() == list);
    assert(Seq::<A>::empty() + list =~= list);
}

/// Concatenating a list in front of others puts its items first.
pub proof fn lemma_joined_prepend<A>(first: Seq<A>, rest: Seq<Seq<A>>)
    ensures
        joined(seq![first] + rest) == first + joined(rest),
    decreases rest.len(),
{
    if rest.len() == 0 {
        assert(seq![first] + rest =~= seq![first]);
        lemma_joined_single(first);
        assert(first + joined(rest) =~= first);
    } else {
        lemma_joined_prepend(first, rest.drop_last());
        assert((seq![first] + rest).drop_last() =~= seq![first] + rest.drop_last());
        assert((seq![first] + rest).last() == rest.last());
        assert(first + joined(rest.drop_last()) + rest.last() =~= first + (joined(rest.drop_last()) + rest.last()));
    }
}

/// From any pending run shorter than a batch, pushing the items and finishing hands out batches
/// that split the pending run followed by the items.
proof fn lemma_batcher_outputs_split<T>(pending: Seq<T>, items: Seq<T>, size: nat)
    requires
        size >= 1,
        pending.len() < size,
    ensures
        is_batching(batcher_outputs(pending, items, size), pending + items, size),
    decreases items.len(),
{
    let outputs = batcher_outputs(pending, items, size);
    if items.len() == 0 {
        assert(pending + items =~= pending);
        if pending.len() > 0 {
            lemma_joined_single(pending);
        } else {
            assert(outputs =~= Seq::<Seq<T>>::empty());
            assert(joined(outputs) =~= Seq::<T>::empty());
            assert(pending =~= Seq::<T>::empty());
        }
    } else {
        let gathered = pending.push(items[0]);
        assert(pending + items =~= gathered + items.drop_first());
        if gathered.len() >= size {
            lemma_batcher_outputs_split(Seq::empty(), items.drop_first(), size);
            let rest = batcher_outputs(Seq::empty(), items.drop_first(), size);
            assert(Seq::<T>::empty() + items.drop_first() =~= items.drop_first());
            lemma_joined_prepend(gathered, rest);
            assert(outputs == seq![gathered] + rest);
            assert(joined(rest) == items.drop_first());
            assert(joined(outputs) == gathered + items.drop_first());
            assert forall|i: int| 0 <= i < outputs.len() implies (#[trigger] outputs[i]).len() > 0 by {
                if i > 0 {
                    assert(outputs[i] == rest[i - 1]);
                }
            }
            assert forall|i: int| 0 <= i < outputs.len() implies (#[trigger] outputs[i]).len() <= size by {
                if i > 0 {
                    assert(outputs[i] == rest[i - 1]);
                }
            }
            assert forall|i: int| 0 <= i < outputs.len() - 1 implies (#[trigger] outputs[i]).len() == size by {
                if i > 0 {
                    assert(outputs[i] == rest[i - 1]);
                }
            }
        } else {
            lemma_batcher_outputs_split(gathered, items.drop_first(), size);
            assert(outputs == batcher_outputs(gathered, items.drop_first(), size));
        }
    }
}

/// Pushing items one by one into a fresh [`Batcher`] and finishing it hands out batches that
/// split the items in order: they concatenate back to the items, none is empty, and each holds a
/// full batch but the last, which holds at most one.
pub proof fn lemma_batcher_splits_items<T>(items: Seq<T>, size: nat)
    requires
        size >= 1,
    ensures
        is_batching(batcher_outputs(Seq::empty(), items, size), items, size),
{
    lemma_batcher_outputs_split(Seq::empty(), items, size);
    assert(Seq::<T>::empty() + items =~= items);
}

} // verus!
