//! Ergonomic, loggable mutations of a `Vec<T>`.
use vstd::prelude::*;

verus! {

/// `s` is sorted in strictly increasing order (so it holds no duplicates).
pub open spec fn strictly_increasing(s: Seq<usize>) -> bool {
    forall|i: int, j: int| 0 <= i < j < s.len() ==> s[i] < s[j]
}

/// Set of indexes, unique and sorted.
#[derive(Debug, PartialEq, Eq, Hash)]
pub struct IndexSet {
    indices: Vec<usize>,
}

impl View for IndexSet {
    type V = Seq<usize>;

    closed spec fn view(&self) -> Seq<usize> {
        self.indices@
    }
}

impl IndexSet {
    #[verifier::type_invariant]
    spec fn sorted_unique(self) -> bool {
        strictly_increasing(self.indices@)
    }

    /// Builds the set of the indexes in `indices`, sorted and deduplicated.
    pub fn from_indices(indices: Vec<usize>) -> (r: IndexSet)
        ensures
            strictly_increasing(r@),
            forall|x: usize| r@.contains(x) <==> indices@.contains(x),
    {
        let mut out: Vec<usize> = Vec::new();
        let mut i: usize = 0;
        while i < indices.len()
            invariant
                i <= indices@.len(),
                strictly_increasing(out@),
                forall|x: usize| out@.contains(x) <==> (exists|k: int| 0 <= k < i && indices@[k] == x),
            decreases indices@.len() - i,
        {
            let x = indices[i];
            // position of the first element not smaller than `x`
            let mut p: usize = 0;
            while p < out.len() && out[p] < x
                invariant
                    p <= out@.len(),
                    forall|j: int| 0 <= j < p ==> out@[j] < x,
                decreases out@.len() - p,
            {
                p += 1;
            }
            let ghost before = out@;
            if p < out.len() && out[p] == x {
                assert forall|y: usize| out@.contains(y) <==> (before.contains(y) || y == x) by {
                    if y == x {
                        assert(out@[p as int] == y);
                    }
                }
            } else {
                out.insert(p, x);
                assert forall|a: int, b: int| 0 <= a < b < out@.len() implies out@[a] < out@[b] by {
                    if b < p {
                    } else if b == p {
                    } else if a < p {
                        assert(out@[b] == before[b - 1]);
                        if p < before.len() {
                            assert(before[p as int] > x);
                            assert(before[p as int] <= before[b - 1]);
                        }
                    } else if a == p {
                        assert(before[p as int] > x);
                        assert(before[p as int] <= before[b - 1]);
                    } else {
                    }
                }
                assert forall|y: usize| out@.contains(y) <==> (before.contains(y) || y == x) by {
                    if out@.contains(y) {
                        let k = choose|k: int| 0 <= k < out@.len() && out@[k] == y;
                        if k < p {
                            assert(before[k] == y);
                        } else if k > p {
                            assert(before[k - 1] == y);
                        }
                    }
                    if before.contains(y) {
                        let k = choose|k: int| 0 <= k < before.len() && before[k] == y;
                        if k < p {
                            assert(out@[k] == y);
                        } else {
                            assert(out@[k + 1] == y);
                        }
                    }
                    if y == x {
                        assert(out@[p as int] == y);
                    }
                }
            }
            assert forall|y: usize| out@.contains(y) <==> (exists|k: int| 0 <= k < i + 1 && indices@[k] == y) by {
                if exists|k: int| 0 <= k < i + 1 && indices@[k] == y {
                    let k = choose|k: int| 0 <= k < i + 1 && indices@[k] == y;
                    if k < i {
                        assert(before.contains(y));
                    } else {
                        assert(y == x);
                    }
                }
                if out@.contains(y) {
                    if before.contains(y) {
                        let k = choose|k: int| 0 <= k < i && indices@[k] == y;
                        assert(0 <= k < i + 1 && indices@[k] == y);
                    } else {
                        assert(y == x);
                        assert(indices@[i as int] == y);
                    }
                }
            }
            i += 1;
        }
        assert forall|x: usize| out@.contains(x) <==> indices@.contains(x) by {
            if indices@.contains(x) {
                let k = choose|k: int| 0 <= k < indices@.len() && indices@[k] == x;
                assert(exists|k: int| 0 <= k < i && indices@[k] == x);
            }
        }
        IndexSet { indices: out }
    }
}

impl Clone for IndexSet {
    fn clone(&self) -> (r: IndexSet)
        ensures
            r@ == self@,
    {
        proof {
            use_type_invariant(self);
        }
        let mut indices: Vec<usize> = Vec::new();
        let mut i: usize = 0;
        while i < self.indices.len()
            invariant
                i <= self@.len(),
                indices@ == self@.take(i as int),
            decreases self@.len() - i,
        {
            indices.push(self.indices[i]);
            i += 1;
        }
        assert(self@.take(self@.len() as int) == self@);
        IndexSet { indices }
    }
}

impl Default for IndexSet {
    fn default() -> (r: IndexSet)
        ensures
            r@ == Seq::<usize>::empty(),
    {
        IndexSet { indices: Vec::new() }
    }
}

impl std::ops::Deref for IndexSet {
    type Target = [usize];

    fn deref(&self) -> (r: &[usize])
        ensures
            r@ == self@,
            strictly_increasing(r@),
    {
        proof {
            use_type_invariant(self);
        }
        self.indices.as_slice()
    }
}

impl vstd::std_specs::convert::FromSpecImpl<Vec<usize>> for IndexSet {
    open spec fn obeys_from_spec() -> bool {
        false
    }

    open spec fn from_spec(v: Vec<usize>) -> IndexSet {
        arbitrary()
    }
}

impl From<Vec<usize>> for IndexSet {
    /// Sorts and deduplicates the given indexes.
    fn from(indices: Vec<usize>) -> (r: IndexSet)
        ensures
            strictly_increasing(r@),
            forall|x: usize| r@.contains(x) <==> indices@.contains(x),
    {
        IndexSet::from_indices(indices)
    }
}


/// `s` with the elements at the positions listed in `removed` left out, the
/// others kept in order.
pub open spec fn without_indices<T>(s: Seq<T>, removed: Seq<usize>) -> Seq<T>
    decreases s.len(),
{
    if s.len() == 0 {
        s
    } else {
        let kept = without_indices(s.drop_last(), removed);
        if removed.contains((s.len() - 1) as usize) {
            kept
        } else {
            kept.push(s.last())
        }
    }
}

/// Ergonomic, debuggable and loggable mutation to a `Vec<T>`.
///
/// Variants in this enum may represent overlapping operations as they are designed
/// for ergonomics and clarity. To analyze the precise changes to a vector, use the
/// [`VecMutation::effects`] method which produces a detailed log of the changes that
/// a mutation will apply.
#[derive(Debug, Clone, PartialEq)]
pub enum VecMutation<T: Clone> {
    /// Replaces the given range with new elements.
    Splice(usize, usize, Vec<T>),
    /// Inserts many elements at the given index.
    InsertMany(usize, Vec<T>),
    /// Inserts one element at the given index.
    InsertOne(usize, T),
    /// Appends many elements to the end of the vec.
    Extend(Vec<T>),
    /// Appends one element to the end of the vec.
    Push(T),
    /// Removes a range of elements.
    RemoveRange(usize, usize),
    /// Removes a single element at the given index.
    RemoveOne(usize),
    /// Remove many sparse elements at once.
    RemoveMany(IndexSet),
    /// Removes the last element from the vec.
    RemoveLast,
    /// Removes all elements from the vec.
    Clear,
    /// Updates the element at the given index.
    Update(usize, T),
    /// Updates the last element in the vec.
    UpdateLast(T),
    /// Replaces the entire contents of the vec with the given elements.
    SetAll(Vec<T>),
}

impl<T: Clone> VecMutation<T> {
    /// The mutation can be applied to a vec of length `len` (otherwise applying
    /// it would go out of bounds).
    pub open spec fn applicable(&self, len: nat) -> bool {
        match self {
            VecMutation::Splice(start, end, _) => *start <= *end <= len,
            VecMutation::InsertMany(index, _) => *index <= len,
            VecMutation::InsertOne(index, _) => *index <= len,
            VecMutation::RemoveRange(start, end) => *start <= *end <= len,
            VecMutation::RemoveOne(index) => *index < len,
            VecMutation::Update(index, _) => *index < len,
            VecMutation::UpdateLast(_) => len > 0,
            _ => true,
        }
    }

    /// The contents of a vec holding `s` once this mutation is applied.
    pub open spec fn spec_apply(self, s: Seq<T>) -> Seq<T> {
        match self {
            VecMutation::Splice(start, end, items) => s.subrange(0, start as int) + items@ + s.subrange(
                end as int,
                s.len() as int,
            ),
            VecMutation::InsertMany(index, items) => s.subrange(0, index as int) + items@
                + s.subrange(index as int, s.len() as int),
            VecMutation::InsertOne(index, item) => s.insert(index as int, item),
            VecMutation::Extend(items) => s + items@,
            VecMutation::Push(item) => s.push(item),
            VecMutation::RemoveRange(start, end) => s.subrange(0, start as int) + s.subrange(
                end as int,
                s.len() as int,
            ),
            VecMutation::RemoveOne(index) => s.remove(index as int),
            VecMutation::RemoveMany(indices) => without_indices(s, indices@),
            VecMutation::RemoveLast => if s.len() == 0 {
                s
            } else {
                s.drop_last()
            },
            VecMutation::Clear => Seq::empty(),
            VecMutation::Update(index, item) => s.update(index as int, item),
            VecMutation::UpdateLast(item) => s.update(s.len() - 1, item),
            VecMutation::SetAll(items) => items@,
        }
    }

    /// Whether the mutation can be applied to a vec of length `len`.
    pub fn can_apply(&self, len: usize) -> (r: bool)
        ensures
            r == self.applicable(len as nat),
    {
        match self {
            VecMutation::Splice(start, end, _) => *start <= *end && *end <= len,
            VecMutation::InsertMany(index, _) => *index <= len,
            VecMutation::InsertOne(index, _) => *index <= len,
            VecMutation::RemoveRange(start, end) => *start <= *end && *end <= len,
            VecMutation::RemoveOne(index) => *index < len,
            VecMutation::Update(index, _) => *index < len,
            VecMutation::UpdateLast(_) => len > 0,
            _ => true,
        }
    }

    /// Apply the changes represented by this mutation to the given vec.
    pub fn apply(self, list: &mut Vec<T>)
        requires
            self.applicable(old(list)@.len()),
        ensures
            final(list)@ == self.spec_apply(old(list)@),
    {
        match self {
            VecMutation::Splice(start, end, items) => {
                let mut items = items;
                let mut tail = list.split_off(end);
                list.truncate(start);
                list.append(&mut items);
                list.append(&mut tail);
            },
            VecMutation::InsertMany(index, items) => {
                let mut items = items;
                let mut tail = list.split_off(index);
                list.append(&mut items);
                list.append(&mut tail);
            },
            VecMutation::InsertOne(index, item) => {
                list.insert(index, item);
            },
            VecMutation::Extend(items) => {
                let mut items = items;
                list.append(&mut items);
            },
            VecMutation::Push(item) => {
                list.push(item);
            },
            VecMutation::RemoveRange(start, end) => {
                let mut tail = list.split_off(end);
                list.truncate(start);
                list.append(&mut tail);
            },
            VecMutation::RemoveOne(index) => {
                list.remove(index);
            },
            VecMutation::RemoveMany(indices) => {
                remove_sorted_indices(list, &indices);
            },
            VecMutation::Clear => {
                list.clear();
            },
            VecMutation::RemoveLast => {
                list.pop();
            },
            VecMutation::Update(index, item) => {
                list.set(index, item);
            },
            VecMutation::UpdateLast(item) => {
                let last = list.len() - 1;
                list.set(last, item);
            },
            VecMutation::SetAll(items) => {
                *list = items;
            },
        }
    }
}

/// Removes, in a single pass, the elements at the positions listed in `indices`.
fn remove_sorted_indices<T>(list: &mut Vec<T>, indices: &IndexSet)
    ensures
        final(list)@ == without_indices(old(list)@, indices@),
{
    proof {
        use_type_invariant(indices);
    }
    let ghost s = list@;
    let ghost ix = indices@;
    let old_items = list.split_off(0);
    // The length of a vec fits in `usize`, and so does every position reached below.
    let count = old_items.len();
    assert(s.len() == count);
    let n = indices.indices.len();
    let mut k: usize = 0;
    let mut current: usize = 0;
    for item in it: old_items.into_iter()
        invariant
            it.seq() == s,
            s.len() <= usize::MAX,
            current == it.index(),
            current <= s.len(),
            ix == indices@,
            strictly_increasing(ix),
            n == ix.len(),
            k <= n,
            forall|j: int| 0 <= j < k ==> ix[j] < current,
            k < n ==> ix[k as int] >= current,
            list@ == without_indices(s.take(current as int), ix),
    {
        assert(s.take(current + 1).drop_last() == s.take(current as int));
        if k < n && indices.indices[k] == current {
            k += 1;
        } else {
            assert(!ix.contains(current)) by {
                if ix.contains(current) {
                    let j = choose|j: int| 0 <= j < ix.len() && ix[j] == current;
                    if j < k {
                    } else if j == k {
                    } else {
                        assert(ix[k as int] < ix[j]);
                    }
                }
            }
            list.push(item);
        }
        current += 1;
    }
    assert(s.take(s.len() as int) == s);
}


impl<T: Clone> VecMutation<T> {
    /// Use a function to craft a [`VecMutation::Update`] using mutable semantics.
    ///
    /// This clones the target item on construction.
    pub fn update_with(target: &[T], index: usize, updater: impl FnOnce(&mut T)) -> (r:
        VecMutation<T>)
        requires
            index < target@.len(),
            forall|m: &mut T| cloned(target@[index as int], *m) ==> call_requires(updater, (m,)),
        ensures
            r matches VecMutation::Update(i, item) && i == index && exists|m: &mut T|
                cloned(target@[index as int], *m) && call_ensures(updater, (m,), ()) && *final(m)
                    == item,
    {
        let mut item = target[index].clone();
        assert(cloned(target@[index as int], item));
        updater(&mut item);
        VecMutation::Update(index, item)
    }

    /// Use a function to craft a [`VecMutation::UpdateLast`] using mutable semantics.
    ///
    /// This clones the target item on construction.
    pub fn update_last_with(target: &[T], updater: impl FnOnce(&mut T)) -> (r: VecMutation<T>)
        requires
            target@.len() > 0,
            forall|m: &mut T| cloned(target@.last(), *m) ==> call_requires(updater, (m,)),
        ensures
            r matches VecMutation::UpdateLast(item) && exists|m: &mut T|
                cloned(target@.last(), *m) && call_ensures(updater, (m,), ()) && *final(m) == item,
    {
        let last = target.last().unwrap();
        let mut item = last.clone();
        assert(cloned(target@.last(), item));
        updater(&mut item);
        VecMutation::UpdateLast(item)
    }

    /// Constructs a [`VecMutation::RemoveMany`] using retention semantics.
    ///
    /// The `retain` predicate should return `true` for elements to **keep** and `false`
    /// for elements to **remove**, as with `Vec::retain`.
    pub fn remove_many_with_retain(target: &[T], retain: impl Fn(usize, &T) -> bool) -> (r:
        VecMutation<T>)
        requires
            forall|i: usize| i < target@.len() ==> call_requires(retain, (i, &target@[i as int])),
        ensures
            r matches VecMutation::RemoveMany(ix) && strictly_increasing(ix@) && (forall|j: int|
                0 <= j < ix@.len() ==> #[trigger] ix@[j] < target@.len() && call_ensures(
                    retain,
                    (ix@[j], &target@[ix@[j] as int]),
                    false,
                )) && (forall|i: usize|
                i < target@.len() && !ix@.contains(i) ==> call_ensures(
                    retain,
                    (i, &target@[i as int]),
                    true,
                )),
    {
        let mut indices: Vec<usize> = Vec::new();
        let mut i: usize = 0;
        while i < target.len()
            invariant
                i <= target@.len(),
                forall|i: usize| i < target@.len() ==> call_requires(retain, (i, &target@[i as int])),
                strictly_increasing(indices@),
                forall|j: int| 0 <= j < indices@.len() ==> #[trigger] indices@[j] < i && call_ensures(
                    retain,
                    (indices@[j], &target@[indices@[j] as int]),
                    false,
                ),
                forall|x: usize|
                    x < i && !indices@.contains(x) ==> call_ensures(retain, (x, &target@[x as int]), true),
            decreases target@.len() - i,
        {
            let keep = retain(i, &target[i]);
            let ghost before = indices@;
            if !keep {
                indices.push(i);
                assert(indices@[before.len() as int] == i);
                assert forall|x: usize| x < i + 1 && !indices@.contains(x) implies call_ensures(
                    retain,
                    (x, &target@[x as int]),
                    true,
                ) by {
                    if x == i {
                        assert(indices@.contains(x));
                    }
                    if before.contains(x) {
                        let k = choose|k: int| 0 <= k < before.len() && before[k] == x;
                        assert(indices@[k] == x);
                    }
                }
            } else {
                assert forall|x: usize| x < i + 1 && !indices@.contains(x) implies call_ensures(
                    retain,
                    (x, &target@[x as int]),
                    true,
                ) by {
                    if x == i {
                        assert(call_ensures(retain, (i, &target@[i as int]), keep));
                    }
                }
            }
            i += 1;
        }
        VecMutation::RemoveMany(IndexSet { indices })
    }
}

/// Abstract form of a [`VecEffect`], with the samples as sequences.
pub ghost enum Effect<T> {
    Insert(int, Seq<T>),
    Update(int, T, T),
    Remove(int, int, Seq<T>),
}

/// A primitive operation that will be performed on a `Vec<T>` as a result of a
/// higher level and more optimized [`VecMutation`].
#[derive(Debug, Clone, Copy, PartialEq)]
pub enum VecEffect<'a, T> {
    /// The given NEW items will be inserted at the given index.
    ///
    /// Means the length of the list will INCREASE by the length of `items`.
    Insert(usize, &'a [T]),
    /// The EXISTING item at the given index will be replaced with a new value.
    ///
    /// First sample is the previous value, second sample is the new value.
    ///
    /// Means the length of the list will STAY THE SAME.
    Update(usize, &'a T, &'a T),
    /// The specified range of EXISTING items will be removed.
    ///
    /// The sample at the end is the slice of items that will be removed.
    ///
    /// Means the length of the list will DECREASE by `end - start`.
    Remove(usize, usize, &'a [T]),
}

impl<'a, T> View for VecEffect<'a, T> {
    type V = Effect<T>;

    open spec fn view(&self) -> Effect<T> {
        match self {
            VecEffect::Insert(index, items) => Effect::Insert(*index as int, items@),
            VecEffect::Update(index, prev, next) => Effect::Update(*index as int, **prev, **next),
            VecEffect::Remove(start, end, items) => Effect::Remove(
                *start as int,
                *end as int,
                items@,
            ),
        }
    }
}

/// A slice holding just `item`.
#[verifier::external_body]
fn slice_of_one<'a, T>(item: &'a T) -> (r: &'a [T])
    ensures
        r@ == seq![*item],
{
    std::slice::from_ref(item)
}

impl<T: Clone> VecMutation<T> {
    /// The effects can be listed against a vec of length `len` (the samples they
    /// hold exist in it).
    pub open spec fn effects_defined(&self, len: nat) -> bool {
        match self {
            VecMutation::RemoveLast => len > 0,
            VecMutation::RemoveMany(ix) => forall|j: int| 0 <= j < ix@.len() ==> #[trigger] ix@[j] < len,
            _ => self.applicable(len),
        }
    }

    /// The primitive effects this mutation has on a vec holding `s`, in order.
    pub open spec fn spec_effects(self, s: Seq<T>) -> Seq<Effect<T>> {
        let len = s.len() as int;
        match self {
            VecMutation::Splice(start, end, items) => seq![
                Effect::Remove(start as int, end as int, s.subrange(start as int, end as int)),
                Effect::Insert(start as int, items@),
            ],
            VecMutation::InsertMany(index, items) => seq![Effect::Insert(index as int, items@)],
            VecMutation::InsertOne(index, item) => seq![Effect::Insert(index as int, seq![item])],
            VecMutation::Extend(items) => seq![Effect::Insert(len, items@)],
            VecMutation::Push(item) => seq![Effect::Insert(len, seq![item])],
            VecMutation::RemoveRange(start, end) => seq![
                Effect::Remove(start as int, end as int, s.subrange(start as int, end as int)),
            ],
            VecMutation::RemoveOne(index) => seq![
                Effect::Remove(index as int, index + 1, seq![s[index as int]]),
            ],
            VecMutation::RemoveMany(ix) => ix@.map_values(
                |i: usize| Effect::Remove(i as int, i + 1, seq![s[i as int]]),
            ),
            VecMutation::Clear => seq![Effect::Remove(0, len, s)],
            VecMutation::RemoveLast => seq![Effect::Remove(len - 1, len, seq![s[len - 1]])],
            VecMutation::Update(index, item) => seq![
                Effect::Update(index as int, s[index as int], item),
            ],
            VecMutation::UpdateLast(item) => seq![Effect::Update(len - 1, s[len - 1], item)],
            VecMutation::SetAll(items) => seq![Effect::Remove(0, len, s), Effect::Insert(0, items@)],
        }
    }

    /// Lists, in order, the primitive effects this mutation would have on `target`.
    pub fn effects<'a>(&'a self, target: &'a [T]) -> (r: Vec<VecEffect<'a, T>>)
        requires
            self.effects_defined(target@.len()),
        ensures
            r@.len() == self.spec_effects(target@).len(),
            forall|i: int| 0 <= i < r@.len() ==> #[trigger] r@[i]@ == self.spec_effects(target@)[i],
    {
        let mut r: Vec<VecEffect<'a, T>> = Vec::new();
        let len = target.len();
        match self {
            VecMutation::Splice(start, end, items) => {
                r.push(VecEffect::Remove(*start, *end, &target[*start..*end]));
                r.push(VecEffect::Insert(*start, items.as_slice()));
            },
            VecMutation::InsertMany(index, items) => {
                r.push(VecEffect::Insert(*index, items.as_slice()));
            },
            VecMutation::InsertOne(index, item) => {
                r.push(VecEffect::Insert(*index, slice_of_one(item)));
            },
            VecMutation::Extend(items) => {
                r.push(VecEffect::Insert(target.len(), items.as_slice()));
            },
            VecMutation::Push(item) => {
                r.push(VecEffect::Insert(target.len(), slice_of_one(item)));
            },
            VecMutation::RemoveRange(start, end) => {
                r.push(VecEffect::Remove(*start, *end, &target[*start..*end]));
            },
            VecMutation::RemoveOne(index) => {
                let sample = &target[*index..*index + 1];
                assert(sample@ == seq![target@[*index as int]]);
                r.push(VecEffect::Remove(*index, *index + 1, sample));
            },
            VecMutation::RemoveMany(indices) => {
                let n = indices.indices.len();
                let mut j: usize = 0;
                while j < n
                    invariant
                        n == indices@.len(),
                        len == target@.len(),
                        j <= n,
                        forall|k: int| 0 <= k < indices@.len() ==> #[trigger] indices@[k] < target@.len(),
                        r@.len() == j,
                        forall|k: int| 0 <= k < j ==> #[trigger] r@[k]@ == self.spec_effects(target@)[k],
                        *self == VecMutation::<T>::RemoveMany(*indices),
                    decreases n - j,
                {
                    let index = indices.indices[j];
                    assert(index < len);
                    let sample = &target[index..index + 1];
                    assert(sample@ == seq![target@[index as int]]);
                    r.push(VecEffect::Remove(index, index + 1, sample));
                    j += 1;
                }
            },
            VecMutation::Clear => {
                r.push(VecEffect::Remove(0, target.len(), target));
            },
            VecMutation::RemoveLast => {
                let last = len - 1;
                let sample = &target[last..len];
                assert(sample@ == seq![target@[last as int]]);
                r.push(VecEffect::Remove(last, len, sample));
            },
            VecMutation::Update(index, item) => {
                r.push(VecEffect::Update(*index, &target[*index], item));
            },
            VecMutation::UpdateLast(item) => {
                let last = target.len() - 1;
                r.push(VecEffect::Update(last, &target[last], item));
            },
            VecMutation::SetAll(items) => {
                r.push(VecEffect::Remove(0, target.len(), target));
                r.push(VecEffect::Insert(0, items.as_slice()));
            },
        }
        r
    }
}

} // verus!
