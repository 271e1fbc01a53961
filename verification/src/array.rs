//! Growable array: a resizable, ordered, indexable sequence of elements
//! kept in a managed buffer whose capacity starts at four elements and
//! doubles whenever the length would outgrow it.

use vstd::prelude::*;

verus! {

/// Capacities have the shape `4 * 2^k`: the buffer starts at four
/// elements and only ever doubles.
pub open spec fn is_quad_pow2(c: int) -> bool
    decreases c,
{
    c == 4 || (c > 4 && c % 2 == 0 && is_quad_pow2(c / 2))
}

/// The capacity reached by doubling `cap` until it holds `need` elements.
pub open spec fn grown_capacity(cap: int, need: int) -> int
    decreases (if need <= cap { 0int } else { need - cap }) when cap >= 1
{
    if need <= cap {
        cap
    } else {
        grown_capacity(2 * cap, need)
    }
}

/// `c` is the smallest capacity of the shape `4 * 2^k` that holds `n`
/// elements.
pub open spec fn is_min_capacity(c: int, n: int) -> bool {
    is_quad_pow2(c) && n <= c && (c == 4 || 2 * n > c)
}

pub proof fn lemma_quad_pow2_at_least_four(c: int)
    requires
        is_quad_pow2(c),
    ensures
        c >= 4,
    decreases c,
{
}

pub proof fn lemma_quad_pow2_double(c: int)
    requires
        is_quad_pow2(c),
    ensures
        is_quad_pow2(2 * c),
{
    lemma_quad_pow2_at_least_four(c);
    assert(2 * c > 4 && (2 * c) % 2 == 0 && (2 * c) / 2 == c);
}

/// A fresh array's capacity is the smallest admissible capacity for an
/// empty array.
pub proof fn lemma_new_capacity_minimal()
    ensures
        is_min_capacity(4, 0),
{
}

/// One `push` keeps the capacity minimal: if the capacity is the
/// smallest admissible one for `n` elements, then after a push (which
/// keeps the capacity when there is room and doubles it otherwise) it
/// is the smallest admissible one for `n + 1` elements. Together with
/// `lemma_new_capacity_minimal` this shows that after `N` pushes from
/// empty the capacity is the smallest power-of-two multiple of four
/// that is at least `N`.
pub proof fn lemma_push_capacity_minimal(c: int, n: int)
    requires
        is_min_capacity(c, n),
        0 <= n,
    ensures
        is_min_capacity(if n < c { c } else { 2 * c }, n + 1),
{
    lemma_quad_pow2_at_least_four(c);
    if n < c {
    } else {
        lemma_quad_pow2_double(c);
    }
}

/// The capacity after `n` pushes into a fresh array: four at first,
/// kept while there is room and doubled when the push finds the
/// buffer full — the recurrence that `new` and `push` promise.
pub open spec fn capacity_after_pushes(n: nat) -> int
    decreases n,
{
    if n == 0 {
        4
    } else {
        let c = capacity_after_pushes((n - 1) as nat);
        if n - 1 < c {
            c
        } else {
            2 * c
        }
    }
}

/// After `n` pushes into a fresh array the capacity is the smallest
/// power-of-two multiple of four that holds `n` elements.
pub proof fn lemma_capacity_after_pushes(n: nat)
    ensures
        is_min_capacity(capacity_after_pushes(n), n as int),
    decreases n,
{
    if n == 0 {
        lemma_new_capacity_minimal();
    } else {
        lemma_capacity_after_pushes((n - 1) as nat);
        lemma_push_capacity_minimal(capacity_after_pushes((n - 1) as nat), n as int - 1);
    }
}

/// Concatenating two sequences of lengths `m` and `n` yields length
/// `m + n`, the first sequence's elements first and the second's after
/// them, with neither side reordered.
pub proof fn lemma_concat_order<T>(a: Seq<T>, b: Seq<T>)
    ensures
        (a + b).len() == a.len() + b.len(),
        forall|i: int| 0 <= i < a.len() ==> (a + b)[i] == a[i],
        forall|j: int| 0 <= j < b.len() ==> (a + b)[a.len() + j] == b[j],
{
}

/// Resizable ordered sequence. The abstraction is the sequence of live
/// elements; `spec_capacity` exposes how many elements the buffer can
/// hold before it must grow.
pub struct GrowArray<T> {
    buf: Vec<T>,
    cap: usize,
}

impl<T> View for GrowArray<T> {
    type V = Seq<T>;

    closed spec fn view(&self) -> Seq<T> {
        self.buf@
    }
}

impl<T> GrowArray<T> {
    #[verifier::type_invariant]
    spec fn wf(&self) -> bool {
        self.buf@.len() <= self.cap && is_quad_pow2(self.cap as int)
    }

    pub closed spec fn spec_capacity(&self) -> int {
        self.cap as int
    }

    /// The number of live elements never exceeds the capacity; every
    /// operation below restates this of its result.
    pub open spec fn within_capacity(&self) -> bool {
        self@.len() <= self.spec_capacity()
    }

    /// A fresh array is empty with room for four elements.
    pub fn new() -> (a: Self)
        ensures
            a@ == Seq::<T>::empty(),
            a.spec_capacity() == 4,
            a.within_capacity(),
    {
        Self { buf: Vec::new(), cap: 4 }
    }

    pub fn len(&self) -> (n: usize)
        ensures
            n == self@.len(),
    {
        self.buf.len()
    }

    pub fn is_empty(&self) -> (e: bool)
        ensures
            e == (self@.len() == 0),
    {
        self.buf.len() == 0
    }

    pub fn capacity(&self) -> (c: usize)
        ensures
            c == self.spec_capacity(),
    {
        self.cap
    }

    /// Appends one element, doubling the capacity first when the buffer
    /// is full.
    pub fn push(&mut self, item: T)
        requires
            old(self)@.len() < usize::MAX as int / 2,
        ensures
            final(self)@ == old(self)@.push(item),
            final(self).within_capacity(),
            final(self).spec_capacity() == (if old(self)@.len() < old(self).spec_capacity() {
                old(self).spec_capacity()
            } else {
                2 * old(self).spec_capacity()
            }),
    {
        proof {
            use_type_invariant(&*self);
        }
        if self.buf.len() == self.cap {
            proof {
                lemma_quad_pow2_double(self.cap as int);
            }
            self.cap = self.cap * 2;
        }
        let mut b: Vec<T> = Vec::new();
        core::mem::swap(&mut b, &mut self.buf);
        b.push(item);
        self.buf = b;
    }

    /// Places `item` at `index`, shifting the tail one place right.
    /// An index past the end is a contract violation, so it is ruled
    /// out here rather than reported.
    pub fn insert(&mut self, index: usize, item: T)
        requires
            index <= old(self)@.len(),
            old(self)@.len() < usize::MAX as int / 2,
        ensures
            final(self)@ == old(self)@.insert(index as int, item),
            final(self).within_capacity(),
            final(self).spec_capacity() == (if old(self)@.len() < old(self).spec_capacity() {
                old(self).spec_capacity()
            } else {
                2 * old(self).spec_capacity()
            }),
    {
        proof {
            use_type_invariant(&*self);
        }
        if self.buf.len() == self.cap {
            proof {
                lemma_quad_pow2_double(self.cap as int);
            }
            self.cap = self.cap * 2;
        }
        let mut b: Vec<T> = Vec::new();
        core::mem::swap(&mut b, &mut self.buf);
        b.insert(index, item);
        self.buf = b;
    }

    /// Removes and returns the element at `index`, shifting the tail
    /// one place left. The capacity never shrinks.
    pub fn remove(&mut self, index: usize) -> (item: T)
        requires
            index < old(self)@.len(),
        ensures
            item == old(self)@[index as int],
            final(self)@ == old(self)@.remove(index as int),
            final(self).within_capacity(),
            final(self).spec_capacity() == old(self).spec_capacity(),
    {
        proof {
            use_type_invariant(&*self);
        }
        let mut b: Vec<T> = Vec::new();
        core::mem::swap(&mut b, &mut self.buf);
        let item = b.remove(index);
        self.buf = b;
        item
    }

    /// Moves every element of `other` onto the end of `self`, growing
    /// the capacity in one doubling pass beforehand.
    pub fn append(&mut self, other: GrowArray<T>)
        requires
            old(self)@.len() + other@.len() <= usize::MAX as int / 2,
        ensures
            final(self)@ == old(self)@ + other@,
            final(self).within_capacity(),
            final(self).spec_capacity() == grown_capacity(
                old(self).spec_capacity(),
                old(self)@.len() + other@.len() as int,
            ),
    {
        proof {
            use_type_invariant(&*self);
            use_type_invariant(&other);
            lemma_quad_pow2_at_least_four(self.cap as int);
        }
        let mut other = other;
        let need = self.buf.len() + other.buf.len();
        while self.cap < need
            invariant
                self.wf(),
                self@ == old(self)@,
                need == self@.len() + other@.len(),
                need <= usize::MAX as int / 2,
                grown_capacity(old(self).spec_capacity(), need as int) == grown_capacity(
                    self.cap as int,
                    need as int,
                ),
            decreases (if need <= self.cap { 0int } else { need - self.cap }),
        {
            proof {
                lemma_quad_pow2_at_least_four(self.cap as int);
                lemma_quad_pow2_double(self.cap as int);
            }
            self.cap = self.cap * 2;
        }
        let mut ob: Vec<T> = Vec::new();
        core::mem::swap(&mut ob, &mut other.buf);
        let mut b: Vec<T> = Vec::new();
        core::mem::swap(&mut b, &mut self.buf);
        b.append(&mut ob);
        self.buf = b;
    }

    /// Borrows the element at `index`.
    pub fn get(&self, index: usize) -> (r: &T)
        requires
            index < self@.len(),
        ensures
            *r == self@[index as int],
    {
        &self.buf[index]
    }

    /// Replaces the element at `index`.
    pub fn set(&mut self, index: usize, item: T)
        requires
            index < old(self)@.len(),
        ensures
            final(self)@ == old(self)@.update(index as int, item),
            final(self).within_capacity(),
            final(self).spec_capacity() == old(self).spec_capacity(),
    {
        proof {
            use_type_invariant(&*self);
        }
        let mut b: Vec<T> = Vec::new();
        core::mem::swap(&mut b, &mut self.buf);
        let r = vstd::std_specs::vec::vec_index_mut(&mut b, index);
        *r = item;
        self.buf = b;
    }

    /// Replaces the element at `index`, handing back the previous one.
    pub fn replace(&mut self, index: usize, item: T) -> (prev: T)
        requires
            index < old(self)@.len(),
        ensures
            prev == old(self)@[index as int],
            final(self)@ == old(self)@.update(index as int, item),
            final(self).within_capacity(),
            final(self).spec_capacity() == old(self).spec_capacity(),
    {
        proof {
            use_type_invariant(&*self);
        }
        let mut b: Vec<T> = Vec::new();
        core::mem::swap(&mut b, &mut self.buf);
        let mut item = item;
        let r = vstd::std_specs::vec::vec_index_mut(&mut b, index);
        core::mem::swap(&mut item, r);
        self.buf = b;
        item
    }

    /// The last element, or `None` when the array is empty.
    pub fn last(&self) -> (r: Option<&T>)
        ensures
            self@.len() == 0 ==> r is None,
            self@.len() > 0 ==> r == Some(&self@[self@.len() - 1]),
    {
        if self.buf.len() == 0 {
            None
        } else {
            Some(&self.buf[self.buf.len() - 1])
        }
    }

    /// Borrows the last element mutably; the caller's writes through
    /// the borrow land in the final slot.
    pub fn last_mut(&mut self) -> (r: &mut T)
        requires
            old(self)@.len() > 0,
        ensures
            *r == old(self)@.last(),
            final(self)@ == old(self)@.update(old(self)@.len() - 1, *final(r)),
            final(self).spec_capacity() == old(self).spec_capacity(),
    {
        proof {
            use_type_invariant(&*self);
        }
        let i = self.buf.len() - 1;
        vstd::std_specs::vec::vec_index_mut(&mut self.buf, i)
    }

    /// Borrows the elements before `index` and those from `index` on.
    pub fn split_at(&self, index: usize) -> (r: (&[T], &[T]))
        requires
            index < self@.len(),
        ensures
            r.0@ == self@.subrange(0, index as int),
            r.1@ == self@.subrange(index as int, self@.len() as int),
    {
        let s = self.buf.as_slice();
        (
            vstd::slice::slice_subrange(s, 0, index),
            vstd::slice::slice_subrange(s, index, self.buf.len()),
        )
    }

    /// Borrows the live elements as a slice.
    pub fn as_slice(&self) -> (s: &[T])
        ensures
            s@ == self@,
    {
        self.buf.as_slice()
    }

    /// A cursor over the elements, for forward and backward iteration.
    pub fn iter(&self) -> (it: GrowArrayIter<'_, T>)
        ensures
            it.remaining() == self@,
    {
        GrowArrayIter { arr: self, front: 0, back: self.len() }
    }
}

impl<T: Copy> GrowArray<T> {
    /// A fresh array with the same elements and the same capacity.
    pub fn duplicate(&self) -> (r: Self)
        ensures
            r@ == self@,
            r.spec_capacity() == self.spec_capacity(),
            r.within_capacity(),
    {
        proof {
            use_type_invariant(self);
        }
        let n = self.buf.len();
        let mut b: Vec<T> = Vec::new();
        let mut i: usize = 0;
        while i < n
            invariant
                i <= n,
                n == self@.len(),
                b@ == self@.subrange(0, i as int),
            decreases n - i,
        {
            b.push(self.buf[i]);
            proof {
                assert(b@ =~= self@.subrange(0, i + 1));
            }
            i = i + 1;
        }
        proof {
            assert(b@ =~= self@);
        }
        Self { buf: b, cap: self.cap }
    }
}

impl<T> Default for GrowArray<T> {
    /// The same fresh, empty array `new` gives.
    fn default() -> (a: Self)
        ensures
            a@ == Seq::<T>::empty(),
            a.spec_capacity() == 4,
    {
        GrowArray::new()
    }
}

/// Double-ended cursor over a borrowed `GrowArray`. The elements not
/// yet yielded are `remaining()`; `next` takes them from the front and
/// `next_back` from the back.
pub struct GrowArrayIter<'a, T> {
    arr: &'a GrowArray<T>,
    front: usize,
    back: usize,
}

impl<'a, T> GrowArrayIter<'a, T> {
    #[verifier::type_invariant]
    spec fn wf(&self) -> bool {
        self.front <= self.back <= self.arr@.len()
    }

    pub closed spec fn remaining(&self) -> Seq<T> {
        self.arr@.subrange(self.front as int, self.back as int)
    }

    /// Yields the first remaining element, or `None` when none are
    /// left.
    pub fn next(&mut self) -> (r: Option<&'a T>)
        ensures
            old(self).remaining().len() == 0 ==> r is None && final(self).remaining()
                == old(self).remaining(),
            old(self).remaining().len() > 0 ==> r == Some(&old(self).remaining()[0])
                && final(self).remaining() == old(self).remaining().drop_first(),
    {
        proof {
            use_type_invariant(&*self);
        }
        if self.front == self.back {
            None
        } else {
            let r = self.arr.get(self.front);
            self.front = self.front + 1;
            proof {
                assert(final(self).remaining() =~= old(self).remaining().drop_first());
            }
            Some(r)
        }
    }

    /// Yields the last remaining element, or `None` when none are
    /// left.
    pub fn next_back(&mut self) -> (r: Option<&'a T>)
        ensures
            old(self).remaining().len() == 0 ==> r is None && final(self).remaining()
                == old(self).remaining(),
            old(self).remaining().len() > 0 ==> r == Some(
                &old(self).remaining()[old(self).remaining().len() - 1],
            ) && final(self).remaining() == old(self).remaining().drop_last(),
    {
        proof {
            use_type_invariant(&*self);
        }
        if self.front == self.back {
            None
        } else {
            self.back = self.back - 1;
            let r = self.arr.get(self.back);
            proof {
                assert(final(self).remaining() =~= old(self).remaining().drop_last());
            }
            Some(r)
        }
    }
}

} // verus!
