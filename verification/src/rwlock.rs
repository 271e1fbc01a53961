//! Reader-writer lock for a single-threaded, cooperative kernel.
//! Reads always succeed. The first writer locks and mutates at once;
//! writers arriving while the lock is held are hung on a queue, and
//! when the originating writer releases its guard every hung mutation
//! is replayed in arrival order.

use vstd::prelude::*;
use crate::array::GrowArray;

verus! {

/// A mutation of the guarded value, queued as a value so it can be
/// hung and replayed later. Implementors state what the mutation
/// computes as `result` and prove `apply` against it.
pub trait Mutator<T>: Sized {
    /// The value the mutation turns `v` into.
    spec fn result(&self, v: T) -> T;

    /// Performs the mutation in place.
    fn apply(&self, v: &mut T)
        ensures
            *final(v) == self.result(*old(v)),
    ;
}

/// The lock's three states: free, held by the single active writer,
/// or replaying hung mutations after that writer released.
#[derive(Clone, Copy, PartialEq, Eq, Structural, Debug)]
pub enum LockState {
    Unlocked,
    Locked,
    DrainingHung,
}

/// The value reached by applying a queue of mutations in order,
/// first-queued first.
pub open spec fn apply_all<T, F: Mutator<T>>(fs: Seq<F>, v: T) -> T
    decreases fs.len(),
{
    if fs.len() == 0 {
        v
    } else {
        apply_all(fs.drop_first(), fs[0].result(v))
    }
}

/// Appending one mutation to a queue makes it run last: replaying the
/// longer queue is replaying the shorter one, then applying the
/// newcomer.
pub proof fn lemma_apply_all_push<T, F: Mutator<T>>(fs: Seq<F>, f: F, v: T)
    ensures
        apply_all(fs.push(f), v) == f.result(apply_all(fs, v)),
    decreases fs.len(),
{
    if fs.len() == 0 {
        assert(fs.push(f).drop_first() =~= Seq::<F>::empty());
        assert(fs.push(f)[0] == f);
        assert(apply_all(fs.push(f), v) == apply_all(Seq::<F>::empty(), f.result(v)));
        assert(apply_all(Seq::<F>::empty(), f.result(v)) == f.result(v));
    } else {
        assert(fs.push(f).drop_first() =~= fs.drop_first().push(f));
        assert(fs.push(f)[0] == fs[0]);
        assert(apply_all(fs.push(f), v) == apply_all(fs.drop_first().push(f), fs[0].result(v)));
        lemma_apply_all_push(fs.drop_first(), f, fs[0].result(v));
        assert(apply_all(fs, v) == apply_all(fs.drop_first(), fs[0].result(v)));
    }
}

/// Two mutations hung in the order `a` then `b` replay in that order:
/// the drained value is `b` applied after `a`.
pub proof fn lemma_replay_pair<T, F: Mutator<T>>(a: F, b: F, v: T)
    ensures
        apply_all(seq![a, b], v) == b.result(a.result(v)),
{
    assert(seq![a, b].drop_first() =~= seq![b]);
    assert(seq![b].drop_first() =~= Seq::<F>::empty());
    assert(apply_all(seq![a, b], v) == apply_all(seq![b], a.result(v)));
    assert(apply_all(seq![b], a.result(v)) == apply_all(
        Seq::<F>::empty(),
        b.result(a.result(v)),
    ));
    assert(apply_all(Seq::<F>::empty(), b.result(a.result(v))) == b.result(a.result(v)));
}

/// A read borrow of the guarded value; reads never block or fail.
pub struct RwLockReadGuard<'a, T> {
    obj: &'a T,
}

impl<'a, T> RwLockReadGuard<'a, T> {
    pub closed spec fn spec_value(&self) -> T {
        *self.obj
    }

    pub fn value(&self) -> (r: &T)
        ensures
            *r == self.spec_value(),
    {
        self.obj
    }
}

/// The token a writer holds. Only the guard of the writer that took
/// the lock is originating; releasing it triggers the replay of the
/// hung queue. A guard handed to a hung writer does not reflect its
/// still-pending mutation, and releasing it does nothing.
pub struct RwLockWriteGuard {
    originating: bool,
}

impl RwLockWriteGuard {
    pub closed spec fn is_originating(&self) -> bool {
        self.originating
    }

    pub fn originating(&self) -> (r: bool)
        ensures
            r == self.is_originating(),
    {
        self.originating
    }
}

/// The lock: the guarded value, the state, and the queue of hung
/// mutations in arrival order.
pub struct RwLock<T, F> {
    obj: T,
    state: LockState,
    hanging: GrowArray<F>,
}

impl<T, F: Mutator<T>> RwLock<T, F> {
    pub closed spec fn spec_value(&self) -> T {
        self.obj
    }

    pub closed spec fn spec_state(&self) -> LockState {
        self.state
    }

    pub closed spec fn spec_hanging(&self) -> Seq<F> {
        self.hanging@
    }

    /// Wraps a value; the lock starts free with nothing hung.
    pub fn new(obj: T) -> (l: Self)
        ensures
            l.spec_value() == obj,
            l.spec_state() == LockState::Unlocked,
            l.spec_hanging() == Seq::<F>::empty(),
    {
        RwLock { obj, state: LockState::Unlocked, hanging: GrowArray::new() }
    }

    pub fn state(&self) -> (s: LockState)
        ensures
            s == self.spec_state(),
    {
        self.state
    }

    /// Borrows the guarded value. There is no reader exclusion: a
    /// read succeeds immediately in every state.
    pub fn read(&self) -> (g: RwLockReadGuard<'_, T>)
        ensures
            g.spec_value() == self.spec_value(),
    {
        RwLockReadGuard { obj: &self.obj }
    }

    /// Requests a mutation of the guarded value.
    ///
    /// While the lock is replaying hung mutations the request fails
    /// and changes nothing. On a free lock the mutation is applied at
    /// once and the originating guard is returned. On a held lock the
    /// mutation is hung at the end of the queue, and the returned
    /// guard — not the originating one — does not reflect it.
    pub fn write(&mut self, f: F) -> (r: Result<RwLockWriteGuard, ()>)
        requires
            old(self).spec_hanging().len() < usize::MAX as int / 2,
        ensures
            old(self).spec_state() == LockState::DrainingHung ==> {
                &&& r is Err
                &&& final(self).spec_value() == old(self).spec_value()
                &&& final(self).spec_state() == old(self).spec_state()
                &&& final(self).spec_hanging() == old(self).spec_hanging()
            },
            old(self).spec_state() == LockState::Unlocked ==> {
                &&& r matches Ok(g) && g.is_originating()
                &&& final(self).spec_value() == f.result(old(self).spec_value())
                &&& final(self).spec_state() == LockState::Locked
                &&& final(self).spec_hanging() == old(self).spec_hanging()
            },
            old(self).spec_state() == LockState::Locked ==> {
                &&& r matches Ok(g) && !g.is_originating()
                &&& final(self).spec_value() == old(self).spec_value()
                &&& final(self).spec_state() == LockState::Locked
                &&& final(self).spec_hanging() == old(self).spec_hanging().push(f)
            },
    {
        match self.state {
            LockState::DrainingHung => Err(()),
            LockState::Unlocked => {
                self.state = LockState::Locked;
                f.apply(&mut self.obj);
                Ok(RwLockWriteGuard { originating: true })
            },
            LockState::Locked => {
                self.hanging.push(f);
                Ok(RwLockWriteGuard { originating: false })
            },
        }
    }

    /// Gives a writer's guard back.
    ///
    /// Releasing the originating guard drains the lock: every hung
    /// mutation is applied in arrival order, the queue is cleared and
    /// the lock is free again. Releasing a hung writer's guard does
    /// nothing.
    pub fn release(&mut self, guard: RwLockWriteGuard)
        requires
            guard.is_originating() ==> old(self).spec_state() == LockState::Locked,
        ensures
            !guard.is_originating() ==> {
                &&& final(self).spec_value() == old(self).spec_value()
                &&& final(self).spec_state() == old(self).spec_state()
                &&& final(self).spec_hanging() == old(self).spec_hanging()
            },
            guard.is_originating() ==> {
                &&& final(self).spec_value() == apply_all(
                    old(self).spec_hanging(),
                    old(self).spec_value(),
                )
                &&& final(self).spec_state() == LockState::Unlocked
                &&& final(self).spec_hanging() == Seq::<F>::empty()
            },
    {
        if guard.originating {
            self.state = LockState::DrainingHung;
            while !self.hanging.is_empty()
                invariant
                    apply_all(self.hanging@, self.obj) == apply_all(
                        old(self).spec_hanging(),
                        old(self).spec_value(),
                    ),
                decreases self.hanging@.len(),
            {
                let ghost h0 = self.hanging@;
                let ghost v0 = self.obj;
                let f = self.hanging.remove(0);
                proof {
                    assert(self.hanging@ =~= h0.drop_first());
                }
                f.apply(&mut self.obj);
                proof {
                    assert(apply_all(h0, v0) == apply_all(h0.drop_first(), h0[0].result(v0)));
                }
            }
            self.state = LockState::Unlocked;
            proof {
                assert(self.hanging@ =~= Seq::<F>::empty());
            }
        }
    }
}

} // verus!
