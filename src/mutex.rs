//! The `Mutex` interface, and the single-owner `Exclusive` wrapper.
use vstd::prelude::*;

verus! {

/// `f` may be called with any mutable reference to a value equal to `v`.
pub open spec fn accepts<T, R, F: FnOnce(&mut T) -> R>(f: F, v: T) -> bool {
    forall|d: &mut T| *d == v ==> #[trigger] f.requires((d,))
}

/// Memory-safe access to shared data through a critical section.
pub trait Mutex {
    /// Data protected by the mutex.
    type T;

    /// The protected data, as it stands outside any critical section.
    spec fn data(&self) -> Self::T;

    /// Whether a critical section can be entered now.
    spec fn available(&self) -> bool;

    /// Creates a critical section and grants `f` temporary access to the
    /// protected data; what `f` leaves there is the data afterwards.
    fn lock<R, F: FnOnce(&mut Self::T) -> R>(&mut self, f: F) -> (r: R)
        requires
            old(self).available(),
            accepts(f, (*old(self)).data()),
        ensures
            final(self).available(),
            exists|d: &mut Self::T|
                *d == (*old(self)).data() && *final(d) == (*final(self)).data() && #[trigger] f.ensures(
                    (d,),
                    r,
                ),
    ;
}

impl<'a, M: Mutex> Mutex for &'a mut M {
    type T = M::T;

    open spec fn data(&self) -> M::T {
        (**self).data()
    }

    open spec fn available(&self) -> bool {
        (**self).available()
    }

    fn lock<R, F: FnOnce(&mut M::T) -> R>(&mut self, f: F) -> (r: R) {
        (**self).lock(f)
    }
}

/// The error of a lock attempt made while the same wrapper is already locked.
#[derive(Debug, PartialEq, Eq, Structural)]
pub struct Reentered;

/// A "currently locked" flag: it detects an access entered while another is
/// still active.
pub struct LockFlag {
    locked: bool,
}

impl LockFlag {
    pub closed spec fn spec_is_set(&self) -> bool {
        self.locked
    }

    /// A clear flag.
    pub fn new() -> (r: LockFlag)
        ensures
            !r.is_set(),
    {
        LockFlag { locked: false }
    }

    /// Whether an access is active.
    #[verifier::when_used_as_spec(spec_is_set)]
    pub fn is_set(&self) -> (r: bool)
        ensures
            r == self.is_set(),
    {
        self.locked
    }

    /// Marks an access as entered. An attempt made while an access is active
    /// is refused and leaves the flag set, so every further nested attempt is
    /// refused as well; only the outermost one gets through.
    pub fn acquire(&mut self) -> (r: Result<(), Reentered>)
        ensures
            r is Ok <==> !old(self).is_set(),
            final(self).is_set(),
    {
        if self.locked {
            Err(Reentered)
        } else {
            self.locked = true;
            Ok(())
        }
    }

    /// Marks the access as left.
    pub fn release(&mut self)
        ensures
            !final(self).is_set(),
    {
        self.locked = false;
    }
}

/// Access to data that exactly one context ever reaches: locking needs no
/// priority change, and the flag is set strictly within an active access.
pub struct Exclusive<'a, T> {
    data: &'a mut T,
    flag: LockFlag,
}

impl<'a, T> Exclusive<'a, T> {
    /// The reference to the wrapped variable.
    pub closed spec fn target(&self) -> &'a mut T {
        self.data
    }

    /// Once a wrapper is no longer used, the variable it wrapped holds the
    /// payload that the wrapper last held.
    pub proof fn lemma_release(e: Exclusive<'a, T>)
        requires
            has_resolved(e),
        ensures
            *final(e.target()) == e.data(),
    {
    }

    /// Whether an access is active.
    pub closed spec fn spec_is_locked(&self) -> bool {
        self.flag.is_set()
    }

    /// Wraps `data`, unlocked.
    pub fn new(data: &'a mut T) -> (r: Exclusive<'a, T>)
        ensures
            r.data() == *old(data),
            *final(data) == *final(r.target()),
            !r.is_locked(),
    {
        Exclusive { data, flag: LockFlag::new() }
    }

    /// Whether an access is active.
    #[verifier::when_used_as_spec(spec_is_locked)]
    pub fn is_locked(&self) -> (r: bool)
        ensures
            r == self.is_locked(),
    {
        self.flag.is_set()
    }

    /// Runs `f` on the payload, or refuses with `Reentered`, without running
    /// `f` and leaving everything as it was, when an access is already active.
    pub fn try_lock<R, F: FnOnce(&mut T) -> R>(&mut self, f: F) -> (r: Result<R, Reentered>)
        requires
            accepts(f, (*old(self)).data()),
        ensures
            r is Err <==> old(self).is_locked(),
            r is Err ==> *final(self) == *old(self),
            !old(self).is_locked() ==> !final(self).is_locked(),
            *final(final(self).target()) == *final(old(self).target()),
            r is Ok ==> exists|d: &mut T|
                *d == (*old(self)).data() && *final(d) == (*final(self)).data() && #[trigger] f.ensures(
                    (d,),
                    r->Ok_0,
                ),
    {
        match self.flag.acquire() {
            Err(e) => Err(e),
            Ok(()) => {
                let r = f(&mut *self.data);
                self.flag.release();
                let res = Ok(r);
                proof {
                    assert(res->Ok_0 == r);
                }
                res
            },
        }
    }
}

impl<'a, T> Mutex for Exclusive<'a, T> {
    type T = T;

    open spec fn data(&self) -> T {
        *self.target()
    }

    open spec fn available(&self) -> bool {
        !self.is_locked()
    }

    fn lock<R, F: FnOnce(&mut T) -> R>(&mut self, f: F) -> (r: R)
        ensures
            !final(self).is_locked(),
            *final(final(self).target()) == *final(old(self).target()),
    {
        let entered = self.flag.acquire();
        proof {
            assert(entered is Ok);
        }
        let r = f(&mut *self.data);
        self.flag.release();
        r
    }
}

impl<'a, T> core::ops::Deref for Exclusive<'a, T> {
    type Target = T;

    fn deref(&self) -> (r: &T)
        ensures
            *r == self.data(),
    {
        &*self.data
    }
}

impl<'a, T> core::ops::DerefMut for Exclusive<'a, T> {
    fn deref_mut(&mut self) -> (r: &mut T)
        ensures
            *r == (*old(self)).data(),
            (*final(self)).data() == *final(r),
            *final(final(self).target()) == *final(old(self).target()),
            final(self).is_locked() == old(self).is_locked(),
    {
        &mut *self.data
    }
}

} // verus!
