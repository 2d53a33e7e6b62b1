//! Resource cells guarded by a priority ceiling.
use vstd::prelude::*;
use crate::priority::{Core, CoreView, Priority};

verus! {

/// A token at `level` grants access to a resource with `ceiling` without
/// raising the priority.
pub open spec fn dominates(level: u8, ceiling: u8) -> bool {
    level >= ceiling
}

/// The level of the token that a critical section on a resource with
/// `ceiling` runs with, entered from a token at `level`.
pub open spec fn section_level(level: u8, ceiling: u8) -> u8 {
    if dominates(level, ceiling) {
        level
    } else {
        ceiling
    }
}

/// The dynamic priority on entry to a critical section on a resource with
/// `ceiling`, entered from a token at `level`: unchanged where the token
/// already dominates the ceiling, raised to the ceiling otherwise.
pub open spec fn section_entry(core: CoreView, level: u8, ceiling: u8) -> CoreView {
    if dominates(level, ceiling) {
        core
    } else {
        core.raise(ceiling)
    }
}

/// A claim nested inside a critical section whose token level already
/// dominates the inner ceiling costs nothing: it runs with the same token
/// level and the dynamic priority exactly as it was.
pub proof fn nested_claim_is_free(core: CoreView, level: u8, outer: u8, inner: u8)
    requires
        inner <= section_level(level, outer),
    ensures
        section_level(section_level(level, outer), inner) == section_level(level, outer),
        section_entry(section_entry(core, level, outer), section_level(level, outer), inner)
            == section_entry(core, level, outer),
{
}

/// A critical section entered with a token that does not overstate the
/// running priority runs at or above the resource's ceiling, and its token
/// still does not overstate the running priority.
pub proof fn section_runs_at_ceiling(core: CoreView, level: u8, ceiling: u8)
    requires
        level <= core.running,
    ensures
        ceiling <= section_level(level, ceiling),
        section_level(level, ceiling) <= section_entry(core, level, ceiling).running,
{
}

/// Shared data with a static ceiling priority: the highest priority of any
/// context that may touch it.
pub struct Resource<T> {
    data: T,
    ceiling: u8,
}

impl<T> Resource<T> {
    /// The protected payload.
    pub closed spec fn payload(&self) -> T {
        self.data
    }

    /// The ceiling priority, in specifications.
    pub closed spec fn spec_ceiling(&self) -> u8 {
        self.ceiling
    }

    /// A resource holding `data`, with the given ceiling.
    pub fn new(data: T, ceiling: u8) -> (r: Resource<T>)
        ensures
            r.payload() == data,
            r.ceiling() == ceiling,
    {
        Resource { data, ceiling }
    }

    /// The resource's ceiling priority.
    #[verifier::when_used_as_spec(spec_ceiling)]
    pub fn ceiling(&self) -> (r: u8)
        ensures
            r == self.ceiling(),
    {
        self.ceiling
    }

    /// The payload, for a critical section that has already been entered.
    pub(crate) fn section_data(&mut self) -> (r: &mut T)
        ensures
            *r == old(self).payload(),
            final(self).payload() == *final(r),
            final(self).ceiling() == old(self).ceiling(),
    {
        &mut self.data
    }

    /// Shared access for a caller whose token already dominates the ceiling;
    /// no priority change happens. A token below the ceiling, or one that
    /// overstates the running priority, is refused.
    pub fn borrow<'t>(&'t self, token: &'t Priority, core: &Core) -> (r: &'t T)
        requires
            token@ <= core@.running,
            dominates(token@, self.ceiling()),
        ensures
            *r == self.payload(),
    {
        &self.data
    }

    /// Exclusive access for a caller whose token already dominates the
    /// ceiling; no priority change happens. A token below the ceiling, or one
    /// that overstates the running priority, is refused.
    pub fn borrow_mut<'t>(&'t mut self, token: &'t Priority, core: &Core) -> (r: &'t mut T)
        requires
            token@ <= core@.running,
            dominates(token@, old(self).ceiling()),
        ensures
            *r == old(self).payload(),
            final(self).payload() == *final(r),
            final(self).ceiling() == old(self).ceiling(),
    {
        &mut self.data
    }
    /// Runs `f` inside a critical section on this resource.
    ///
    /// Where the token already dominates the ceiling, `f` runs with that token
    /// and the dynamic priority as it is. Otherwise the dynamic priority is
    /// raised to the ceiling and `f` runs with a token minted at the ceiling.
    /// Either way the token and the dynamic priority are back at their prior
    /// levels when the call returns.
    pub fn claim_mut<R, F>(&mut self, token: &mut Priority, core: &mut Core, f: F) -> (r: R)
        where
            F: FnOnce(&mut T, &mut Priority, &mut Core) -> R,
        requires
            old(token)@ <= old(core)@.running,
            forall|d: &mut T, t: &mut Priority, c: &mut Core|
                *d == old(self).payload()
                    && t@ == section_level(old(token)@, old(self).ceiling())
                    && c@ == section_entry(old(core)@, old(token)@, old(self).ceiling())
                    ==> #[trigger] f.requires((d, t, c)),
        ensures
            final(self).ceiling() == old(self).ceiling(),
            final(token)@ == old(token)@,
            final(core)@.running == old(core)@.running,
            exists|d: &mut T, t: &mut Priority, c: &mut Core|
                *d == old(self).payload()
                    && t@ == section_level(old(token)@, old(self).ceiling())
                    && c@ == section_entry(old(core)@, old(token)@, old(self).ceiling())
                    && #[trigger] f.ensures((d, t, c), r)
                    && final(self).payload() == *final(d)
                    && final(core)@ == final(c)@.restore(old(core)@.running),
    {
        let prior_token = token.level();
        let prior = core.level();
        if prior_token >= self.ceiling {
            let r = f(&mut self.data, token, core);
            token.reset(prior_token);
            core.restore(prior);
            r
        } else {
            core.raise(self.ceiling);
            let mut raised = Priority::mint(core, self.ceiling);
            let r = f(&mut self.data, &mut raised, core);
            core.restore(prior);
            r
        }
    }

    /// Runs `f` with shared access inside a critical section on this
    /// resource, raising and restoring priority as `claim_mut` does.
    pub fn claim<R, F>(&self, token: &mut Priority, core: &mut Core, f: F) -> (r: R)
        where
            F: FnOnce(&T, &mut Priority, &mut Core) -> R,
        requires
            old(token)@ <= old(core)@.running,
            forall|d: &T, t: &mut Priority, c: &mut Core|
                *d == self.payload()
                    && t@ == section_level(old(token)@, self.ceiling())
                    && c@ == section_entry(old(core)@, old(token)@, self.ceiling())
                    ==> #[trigger] f.requires((d, t, c)),
        ensures
            final(token)@ == old(token)@,
            final(core)@.running == old(core)@.running,
            exists|d: &T, t: &mut Priority, c: &mut Core|
                *d == self.payload()
                    && t@ == section_level(old(token)@, self.ceiling())
                    && c@ == section_entry(old(core)@, old(token)@, self.ceiling())
                    && #[trigger] f.ensures((d, t, c), r)
                    && final(core)@ == final(c)@.restore(old(core)@.running),
    {
        let prior_token = token.level();
        let prior = core.level();
        if prior_token >= self.ceiling {
            let r = f(&self.data, token, core);
            token.reset(prior_token);
            core.restore(prior);
            r
        } else {
            core.raise(self.ceiling);
            let mut raised = Priority::mint(core, self.ceiling);
            let r = f(&self.data, &mut raised, core);
            core.restore(prior);
            r
        }
    }
}

} // verus!
