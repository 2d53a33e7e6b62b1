//! Priority tokens and the dynamic priority of the running context.
use vstd::prelude::*;

verus! {

/// The highest representable priority level.
pub const TOP_LEVEL: u8 = 255;

/// A capability attesting that the holder runs at a dynamic priority of at
/// least `level`.
///
/// It can neither be cloned nor copied, and is only minted at or below the
/// running priority of a context: at task entry and, for the length of a
/// critical section, by the claim operations.
pub struct Priority {
    level: u8,
}

impl View for Priority {
    type V = u8;

    closed spec fn view(&self) -> u8 {
        self.level
    }
}

impl Priority {
    /// Mints a token at `level` for a context running on `core`; the token
    /// may not overstate the running priority.
    pub fn mint(core: &Core, level: u8) -> (r: Priority)
        requires
            level <= core@.running,
        ensures
            r@ == level,
    {
        Priority { level }
    }

    /// Mints a token at the highest level, for a context that runs at it and
    /// so is never preempted.
    pub fn top(core: &Core) -> (r: Priority)
        requires
            core@.running == TOP_LEVEL,
        ensures
            r@ == TOP_LEVEL,
    {
        Priority { level: TOP_LEVEL }
    }

    /// The level that this token attests.
    pub fn level(&self) -> (r: u8)
        ensures
            r == self@,
    {
        self.level
    }

    /// Puts the token back to `level` when a critical section ends.
    pub(crate) fn reset(&mut self, level: u8)
        ensures
            final(self)@ == level,
    {
        self.level = level;
    }
}

/// What the interrupt controller holds for the running context: its dynamic
/// priority, and every value written to it so far, oldest first.
pub ghost struct CoreView {
    pub running: u8,
    pub writes: Seq<u8>,
}

impl CoreView {
    /// Raising to `ceiling` only ever increases the running priority; a write
    /// happens only where the priority actually changes.
    pub open spec fn raise(self, ceiling: u8) -> CoreView {
        if ceiling > self.running {
            CoreView { running: ceiling, writes: self.writes.push(ceiling) }
        } else {
            self
        }
    }

    /// Restoring sets the running priority back to `prior`, writing only where
    /// it differs.
    pub open spec fn restore(self, prior: u8) -> CoreView {
        if self.running != prior {
            CoreView { running: prior, writes: self.writes.push(prior) }
        } else {
            self
        }
    }
}

/// The dynamic priority of the running context, as the architecture's
/// priority-raise and restore primitive maintains it.
pub struct Core {
    running: u8,
    writes: Vec<u8>,
}

impl View for Core {
    type V = CoreView;

    closed spec fn view(&self) -> CoreView {
        CoreView { running: self.running, writes: self.writes@ }
    }
}

impl Core {
    /// A context entered at `level`, with nothing written yet.
    pub fn new(level: u8) -> (r: Core)
        ensures
            r@.running == level,
            r@.writes == Seq::<u8>::empty(),
    {
        Core { running: level, writes: Vec::new() }
    }

    /// The current dynamic priority.
    pub fn level(&self) -> (r: u8)
        ensures
            r == self@.running,
    {
        self.running
    }

    /// Every value written to the dynamic priority, oldest first.
    pub fn history(&self) -> (r: &Vec<u8>)
        ensures
            r@ == self@.writes,
    {
        &self.writes
    }

    pub(crate) fn raise(&mut self, ceiling: u8)
        ensures
            final(self)@ == old(self)@.raise(ceiling),
    {
        if ceiling > self.running {
            self.running = ceiling;
            self.writes.push(ceiling);
        }
    }

    pub(crate) fn restore(&mut self, prior: u8)
        ensures
            final(self)@ == old(self)@.restore(prior),
    {
        if self.running != prior {
            self.running = prior;
            self.writes.push(prior);
        }
    }
}

} // verus!
