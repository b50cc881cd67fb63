//! Which data attachment a session belongs to. Each attachment is a generation;
//! a session has at most one, and a generation is never used twice.
use vstd::prelude::*;

verus! {

/// The attachment slot of a session.
#[derive(Clone, Copy, Debug, PartialEq, Eq, Structural)]
pub struct AttachmentState {
    pub next_generation: u64,
    pub current: Option<u64>,
}

/// A newly installed attachment, and the one that it displaced.
#[derive(Clone, Copy, Debug, PartialEq, Eq, Structural)]
pub struct AttachmentLease {
    pub generation: u64,
    pub displaced: Option<u64>,
}

impl AttachmentState {
    /// The current generation was handed out before the next one.
    pub open spec fn valid(self) -> bool {
        self.current is Some ==> self.current->0 < self.next_generation
    }

    /// Whether `generation` holds the slot.
    pub open spec fn holds(self, generation: u64) -> bool {
        self.current == Some(generation)
    }

    /// Whether an attachment can be installed.
    pub open spec fn free(self, force: bool) -> bool {
        self.current is None || force
    }

    /// The state after a new attachment took the slot.
    pub open spec fn installed(self) -> AttachmentState {
        AttachmentState {
            next_generation: (self.next_generation + 1) as u64,
            current: Some(self.next_generation),
        }
    }

    /// The state after `generation` gave the slot up, if it held it.
    pub open spec fn cleared(self, generation: u64) -> AttachmentState {
        if self.holds(generation) {
            AttachmentState { current: None, ..self }
        } else {
            self
        }
    }

    pub fn new() -> (r: Self)
        ensures
            r == (AttachmentState { next_generation: 1, current: None }),
            r.valid(),
    {
        AttachmentState { next_generation: 1, current: None }
    }

    /// Takes the slot for a new generation. Without `force` a held slot stays
    /// with its holder, and nothing is returned.
    pub fn install(&mut self, force: bool) -> (r: Option<AttachmentLease>)
        requires
            old(self).valid(),
            old(self).next_generation < u64::MAX,
        ensures
            final(self).valid(),
            match r {
                Some(lease) => {
                    &&& old(self).free(force)
                    &&& lease.generation == old(self).next_generation
                    &&& lease.displaced == old(self).current
                    &&& *final(self) == old(self).installed()
                },
                None => !old(self).free(force) && *final(self) == *old(self),
            },
    {
        if self.current.is_some() && !force {
            return None;
        }
        let generation: u64 = self.next_generation;
        let displaced = self.current;
        self.next_generation = generation + 1;
        self.current = Some(generation);
        Some(AttachmentLease { generation, displaced })
    }

    /// Gives the slot up, if `generation` still holds it.
    pub fn compare_clear(&mut self, generation: u64)
        ensures
            *final(self) == old(self).cleared(generation),
            old(self).valid() ==> final(self).valid(),
    {
        if self.is_current(generation) {
            self.current = None;
        }
    }

    /// Whether `generation` holds the slot.
    pub fn is_current(&self, generation: u64) -> (r: bool)
        ensures
            r == self.holds(generation),
    {
        match self.current {
            Some(current) => current == generation,
            None => false,
        }
    }
}

/// An attachment that was displaced never holds the slot again, and its cleanup
/// cannot take the slot from the attachment that displaced it.
pub proof fn displaced_stays_displaced(state: AttachmentState, old_generation: u64, force: bool)
    requires
        state.valid(),
        state.next_generation < u64::MAX,
        old_generation < state.next_generation,
    ensures
        !state.installed().holds(old_generation),
        state.installed().holds(state.next_generation),
        state.installed().cleared(old_generation) == state.installed(),
        !state.holds(old_generation) ==> !state.cleared(old_generation).holds(old_generation)
            && !state.installed().installed().holds(old_generation),
{
}

/// A new attachment gets a generation that was never handed out before, it holds
/// the slot from then on, and whom it displaced is told. A held slot is taken
/// only by force; otherwise its holder keeps it.
pub proof fn attachments_get_fresh_generations(
    state: &mut AttachmentState,
    force: bool,
    lease: Option<AttachmentLease>,
)
    requires
        old(state).valid(),
        old(state).next_generation < u64::MAX,
        call_ensures(AttachmentState::install, (state, force), lease),
    ensures
        lease is None <==> old(state).current is Some && !force,
        lease is None ==> *final(state) == *old(state),
        lease matches Some(lease) ==> {
            &&& final(state).current == Some(lease.generation)
            &&& lease.displaced == old(state).current
            &&& lease.generation >= old(state).next_generation
            &&& final(state).next_generation > lease.generation
            &&& old(state).current != Some(lease.generation)
        },
{
}

/// Cleaning up frees the slot exactly if the attachment still holds it, and never
/// makes a generation available again.
pub proof fn cleanup_frees_only_its_own_slot(state: &mut AttachmentState, generation: u64)
    requires
        call_ensures(AttachmentState::compare_clear, (state, generation), ()),
    ensures
        old(state).current == Some(generation) ==> final(state).current is None,
        old(state).current != Some(generation) ==> final(state).current == old(state).current,
        final(state).next_generation == old(state).next_generation,
{
}

/// A slot belongs to the attachment whose generation it names, and to no other.
pub proof fn slots_have_one_holder(state: AttachmentState, one: u64, other: u64, r: bool, s: bool)
    requires
        call_ensures(AttachmentState::is_current, (&state, one), r),
        call_ensures(AttachmentState::is_current, (&state, other), s),
    ensures
        r && s ==> one == other,
        state.current is None ==> !r,
        state.current matches Some(holder) ==> (r <==> holder == one),
{
}

/// The slot begins free, and its first holder is the first generation.
pub proof fn slots_begin_free(
    state: &mut AttachmentState,
    start: AttachmentState,
    force: bool,
    r: Option<AttachmentLease>,
)
    requires
        call_ensures(AttachmentState::new, (), start),
        *old(state) == start,
        call_ensures(AttachmentState::install, (state, force), r),
    ensures
        start.current is None,
        r is Some,
        final(state).current == Some(1u64),
        final(state).next_generation == 2,
{
}

} // verus!
