//! Authority over the original process group of a command.
use vstd::prelude::*;

verus! {

/// A handle on the original leader of a process group, never a saved number.
pub trait GroupSignal {
    /// Signals the group. `Ok(false)` means only that the group has no member;
    /// success counts groups in which every member is a zombie.
    fn signal(&self, signal: i32) -> Result<bool, String>;
}

/// The signal that only asks whether the group exists.
pub const SIGNAL_ZERO: i32 = 0;

/// A handle and the calls that were made on it, in order. The handle can be
/// reached by no other way than these operations, so nothing is asked of it that
/// the list does not show, and nothing at all once it is given up.
pub struct Authority<H: GroupSignal> {
    handle: Option<H>,
    calls: Ghost<Seq<i32>>,
}

impl<H: GroupSignal> Authority<H> {
    /// The handle, while there is one.
    pub closed spec fn held(&self) -> Option<H> {
        self.handle
    }

    /// The signals that the handle was asked for.
    pub closed spec fn calls(&self) -> Seq<i32> {
        self.calls@
    }

    /// Takes a handle over before anything was asked of it, or stands for one
    /// that there is not.
    pub fn new(handle: Option<H>) -> (r: Self)
        ensures
            r.held() == handle,
            r.calls() == Seq::<i32>::empty(),
    {
        Authority { handle, calls: Ghost(Seq::empty()) }
    }

    /// Asks the handle for one signal.
    pub fn signal(&mut self, signal: i32) -> (r: Result<bool, String>)
        requires
            old(self).held() is Some,
        ensures
            final(self).held() == old(self).held(),
            final(self).calls() == old(self).calls().push(signal),
            call_ensures(H::signal, (&old(self).held()->0, signal), r),
    {
        let handle = self.handle.as_ref().unwrap();
        let answer = handle.signal(signal);
        self.calls = Ghost(self.calls@.push(signal));
        answer
    }

    /// Gives the handle up.
    pub fn retire(&mut self)
        ensures
            final(self).held() is None,
            final(self).calls() == old(self).calls(),
    {
        self.handle = None;
    }
}

/// The polite termination signal.
pub const SIGTERM: i32 = 15;

/// The signal that cannot be handled.
pub const SIGKILL: i32 = 9;

/// A handle is asked for exactly what was wanted of it, in order, and for nothing
/// once it is given up.
pub proof fn authorities_ask_what_is_wanted<H: GroupSignal>(
    authority: &mut Authority<H>,
    retired: &mut Authority<H>,
    handle: H,
    start: Authority<H>,
    signal: i32,
    r: Result<bool, String>,
)
    requires
        call_ensures(Authority::<H>::new, (Some(handle),), start),
        *old(authority) == start,
        call_ensures(Authority::<H>::signal, (authority, signal), r),
        *old(retired) == *final(authority),
        call_ensures(Authority::<H>::retire, (retired,), ()),
    ensures
        start.held() == Some(handle),
        start.calls().len() == 0,
        final(authority).held() == Some(handle),
        final(authority).calls() == seq![signal],
        call_ensures(H::signal, (&handle, signal), r),
        final(retired).held() is None,
        final(retired).calls() == seq![signal],
{
    assert(start.calls().push(signal) =~= seq![signal]);
}

} // verus!
