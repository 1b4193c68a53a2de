//! The isolate lifecycle state machine.
use vstd::prelude::*;

verus! {

/// Isolate state for lifecycle tracking.
#[derive(Debug, Clone, Copy, PartialEq, Eq, Structural)]
pub enum IsolateState {
    /// Isolate is being created
    Creating,
    /// Isolate is ready for use
    Ready,
    /// Isolate is currently executing a request
    Executing,
    /// Isolate is being reset/recycled
    Resetting,
    /// Isolate has been terminated
    Terminated,
}

/// The lifecycle transitions an isolate may take: Creating to Ready or
/// Terminated; Ready to Executing or Terminated; Executing to Ready,
/// Resetting or Terminated; Resetting to Ready. Terminated is final.
pub open spec fn valid_transition(from: IsolateState, to: IsolateState) -> bool {
    match (from, to) {
        (IsolateState::Creating, IsolateState::Ready) => true,
        (IsolateState::Creating, IsolateState::Terminated) => true,
        (IsolateState::Ready, IsolateState::Executing) => true,
        (IsolateState::Ready, IsolateState::Terminated) => true,
        (IsolateState::Executing, IsolateState::Ready) => true,
        (IsolateState::Executing, IsolateState::Resetting) => true,
        (IsolateState::Executing, IsolateState::Terminated) => true,
        (IsolateState::Resetting, IsolateState::Ready) => true,
        _ => false,
    }
}

impl IsolateState {
    /// The state's name.
    pub fn to_string(&self) -> (r: String)
        ensures
            r@ == match self {
                IsolateState::Creating => "Creating"@,
                IsolateState::Ready => "Ready"@,
                IsolateState::Executing => "Executing"@,
                IsolateState::Resetting => "Resetting"@,
                IsolateState::Terminated => "Terminated"@,
            },
    {
        match self {
            IsolateState::Creating => "Creating".to_owned(),
            IsolateState::Ready => "Ready".to_owned(),
            IsolateState::Executing => "Executing".to_owned(),
            IsolateState::Resetting => "Resetting".to_owned(),
            IsolateState::Terminated => "Terminated".to_owned(),
        }
    }

    /// Whether moving from this state to `to` is a valid lifecycle step
    /// (see `valid_transition`).
    pub fn can_transition_to(&self, to: IsolateState) -> (r: bool)
        ensures
            r == valid_transition(*self, to),
    {
        match (*self, to) {
            (IsolateState::Creating, IsolateState::Ready) => true,
            (IsolateState::Creating, IsolateState::Terminated) => true,
            (IsolateState::Ready, IsolateState::Executing) => true,
            (IsolateState::Ready, IsolateState::Terminated) => true,
            (IsolateState::Executing, IsolateState::Ready) => true,
            (IsolateState::Executing, IsolateState::Resetting) => true,
            (IsolateState::Executing, IsolateState::Terminated) => true,
            (IsolateState::Resetting, IsolateState::Ready) => true,
            _ => false,
        }
    }

    /// Move to `new_state`, which must be a valid step from this state.
    pub fn set_state(&mut self, new_state: IsolateState)
        requires
            valid_transition(*old(self), new_state),
        ensures
            *final(self) == new_state,
    {
        *self = new_state;
    }
}

/// Terminated is final: no transition leaves it, and every other state can
/// reach it in one step except Resetting, which passes through Ready.
pub proof fn law_terminated_is_final(to: IsolateState, s: IsolateState)
    ensures
        !valid_transition(IsolateState::Terminated, to),
        s != IsolateState::Terminated && s != IsolateState::Resetting ==> valid_transition(
            s,
            IsolateState::Terminated,
        ),
        valid_transition(IsolateState::Resetting, IsolateState::Ready),
{
}

/// The request cycle is open: a created isolate becomes ready, a ready one
/// may start executing a request, and an executing one returns to ready or
/// is reset, a reset one becoming ready again. These, and termination from
/// any state but Resetting and Terminated, are the only lifecycle steps.
pub proof fn law_request_cycle(from: IsolateState, to: IsolateState)
    ensures
        valid_transition(IsolateState::Creating, IsolateState::Ready),
        valid_transition(IsolateState::Ready, IsolateState::Executing),
        valid_transition(IsolateState::Executing, IsolateState::Ready),
        valid_transition(IsolateState::Executing, IsolateState::Resetting),
        valid_transition(IsolateState::Resetting, IsolateState::Ready),
        valid_transition(from, to) <==> {
            ||| from == IsolateState::Creating && (to == IsolateState::Ready || to == IsolateState::Terminated)
            ||| from == IsolateState::Ready && (to == IsolateState::Executing || to == IsolateState::Terminated)
            ||| from == IsolateState::Executing && (to == IsolateState::Ready || to == IsolateState::Resetting
                || to == IsolateState::Terminated)
            ||| from == IsolateState::Resetting && to == IsolateState::Ready
        },
{
}

/// The heap-limit bookkeeping of an isolate: the configured limit and
/// whether the near-heap-limit callback (of which the engine allows one per
/// isolate) has been registered.
#[derive(Debug, Clone, Copy, PartialEq, Eq)]
pub struct HeapLimits {
    heap_limit_bytes: u32,
    callback_registered: bool,
}

impl HeapLimits {
    /// The configured limit in bytes.
    pub closed spec fn spec_limit(&self) -> u32 {
        self.heap_limit_bytes
    }

    /// Whether the callback has been registered.
    pub closed spec fn spec_registered(&self) -> bool {
        self.callback_registered
    }

    /// The bookkeeping of an isolate made with a limit (0 for none).
    pub fn with_limit(heap_limit_bytes: u32) -> (r: Self)
        ensures
            r.spec_limit() == heap_limit_bytes,
            !r.spec_registered(),
    {
        HeapLimits { heap_limit_bytes, callback_registered: false }
    }

    /// The configured limit in bytes.
    pub fn heap_limit_bytes(&self) -> (r: u32)
        ensures
            r == self.spec_limit(),
    {
        self.heap_limit_bytes
    }

    /// Whether the near-heap-limit callback has been registered.
    pub fn callback_registered(&self) -> (r: bool)
        ensures
            r == self.spec_registered(),
    {
        self.callback_registered
    }

    /// Set the heap limits: a zero maximum changes nothing; otherwise the
    /// maximum (truncated to 32 bits) becomes the limit, whatever the minimum.
    /// Returns whether the caller must register the near-heap-limit callback
    /// now: on the first effective call only.
    pub fn set_heap_limits(&mut self, min_bytes: usize, max_bytes: usize) -> (register: bool)
        ensures
            max_bytes == 0 ==> *final(self) == *old(self) && !register,
            max_bytes != 0 ==> final(self).spec_limit() == max_bytes as u32 && final(self).spec_registered()
                && register == !old(self).spec_registered(),
    {
        if max_bytes == 0 {
            return false;
        }
        self.heap_limit_bytes = #[verifier::truncate] (max_bytes as u32);
        if self.callback_registered {
            return false;
        }
        self.callback_registered = true;
        true
    }
}

} // verus!
