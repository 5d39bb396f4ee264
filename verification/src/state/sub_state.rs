use std::rc::Rc;
use vstd::prelude::*;

verus! {

/// A named, independently typed object a plugin may store in the evaluation
/// context to persist data beyond a single parse/eval cycle. The name is the
/// registry key; a plugin is responsible for choosing a name that does not
/// collide with unrelated plugins.
pub trait SubState: Sized {
    /// The registry key this sub-state reports. The default says nothing
    /// useful; an implementation proved against the registry's contracts
    /// overrides it with the key `state_name` returns.
    open spec fn spec_name(&self) -> Seq<char> {
        Seq::empty()
    }

    /// The registry key this sub-state reports.
    fn state_name(&self) -> (s: &'static str)
        ensures
            s@ == self.spec_name(),
    ;
}

/// Shared-handle operations available on every sub-state.
pub trait SubStateExt: SubState {
    /// Views a shared handle as a plain sub-state handle.
    fn as_state(self: Rc<Self>) -> (r: Rc<Self>)
        ensures
            r == self,
    ;
}

impl<T: SubState> SubStateExt for T {
    fn as_state(self: Rc<Self>) -> (r: Rc<Self>) {
        self
    }
}

} // verus!
