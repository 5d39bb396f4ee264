pub mod sub_state;

use std::rc::Rc;
use vstd::prelude::*;

use crate::value::Value;
pub use sub_state::SubState;
pub use sub_state::SubStateExt;

verus! {

/// The mathematical content of a [`State`]: the value stack and the
/// name-to-sub-state registry.
pub struct StateView<S> {
    /// The evaluation accumulator, oldest value first.
    pub stack: Seq<Value>,
    /// The sub-state registry, keyed by the name each sub-state reports.
    pub sub_states: Map<Seq<char>, S>,
}

/// The registry denoted by a sequence of insertions: a later entry for the
/// same name overwrites an earlier one.
pub open spec fn registry_map<S>(entries: Seq<(String, Rc<S>)>) -> Map<Seq<char>, S>
    decreases entries.len(),
{
    if entries.len() == 0 {
        Map::empty()
    } else {
        registry_map(entries.drop_last()).insert(entries.last().0@, *entries.last().1)
    }
}

/// The evaluation context: a value stack plus a registry of named,
/// independently typed sub-states that plugins may install to carry
/// cross-invocation data. Insertion under an existing name overwrites;
/// the last writer per name wins, with no collision detection.
pub struct State<S> {
    /// The evaluation accumulator, pushed to by each evaluated top-level
    /// node, poppable by expression plugins needing prior results.
    pub stack: Vec<Value>,
    /// The registered sub-states in insertion order; a later entry for a
    /// name shadows an earlier one.
    pub sub_states: Vec<(String, Rc<S>)>,
}

impl<S> View for State<S> {
    type V = StateView<S>;

    open spec fn view(&self) -> StateView<S> {
        StateView { stack: self.stack@, sub_states: registry_map(self.sub_states@) }
    }
}

proof fn lemma_registry_map_last_match<S>(entries: Seq<(String, Rc<S>)>, k: Seq<char>, i: int)
    requires
        0 <= i < entries.len(),
        entries[i].0@ == k,
        forall|j: int| i < j < entries.len() ==> entries[j].0@ != k,
    ensures
        registry_map(entries).contains_key(k),
        registry_map(entries)[k] == *entries[i].1,
    decreases entries.len(),
{
    if i == entries.len() - 1 {
    } else {
        lemma_registry_map_last_match(entries.drop_last(), k, i);
    }
}

proof fn lemma_registry_map_no_match<S>(entries: Seq<(String, Rc<S>)>, k: Seq<char>)
    requires
        forall|j: int| 0 <= j < entries.len() ==> entries[j].0@ != k,
    ensures
        !registry_map(entries).contains_key(k),
    decreases entries.len(),
{
    if entries.len() > 0 {
        lemma_registry_map_no_match(entries.drop_last(), k);
    }
}

impl<S: SubState> State<S> {
    /// A fresh context: empty stack, empty registry.
    pub fn new() -> (s: Self)
        ensures
            s@.stack == Seq::<Value>::empty(),
            s@.sub_states == Map::<Seq<char>, S>::empty(),
    {
        State { stack: Vec::new(), sub_states: Vec::new() }
    }

    /// Installs a sub-state under the key it reports, overwriting any
    /// previous entry of the same name.
    pub fn add_sub_state(&mut self, state: S)
        ensures
            final(self)@.stack == old(self)@.stack,
            final(self)@.sub_states == old(self)@.sub_states.insert(state.spec_name(), state),
    {
        let name = String::from_str(state.state_name());
        let ghost before = self.sub_states@;
        self.sub_states.push((name, Rc::new(state)));
        proof {
            assert(self.sub_states@.drop_last() =~= before);
        }
    }

    /// Returns a shared handle to the sub-state registered under the given
    /// name, or `None` if the name is absent.
    pub fn get_sub_state(&self, state_name: &str) -> (r: Option<Rc<S>>)
        ensures
            match r {
                Some(handle) => self@.sub_states.contains_key(state_name@) && *handle
                    == self@.sub_states[state_name@],
                None => !self@.sub_states.contains_key(state_name@),
            },
    {
        let key = String::from_str(state_name);
        let mut i = self.sub_states.len();
        while i > 0
            invariant
                i <= self.sub_states.len(),
                key@ == state_name@,
                forall|j: int| i <= j < self.sub_states@.len() ==> self.sub_states@[j].0@
                    != state_name@,
            decreases i,
        {
            i = i - 1;
            let entry = &self.sub_states[i];
            if entry.0 == key {
                proof {
                    lemma_registry_map_last_match(self.sub_states@, state_name@, i as int);
                }
                return Some(entry.1.clone());
            }
        }
        proof {
            lemma_registry_map_no_match(self.sub_states@, state_name@);
        }
        None
    }

    /// Deletes the entry under the given name; no error if it is absent.
    pub fn remove_sub_state(&mut self, state_name: &str)
        ensures
            final(self)@.stack == old(self)@.stack,
            final(self)@.sub_states == old(self)@.sub_states.remove(state_name@),
    {
        let key = String::from_str(state_name);
        let mut kept: Vec<(String, Rc<S>)> = Vec::new();
        let n = self.sub_states.len();
        let mut i: usize = 0;
        while i < n
            invariant
                i <= n,
                n == self.sub_states@.len(),
                key@ == state_name@,
                registry_map(kept@) == registry_map(self.sub_states@.subrange(0, i as int)).remove(
                    state_name@,
                ),
            decreases n - i,
        {
            let ghost prefix = self.sub_states@.subrange(0, i as int);
            let entry = &self.sub_states[i];
            proof {
                assert(prefix.push(self.sub_states@[i as int]).drop_last() =~= prefix);
                assert(prefix.push(self.sub_states@[i as int]).last() == self.sub_states@[
                    i as int
                ]);
            }
            if entry.0 != key {
                let ghost kept_before = kept@;
                kept.push((entry.0.clone(), entry.1.clone()));
                proof {
                    assert(kept@.drop_last() =~= kept_before);
                    assert(registry_map(kept@) == registry_map(kept_before).insert(
                        entry.0@,
                        *entry.1,
                    ));
                    assert(registry_map(prefix.push(self.sub_states@[i as int])) == registry_map(
                        prefix,
                    ).insert(entry.0@, *entry.1));
                    assert(registry_map(kept@) =~= registry_map(
                        prefix.push(self.sub_states@[i as int]),
                    ).remove(state_name@));
                }
            } else {
                proof {
                    assert(registry_map(prefix.push(self.sub_states@[i as int])) == registry_map(
                        prefix,
                    ).insert(state_name@, *entry.1));
                    assert(registry_map(kept@) =~= registry_map(
                        prefix.push(self.sub_states@[i as int]),
                    ).remove(state_name@));
                }
            }
            proof {
                assert(prefix.push(self.sub_states@[i as int]) =~= self.sub_states@.subrange(
                    0,
                    i as int + 1,
                ));
            }
            i = i + 1;
        }
        proof {
            assert(self.sub_states@.subrange(0, n as int) =~= self.sub_states@);
        }
        self.sub_states = kept;
    }

    /// Pushes a value onto the stack.
    pub fn push(&mut self, val: Value)
        ensures
            final(self)@.stack == old(self)@.stack.push(val),
            final(self)@.sub_states == old(self)@.sub_states,
    {
        self.stack.push(val);
    }

    /// Pops the most recently pushed value, or `None` when the stack is
    /// empty.
    pub fn pop(&mut self) -> (r: Option<Value>)
        ensures
            match r {
                Some(v) => old(self)@.stack.len() > 0 && v == old(self)@.stack.last()
                    && final(self)@.stack == old(self)@.stack.drop_last(),
                None => old(self)@.stack.len() == 0 && final(self)@.stack == old(self)@.stack,
            },
            final(self)@.sub_states == old(self)@.sub_states,
    {
        self.stack.pop()
    }
}

/// Law: installing a sub-state and then looking up the name it reports
/// returns exactly that sub-state, so its reported name matches the name
/// looked up; deleting a name and then looking it up finds nothing.
pub proof fn lemma_sub_state_registry<S: SubState>(subs: Map<Seq<char>, S>, state: S)
    ensures
        subs.insert(state.spec_name(), state).contains_key(state.spec_name()),
        subs.insert(state.spec_name(), state)[state.spec_name()] == state,
        !subs.remove(state.spec_name()).contains_key(state.spec_name()),
{
}

} // verus!
