//! Model registry state.
//!
//! A node can host models that back the agents it provides.  The registry
//! tracks each model's lifecycle state by name; the loading and inference
//! machinery itself stays outside the library.

use crate::runtime::RuntimeError;
use vstd::prelude::*;

verus! {

/// A unique identifier for a model in the system.
#[derive(Debug, PartialEq, Eq, Hash)]
pub struct ModelId(pub String);

impl Clone for ModelId {
    fn clone(&self) -> (r: Self)
        ensures
            r == *self,
    {
        ModelId(self.0.clone())
    }
}

/// The lifecycle state of a model.
#[derive(Debug, PartialEq, Eq)]
pub enum ModelState {
    /// Registered but not loaded.
    Registered,
    /// Currently loading into memory.
    Loading,
    /// Loaded and ready for inference.
    Ready,
    /// Failed to load.
    Failed { error: String },
}

impl Clone for ModelState {
    fn clone(&self) -> (r: Self)
        ensures
            r == *self,
    {
        match self {
            ModelState::Registered => ModelState::Registered,
            ModelState::Loading => ModelState::Loading,
            ModelState::Ready => ModelState::Ready,
            ModelState::Failed { error } => ModelState::Failed { error: error.clone() },
        }
    }
}

/// The state of a submitted blockchain transaction.
#[derive(Debug, Clone, PartialEq, Eq)]
pub enum TransactionState {
    Pending,
    Submitted,
    /// Confirmed, with the block number it landed in.
    Confirmed(u64),
    /// Failed, with the error message.
    Failed(String),
    Unknown,
}

impl TransactionState {
    /// A short description of the state.
    pub fn describe(&self) -> (r: &'static str)
        ensures
            match self {
                TransactionState::Pending => r@ == "Pending"@,
                TransactionState::Submitted => r@ == "Submitted"@,
                TransactionState::Confirmed(_) => r@ == "Confirmed"@,
                TransactionState::Failed(_) => r@ == "Failed"@,
                TransactionState::Unknown => r@ == "Unknown"@,
            },
    {
        match self {
            TransactionState::Pending => "Pending",
            TransactionState::Submitted => "Submitted",
            TransactionState::Confirmed(_) => "Confirmed",
            TransactionState::Failed(_) => "Failed",
            TransactionState::Unknown => "Unknown",
        }
    }
}

/// Statistics for a registered model.
#[derive(Debug, Clone, Copy, PartialEq, Eq, Structural)]
pub struct ModelStats {
    /// Approximate memory usage in bytes.
    pub memory_usage: usize,
    /// Number of inferences performed.
    pub inference_count: u64,
}

/// A registry of models and their lifecycle states, keyed by name.
pub struct ModelRegistry {
    models: Vec<(ModelId, ModelState)>,
}

impl ModelRegistry {
    /// No model name is held twice.
    pub closed spec fn wf(&self) -> bool {
        forall|i: int, j: int|
            0 <= i < j < self.models@.len() ==> (#[trigger] self.models@[i]).0.0@ != (
            #[trigger] self.models@[j]).0.0@
    }

    /// Whether a model of that name is registered.
    pub closed spec fn has_model(&self, name: Seq<char>) -> bool {
        exists|i: int| 0 <= i < self.models@.len() && (#[trigger] self.models@[i]).0.0@ == name
    }

    /// How many models are registered.
    pub closed spec fn spec_len(&self) -> nat {
        self.models@.len()
    }

    /// The name recorded at position `i`, registration order.
    pub closed spec fn name_at(&self, i: int) -> Seq<char> {
        self.models@[i].0.0@
    }

    /// The state recorded at position `i`, registration order.
    pub closed spec fn state_at(&self, i: int) -> ModelState {
        self.models@[i].1
    }

    /// An empty registry.
    pub fn new() -> (r: ModelRegistry)
        ensures
            r.wf(),
            r.spec_len() == 0,
            forall|n: Seq<char>| !r.has_model(n),
    {
        ModelRegistry { models: Vec::new() }
    }

    /// The position of the entry named by `id`, if one is held.
    fn find(&self, id: &ModelId) -> (r: Option<usize>)
        ensures
            match r {
                Some(i) => i < self.spec_len() && self.name_at(i as int) == id.0@
                    && self.has_model(id.0@),
                None => !self.has_model(id.0@),
            },
    {
        let n = self.models.len();
        let mut i: usize = 0;
        while i < n
            invariant
                0 <= i <= n,
                n == self.models@.len(),
                forall|j: int| 0 <= j < i ==> (#[trigger] self.models@[j]).0.0@ != id.0@,
            decreases n - i,
        {
            if self.models[i].0.0.eq(&id.0) {
                proof {
                    assert((self.models@[i as int]).0.0@ == id.0@);
                }
                return Some(i);
            }
            i = i + 1;
        }
        None
    }

    /// Whether a model of that name is registered.
    pub fn contains(&self, id: &ModelId) -> (r: bool)
        ensures
            r == self.has_model(id.0@),
    {
        match self.find(id) {
            Some(_) => true,
            None => false,
        }
    }

    /// How many models are registered.
    pub fn len(&self) -> (n: usize)
        ensures
            n == self.spec_len(),
    {
        self.models.len()
    }

    /// Register a model under its name.  Afterwards exactly one entry holds
    /// the name, in the registered state: re-adding a name that is already
    /// present resets that entry to registered and touches nothing else,
    /// while a new name is appended.  Always succeeds.
    pub fn add_model(&mut self, id: ModelId) -> (r: Result<(), RuntimeError>)
        requires
            old(self).wf(),
        ensures
            final(self).wf(),
            r is Ok,
            forall|n: Seq<char>|
                #[trigger] final(self).has_model(n) <==> (old(self).has_model(n) || n == id.0@),
            final(self).spec_len() == if old(self).has_model(id.0@) {
                old(self).spec_len()
            } else {
                old(self).spec_len() + 1
            },
            forall|i: int|
                0 <= i < old(self).spec_len() ==> #[trigger] final(self).name_at(i) == old(
                    self,
                ).name_at(i),
            forall|i: int|
                0 <= i < old(self).spec_len() && old(self).name_at(i) != id.0@
                    ==> #[trigger] final(self).state_at(i) == old(self).state_at(i),
            forall|i: int|
                0 <= i < final(self).spec_len() && #[trigger] final(self).name_at(i) == id.0@
                    ==> final(self).state_at(i) == ModelState::Registered,
            !old(self).has_model(id.0@) ==> final(self).name_at(old(self).spec_len() as int)
                == id.0@,
    {
        let ghost pre = self.models@;
        let ghost name = id.0@;
        match self.find(&id) {
            Some(at) => {
                self.models[at] = (id, ModelState::Registered);
                proof {
                    let idx = at as int;
                    assert(self.models@ =~= pre.update(idx, self.models@[idx]));
                    assert(self.models@[idx].0.0@ == name && pre[idx].0.0@ == name);
                    assert forall|j: int|
                        0 <= j < pre.len() implies #[trigger] self.models@[j].0.0@
                        == pre[j].0.0@ by {}
                    assert forall|a: int, b: int|
                        0 <= a < b < self.models@.len() implies (#[trigger] self.models@[a]).0.0@
                        != (#[trigger] self.models@[b]).0.0@ by {
                        assert(pre[a].0.0@ != pre[b].0.0@);
                    }
                    assert forall|n: Seq<char>| #[trigger]
                        self.has_model(n) <==> (old(self).has_model(n) || n == name) by {
                        if self.has_model(n) {
                            let i = choose|i: int|
                                0 <= i < self.models@.len() && (#[trigger] self.models@[i]).0.0@
                                    == n;
                            assert(pre[i].0.0@ == n);
                        }
                        if old(self).has_model(n) {
                            let i = choose|i: int|
                                0 <= i < pre.len() && (#[trigger] pre[i]).0.0@ == n;
                            assert(self.models@[i].0.0@ == n);
                        }
                        if n == name {
                            assert(self.models@[idx].0.0@ == n);
                        }
                    }
                    assert forall|i: int|
                        0 <= i < self.models@.len() && #[trigger] self.name_at(i)
                            == name implies self.state_at(i) == ModelState::Registered by {
                        if i != idx {
                            assert(pre[i].0.0@ == name && pre[idx].0.0@ == name);
                        }
                    }
                }
            },
            None => {
                self.models.push((id, ModelState::Registered));
                proof {
                    assert(self.models@.drop_last() =~= pre);
                    assert(self.models@.last().0.0@ == name);
                    assert forall|n: Seq<char>| #[trigger]
                        self.has_model(n) <==> (old(self).has_model(n) || n == name) by {
                        if self.has_model(n) {
                            let i = choose|i: int|
                                0 <= i < self.models@.len() && (#[trigger] self.models@[i]).0.0@
                                    == n;
                            if i < pre.len() {
                                assert(pre[i].0.0@ == n);
                            }
                        }
                        if old(self).has_model(n) {
                            let i = choose|i: int|
                                0 <= i < pre.len() && (#[trigger] pre[i]).0.0@ == n;
                            assert(self.models@[i].0.0@ == n);
                        }
                        if n == name {
                            assert(self.models@[self.models@.len() - 1].0.0@ == n);
                        }
                    }
                    assert forall|i: int|
                        0 <= i < self.models@.len() && #[trigger] self.name_at(i)
                            == name implies self.state_at(i) == ModelState::Registered by {
                        if i < pre.len() {
                            assert(pre[i].0.0@ == name);
                            assert(old(self).has_model(name));
                        }
                    }
                }
            },
        }
        Ok(())
    }

    /// Statistics for the named model: present exactly when the model is
    /// registered — the state type's memory footprint and a zero inference
    /// count — an error otherwise.
    pub fn get_model_stats(&self, id: &ModelId) -> (r: Result<ModelStats, RuntimeError>)
        ensures
            match r {
                Ok(s) => self.has_model(id.0@) && s == (ModelStats {
                    memory_usage: core::mem::size_of::<ModelState>(),
                    inference_count: 0,
                }),
                Err(e) => !self.has_model(id.0@) && e matches RuntimeError::Model(_),
            },
    {
        if self.contains(id) {
            Ok(
                ModelStats {
                    memory_usage: core::mem::size_of::<ModelState>(),
                    inference_count: 0,
                },
            )
        } else {
            Err(RuntimeError::Model("model not found".to_owned()))
        }
    }

    /// The states of all registered models, in registration order.
    pub fn model_states(&self) -> (r: Vec<ModelState>)
        ensures
            r@.len() == self.spec_len(),
            forall|j: int| 0 <= j < r@.len() ==> #[trigger] r@[j] == self.state_at(j),
    {
        let n = self.models.len();
        let mut r: Vec<ModelState> = Vec::new();
        let mut i: usize = 0;
        while i < n
            invariant
                0 <= i <= n,
                n == self.models@.len(),
                r@.len() == i,
                forall|j: int| 0 <= j < i ==> #[trigger] r@[j] == self.models@[j].1,
            decreases n - i,
        {
            r.push(self.models[i].1.clone());
            i = i + 1;
        }
        r
    }
}

} // verus!
