//! Runtime lifecycle state and metrics.
//!
//! The runtime that hosts models alongside the node moves through a small
//! lifecycle, and every operation it accepts is guarded by that lifecycle.
//! The guards and transitions are held here over plain state; the background
//! tasks they put in motion stay outside the library.

use crate::model::ModelState;
use vstd::prelude::*;

verus! {

/// Errors the runtime's components surface.
#[derive(Debug, PartialEq, Eq)]
pub enum RuntimeError {
    /// A model operation failed.
    Model(String),
    /// A blockchain operation failed.
    Blockchain(String),
    /// A data operation failed.
    Data(String),
    /// The runtime itself refused the operation.
    System(String),
}

impl RuntimeError {
    /// A short description of the error's component.
    pub fn describe(&self) -> (r: &'static str)
        ensures
            match self {
                RuntimeError::Model(_) => r@ == "model error"@,
                RuntimeError::Blockchain(_) => r@ == "blockchain error"@,
                RuntimeError::Data(_) => r@ == "data error"@,
                RuntimeError::System(_) => r@ == "system error"@,
            },
    {
        match self {
            RuntimeError::Model(_) => "model error",
            RuntimeError::Blockchain(_) => "blockchain error",
            RuntimeError::Data(_) => "data error",
            RuntimeError::System(_) => "system error",
        }
    }
}

/// Event categories the runtime logs and broadcasts.
#[derive(Debug, Clone, Copy, PartialEq, Eq, Structural)]
pub enum EventType {
    ModelOperation,
    BlockchainOperation,
    DataOperation,
    SystemStatus,
}

/// The runtime's lifecycle.
#[derive(Debug, Clone, Copy, PartialEq, Eq, Structural)]
pub enum RuntimeState {
    Starting,
    Running,
    Stopping,
    Stopped,
}

/// Configuration of the runtime.
#[derive(Debug, Clone, Copy, PartialEq, Eq, Structural)]
pub struct RuntimeConfig {
    /// Maximum number of events kept in history.
    pub max_event_history: usize,
    /// System-wide operation timeout, milliseconds.
    pub operation_timeout_ms: u64,
    /// Number of worker threads for background tasks.
    pub worker_threads: usize,
}

/// A snapshot of the runtime for monitoring.
#[derive(Debug, Clone, Copy, PartialEq, Eq, Structural)]
pub struct RuntimeMetrics {
    /// The lifecycle state at the time of the snapshot.
    pub state: RuntimeState,
    /// How many models are loaded and ready.
    pub active_models: usize,
    /// Approximate memory usage, bytes.
    pub memory_usage: usize,
    /// Time since start, milliseconds.
    pub uptime_ms: u64,
}

/// Starting is allowed exactly from the stopped state and ends running.
pub fn start_transition(state: RuntimeState) -> (r: Result<RuntimeState, RuntimeError>)
    ensures
        state == RuntimeState::Stopped <==> (r matches Ok(s) && s == RuntimeState::Running),
        state != RuntimeState::Stopped <==> (r matches Err(e) && e matches RuntimeError::System(m)
            && m@ == "Runtime already running"@),
{
    if state == RuntimeState::Stopped {
        Ok(RuntimeState::Running)
    } else {
        Err(RuntimeError::System("Runtime already running".to_owned()))
    }
}

/// Stopping is allowed exactly from the running state and ends stopped.
pub fn stop_transition(state: RuntimeState) -> (r: Result<RuntimeState, RuntimeError>)
    ensures
        state == RuntimeState::Running <==> (r matches Ok(s) && s == RuntimeState::Stopped),
        state != RuntimeState::Running <==> (r matches Err(e) && e matches RuntimeError::System(m)
            && m@ == "Runtime not running"@),
{
    if state == RuntimeState::Running {
        Ok(RuntimeState::Stopped)
    } else {
        Err(RuntimeError::System("Runtime not running".to_owned()))
    }
}

/// Every operation the running system accepts is guarded by this check:
/// it succeeds exactly in the running state.
pub fn ensure_running(state: RuntimeState) -> (r: Result<(), RuntimeError>)
    ensures
        state == RuntimeState::Running <==> r is Ok,
        state != RuntimeState::Running <==> (r matches Err(e) && e matches RuntimeError::System(m)
            && m@ == "Runtime not running"@),
{
    if state == RuntimeState::Running {
        Ok(())
    } else {
        Err(RuntimeError::System("Runtime not running".to_owned()))
    }
}

/// How many of the states are ready.
pub open spec fn spec_count_ready(s: Seq<ModelState>) -> nat
    decreases s.len(),
{
    if s.len() == 0 {
        0
    } else {
        spec_count_ready(s.drop_last()) + (if s.last() == ModelState::Ready {
            1nat
        } else {
            0nat
        })
    }
}

/// Count the models that are loaded and ready for inference.
pub fn count_active_models(states: &Vec<ModelState>) -> (n: usize)
    ensures
        n == spec_count_ready(states@),
{
    let len = states.len();
    let mut n: usize = 0;
    let mut i: usize = 0;
    while i < len
        invariant
            0 <= i <= len,
            len == states@.len(),
            n == spec_count_ready(states@.subrange(0, i as int)),
            n <= i,
        decreases len - i,
    {
        let is_ready = match &states[i] {
            ModelState::Ready => true,
            _ => false,
        };
        proof {
            assert(states@.subrange(0, i + 1).drop_last() =~= states@.subrange(0, i as int));
            assert(states@.subrange(0, i + 1).last() == states@[i as int]);
        }
        if is_ready {
            n = n + 1;
        }
        i = i + 1;
    }
    proof {
        assert(states@.subrange(0, len as int) =~= states@);
    }
    n
}

} // verus!
