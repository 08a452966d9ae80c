//! Instantiating a WASIX guest next to the bridge: which instances get a
//! session, and which memory the bridge imports work on.
//!
//! One [`GpuSession`] is created per instance in
//! [`GpuInstantiationHook::prepare_imports`]; the guest's memory (imported or
//! exported) is bound in [`GpuInstantiationHook::configure_new_instance`].
use crate::abi::uses_bridge;
use crate::host::HostEnv;
use crate::linking::{module_imports, module_uses_bridge};
use crate::session::{GpuSession, SessionLimits, SessionView};
use vstd::prelude::*;

verus! {

#[derive(Debug)]
pub struct GpuInstantiationHook {
    pub limits: SessionLimits,
}

/// Why an instance cannot be set up.
#[derive(Clone, Copy, Debug, PartialEq, Eq, Structural)]
pub enum HookError {
    /// The instance's imports were not prepared by this hook.
    MissingState,
    /// The guest has neither an imported nor an exported memory.
    NoMemory,
}

impl HookError {
    pub open spec fn spec_message(self) -> Seq<char> {
        match self {
            HookError::MissingState =>
                "missing wasmer-gpu instance state (imports were not prepared by this hook)"@,
            HookError::NoMemory =>
                "wasmer-gpu guest has neither an imported nor an exported memory"@,
        }
    }

    pub fn message(self) -> (text: &'static str)
        ensures
            text@ == self.spec_message(),
    {
        match self {
            HookError::MissingState =>
                "missing wasmer-gpu instance state (imports were not prepared by this hook)",
            HookError::NoMemory =>
                "wasmer-gpu guest has neither an imported nor an exported memory",
        }
    }
}

/// The memory to bind: an imported one before an exported one.
pub open spec fn memory_choice(
    imported: Option<wasmer::Memory>,
    exported: Option<wasmer::Memory>,
) -> Option<wasmer::Memory> {
    if imported is Some {
        imported
    } else {
        exported
    }
}

impl GpuInstantiationHook {
    /// A hook whose sessions all get these limits.
    pub fn new(limits: SessionLimits) -> (hook: GpuInstantiationHook)
        ensures
            hook.limits == limits,
    {
        GpuInstantiationHook { limits }
    }

    /// The environment of a new instance's bridge imports: a fresh session and
    /// no memory yet. A module that does not use the bridge gets none.
    pub fn prepare_imports(&self, module: &wasmer::Module) -> (state: Option<HostEnv>)
        ensures
            state is Some <==> uses_bridge(module_imports(*module)),
            state matches Some(env) ==> env.memory is None && env.session.wf() && env.session@
                == SessionView::fresh(self.limits),
    {
        if !module_uses_bridge(module) {
            return None;
        }
        Some(HostEnv { memory: None, session: GpuSession::new(self.limits) })
    }

    /// Binds the guest's memory once the instance exists. A module that does
    /// not use the bridge is left alone.
    pub fn configure_new_instance(
        &self,
        module: &wasmer::Module,
        imported_memory: Option<wasmer::Memory>,
        exported_memory: Option<wasmer::Memory>,
        state: &mut Option<HostEnv>,
    ) -> (bound: Result<(), HookError>)
        ensures
            bound == (if !uses_bridge(module_imports(*module)) {
                Ok::<(), HookError>(())
            } else if *old(state) is None {
                Err::<(), HookError>(HookError::MissingState)
            } else if memory_choice(imported_memory, exported_memory) is None {
                Err::<(), HookError>(HookError::NoMemory)
            } else {
                Ok::<(), HookError>(())
            }),
            *final(state) == (if uses_bridge(module_imports(*module)) && *old(state) is Some && memory_choice(
                imported_memory,
                exported_memory,
            ) is Some {
                Some(
                    HostEnv {
                        memory: memory_choice(imported_memory, exported_memory),
                        session: old(state)->0.session,
                    },
                )
            } else {
                *old(state)
            }),
    {
        if !module_uses_bridge(module) {
            return Ok(());
        }
        if state.is_none() {
            return Err(HookError::MissingState);
        }
        let memory = match imported_memory {
            Some(memory) => memory,
            None => match exported_memory {
                Some(memory) => memory,
                None => {
                    return Err(HookError::NoMemory);
                },
            },
        };
        match state.take() {
            Some(env) => {
                *state = Some(HostEnv { memory: Some(memory), session: env.session });
            },
            None => {},
        }
        Ok(())
    }
}

} // verus!
