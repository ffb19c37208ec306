//! The runtime bootstrapper, split into what can be decided ahead of the
//! outside calls and a state machine that sequences them.
//!
//! The hosting component is loaded and driven by an unverified shell; the
//! shell extracts a `BootPlan` here, performs one outside step per phase,
//! and reports each step's outcome back through `boot_step`.  The machine
//! fixes the order of the steps and makes the first failure final, so no
//! later step is ever attempted after an earlier one failed and the first
//! error is the one surfaced.

use vstd::prelude::*;

use crate::config::{
    pair_views, spec_env_vars, spec_first_dotnetroot, spec_first_hostfxr, spec_first_vulkan,
    ConfigError, ConfigModel, LoadConfig,
};

verus! {

// ---------------------------------------------------------------------------
// The plan
// ---------------------------------------------------------------------------
/// Everything the hosting shell needs, extracted from the descriptor:
/// the environment variables in file order, the optional overrides (first
/// occurrence wins), and the four identifiers, taken verbatim.
pub struct BootPlan {
    pub env_vars: Vec<(String, String)>,
    pub hostfxr_override: Option<String>,
    pub dotnet_root: Option<String>,
    pub runtime_config: String,
    pub entry_assembly: String,
    pub entry_type: String,
    pub entry_method: String,
}

/// A plan agrees with a descriptor: each field is the corresponding
/// extraction from the descriptor's parameters.
pub open spec fn spec_plan_matches(p: BootPlan, c: ConfigModel) -> bool {
    &&& pair_views(p.env_vars@) == spec_env_vars(c.params)
    &&& (match p.hostfxr_override {
        Some(s) => spec_first_hostfxr(c.params) == Some(s@),
        None => spec_first_hostfxr(c.params) is None,
    })
    &&& (match p.dotnet_root {
        Some(s) => spec_first_dotnetroot(c.params) == Some(s@),
        None => spec_first_dotnetroot(c.params) is None,
    })
    &&& p.runtime_config@ == c.runtime_config
    &&& p.entry_assembly@ == c.entry_assembly
    &&& p.entry_type@ == c.entry_type
    &&& p.entry_method@ == c.entry_method
}

/// Extract the bootstrap plan from a descriptor.
pub fn make_boot_plan(config: &LoadConfig) -> (p: BootPlan)
    ensures
        spec_plan_matches(p, config@),
{
    BootPlan {
        env_vars: config.environment_variables(),
        hostfxr_override: config.hostfxr_path(),
        dotnet_root: config.dotnetroot_path(),
        runtime_config: config.runtime_config.clone(),
        entry_assembly: config.entry_assembly.clone(),
        entry_type: config.entry_type.clone(),
        entry_method: config.entry_method.clone(),
    }
}

// ---------------------------------------------------------------------------
// The state machine
// ---------------------------------------------------------------------------
/// A failure of the hosting steps, per the loader's error taxonomy.
#[derive(Debug, Clone, Copy, PartialEq, Eq, Structural)]
pub enum BootError {
    /// The hosting component or the managed assembly could not be loaded
    /// or initialized.
    HostingLoadFailure,
    /// The entry delegate could not be resolved.
    EntryResolutionFailure,
}

/// The phases of the single-shot bootstrap, in the order they run.
#[derive(Debug, Clone, Copy, PartialEq, Eq, Structural)]
pub enum BootPhase {
    /// Applying every environment-variable parameter to the process.
    ApplyingEnvironment,
    /// Loading the hosting component, from the override path if the plan
    /// has one, else from the platform default location.
    LoadingHost,
    /// Initializing it with the hosting-config path, passing the runtime
    /// root override if the plan has one.
    InitializingRuntime,
    /// Obtaining the delegate loader for the entry assembly.
    ResolvingLoader,
    /// Obtaining the entry delegate for the type and method names.
    ResolvingEntryPoint,
    /// Invoking the delegate with the argument buffer.
    Invoking,
    /// The delegate returned this code.
    Completed(i32),
    /// An earlier step failed; nothing further is attempted.
    Failed(BootError),
}

/// What the shell reports after performing the outside work of a phase.
#[derive(Debug, Clone, Copy, PartialEq, Eq, Structural)]
pub enum BootEvent {
    EnvironmentApplied,
    HostLoaded,
    HostLoadFailed,
    RuntimeInitialized,
    RuntimeInitFailed,
    LoaderResolved,
    LoaderResolutionFailed,
    EntryResolved,
    EntryResolutionFailed,
    Invoked(i32),
}

/// The transition relation: each phase consumes its own events, the first
/// failure is final, completion is final, and an event that does not
/// belong to the current phase changes nothing.
pub open spec fn spec_boot_step(phase: BootPhase, event: BootEvent) -> BootPhase {
    match (phase, event) {
        (BootPhase::ApplyingEnvironment, BootEvent::EnvironmentApplied) => BootPhase::LoadingHost,
        (BootPhase::LoadingHost, BootEvent::HostLoaded) => BootPhase::InitializingRuntime,
        (BootPhase::LoadingHost, BootEvent::HostLoadFailed) => BootPhase::Failed(
            BootError::HostingLoadFailure,
        ),
        (BootPhase::InitializingRuntime, BootEvent::RuntimeInitialized) => BootPhase::ResolvingLoader,
        (BootPhase::InitializingRuntime, BootEvent::RuntimeInitFailed) => BootPhase::Failed(
            BootError::HostingLoadFailure,
        ),
        (BootPhase::ResolvingLoader, BootEvent::LoaderResolved) => BootPhase::ResolvingEntryPoint,
        (BootPhase::ResolvingLoader, BootEvent::LoaderResolutionFailed) => BootPhase::Failed(
            BootError::HostingLoadFailure,
        ),
        (BootPhase::ResolvingEntryPoint, BootEvent::EntryResolved) => BootPhase::Invoking,
        (BootPhase::ResolvingEntryPoint, BootEvent::EntryResolutionFailed) => BootPhase::Failed(
            BootError::EntryResolutionFailure,
        ),
        (BootPhase::Invoking, BootEvent::Invoked(code)) => BootPhase::Completed(code),
        (p, _) => p,
    }
}

/// Advance the bootstrap by one reported outcome.
pub fn boot_step(phase: BootPhase, event: BootEvent) -> (next: BootPhase)
    ensures
        next == spec_boot_step(phase, event),
{
    match (phase, event) {
        (BootPhase::ApplyingEnvironment, BootEvent::EnvironmentApplied) => BootPhase::LoadingHost,
        (BootPhase::LoadingHost, BootEvent::HostLoaded) => BootPhase::InitializingRuntime,
        (BootPhase::LoadingHost, BootEvent::HostLoadFailed) => BootPhase::Failed(
            BootError::HostingLoadFailure,
        ),
        (BootPhase::InitializingRuntime, BootEvent::RuntimeInitialized) => BootPhase::ResolvingLoader,
        (BootPhase::InitializingRuntime, BootEvent::RuntimeInitFailed) => BootPhase::Failed(
            BootError::HostingLoadFailure,
        ),
        (BootPhase::ResolvingLoader, BootEvent::LoaderResolved) => BootPhase::ResolvingEntryPoint,
        (BootPhase::ResolvingLoader, BootEvent::LoaderResolutionFailed) => BootPhase::Failed(
            BootError::HostingLoadFailure,
        ),
        (BootPhase::ResolvingEntryPoint, BootEvent::EntryResolved) => BootPhase::Invoking,
        (BootPhase::ResolvingEntryPoint, BootEvent::EntryResolutionFailed) => BootPhase::Failed(
            BootError::EntryResolutionFailure,
        ),
        (BootPhase::Invoking, BootEvent::Invoked(code)) => BootPhase::Completed(code),
        (p, _) => p,
    }
}

/// The phase after a run of reported outcomes.
pub open spec fn spec_boot_run(phase: BootPhase, events: Seq<BootEvent>) -> BootPhase
    decreases events.len(),
{
    if events.len() == 0 {
        phase
    } else {
        spec_boot_run(spec_boot_step(phase, events[0]), events.drop_first())
    }
}

/// The first failure is final: once a step has failed, no run of further
/// outcomes attempts anything, and the surfaced error stays the first one.
pub proof fn lemma_first_failure_is_final(e: BootError, events: Seq<BootEvent>)
    ensures
        spec_boot_run(BootPhase::Failed(e), events) == BootPhase::Failed(e),
    decreases events.len(),
{
    if events.len() > 0 {
        lemma_first_failure_is_final(e, events.drop_first());
    }
}

/// Completion is final: there is no retry and no second invocation.
pub proof fn lemma_completion_is_final(code: i32, events: Seq<BootEvent>)
    ensures
        spec_boot_run(BootPhase::Completed(code), events) == BootPhase::Completed(code),
    decreases events.len(),
{
    if events.len() > 0 {
        lemma_completion_is_final(code, events.drop_first());
    }
}

/// When every step succeeds, the bootstrap runs its phases in order and
/// ends with the entry delegate's return code.
pub proof fn lemma_success_path(code: i32)
    ensures
        spec_boot_step(
            spec_boot_step(
                spec_boot_step(
                    spec_boot_step(
                        spec_boot_step(
                            spec_boot_step(
                                BootPhase::ApplyingEnvironment,
                                BootEvent::EnvironmentApplied,
                            ),
                            BootEvent::HostLoaded,
                        ),
                        BootEvent::RuntimeInitialized,
                    ),
                    BootEvent::LoaderResolved,
                ),
                BootEvent::EntryResolved,
            ),
            BootEvent::Invoked(code),
        ) == BootPhase::Completed(code),
{
}

// ---------------------------------------------------------------------------
// The worker decision
// ---------------------------------------------------------------------------
/// What the detached worker does once the configuration discovery has
/// reported.
pub enum WorkerAction {
    /// Log the configuration failure and end the worker; the hook's
    /// caller never observes it.
    ReportConfigError(ConfigError),
    /// The graphics-layer environment gate is on and the configuration
    /// carries graphics-layer parameters: the generic path stands down
    /// and leaves the bootstrap to the layer.
    DeferToGraphicsLayer,
    /// Bootstrap the runtime with this plan.
    Bootstrap(BootPlan),
}

/// The decision of the attach-hook and start-hook workers.
pub fn plan_worker(config_result: Result<LoadConfig, ConfigError>, graphics_env_enabled: bool) -> (r:
    WorkerAction)
    ensures
        config_result matches Err(e) ==> (r matches WorkerAction::ReportConfigError(e2) && e2@
            == e@),
        config_result matches Ok(c) ==> ((graphics_env_enabled && spec_first_vulkan(c@.params)
            is Some) ==> r is DeferToGraphicsLayer),
        config_result matches Ok(c) ==> (!(graphics_env_enabled && spec_first_vulkan(c@.params)
            is Some) ==> (r matches WorkerAction::Bootstrap(p) && spec_plan_matches(p, c@))),
{
    match config_result {
        Err(e) => WorkerAction::ReportConfigError(e),
        Ok(config) => {
            if graphics_env_enabled && config.vulkan().is_some() {
                WorkerAction::DeferToGraphicsLayer
            } else {
                WorkerAction::Bootstrap(make_boot_plan(&config))
            }
        }
    }
}

} // verus!
