use sabinokaku::bootstrap::{
    boot_step, make_boot_plan, plan_worker, BootError, BootEvent, BootPhase, WorkerAction,
};
use sabinokaku::config::{ConfigError, LoadConfig};
use sabinokaku::registry::{DeviceDispatchTable, InstanceDispatchTable};
use sabinokaku::vulkan::{
    find_layer_link, DeviceResolution, InstanceResolution, LayerLinkRecord, LayerState,
    NegotiationOutcome, VkLayerFunction, VkLayerNegotiateStructType,
    LAYER_NEGOTIATE_INTERFACE_STRUCT, STRUCTURE_TYPE_LOADER_DEVICE_CREATE_INFO,
    STRUCTURE_TYPE_LOADER_INSTANCE_CREATE_INFO, VK_LAYER_FUNCTION_DATA_CALLBACK,
    VK_LAYER_FUNCTION_LINK,
};

fn vulkan_config(trigger: &str) -> LoadConfig {
    let text = format!("kaku_s\nAssembly::T!M\nvulkan 2 {}", trigger);
    LoadConfig::try_parse("kaku.co", &text).unwrap()
}

fn plain_config() -> LoadConfig {
    LoadConfig::try_parse("kaku.co", "kaku_s\nAssembly::T!M").unwrap()
}

fn good_tag() -> VkLayerNegotiateStructType {
    VkLayerNegotiateStructType { value: LAYER_NEGOTIATE_INTERFACE_STRUCT }
}

#[test]
fn negotiation_succeeds_and_publishes_at_supported_version() {
    let mut state = LayerState::new();
    let outcome = state.negotiate(good_tag(), 2, false, Some(vulkan_config("CreateInstance")));
    assert_eq!(
        outcome,
        NegotiationOutcome::Accept { advertised_version: 2, publish_resolvers: true }
    );
}

#[test]
fn negotiation_succeeds_without_publishing_below_configured_version() {
    // The configuration asks for loader version 5; a loader offering only
    // version 3 still gets success, but no resolvers are published.
    let text = "kaku_s\nAssembly::T!M\nvulkan 5 CreateInstance";
    let config = LoadConfig::try_parse("kaku.co", text).unwrap();
    let mut state = LayerState::new();
    let outcome = state.negotiate(good_tag(), 3, false, Some(config));
    assert_eq!(
        outcome,
        NegotiationOutcome::Accept { advertised_version: 3, publish_resolvers: false }
    );
}

#[test]
fn negotiation_fails_on_wrong_struct_tag() {
    let mut state = LayerState::new();
    let tag = VkLayerNegotiateStructType { value: 99 };
    let outcome = state.negotiate(tag, 2, false, Some(vulkan_config("CreateInstance")));
    assert_eq!(outcome, NegotiationOutcome::Deny);
}

#[test]
fn negotiation_fails_when_environment_says_already_booted() {
    let mut state = LayerState::new();
    let outcome = state.negotiate(good_tag(), 2, true, Some(vulkan_config("CreateInstance")));
    assert_eq!(outcome, NegotiationOutcome::Deny);
}

#[test]
fn negotiation_fails_below_minimum_interface_version() {
    let mut state = LayerState::new();
    let outcome = state.negotiate(good_tag(), 1, false, Some(vulkan_config("CreateInstance")));
    assert_eq!(outcome, NegotiationOutcome::Deny);
}

#[test]
fn negotiation_fails_without_configuration() {
    let mut state = LayerState::new();
    assert_eq!(state.negotiate(good_tag(), 2, false, None), NegotiationOutcome::Deny);
}

#[test]
fn negotiation_fails_without_graphics_parameters() {
    let mut state = LayerState::new();
    let outcome = state.negotiate(good_tag(), 2, false, Some(plain_config()));
    assert_eq!(outcome, NegotiationOutcome::Deny);
}

#[test]
fn negotiation_fails_after_an_instance_was_created() {
    let mut state = LayerState::new();
    let config = vulkan_config("CreateInstance");
    assert!(matches!(
        state.negotiate(good_tag(), 2, false, Some(config.clone())),
        NegotiationOutcome::Accept { .. }
    ));
    let table = InstanceDispatchTable { get_instance_proc_addr: 1, destroy_instance: 2 };
    state.on_instance_created(0xAB, table);
    assert_eq!(state.negotiate(good_tag(), 2, false, Some(config)), NegotiationOutcome::Deny);
}

#[test]
fn first_instance_creation_triggers_the_bootstrap() {
    let mut state = LayerState::new();
    state.negotiate(good_tag(), 2, false, Some(vulkan_config("CreateInstance")));
    let table = InstanceDispatchTable { get_instance_proc_addr: 1, destroy_instance: 2 };
    let outcome = state.on_instance_created(0xAB, table);
    assert!(outcome.ok);
    assert_eq!(outcome.boot_args, Some(vec![0xAB]));
    // A second creation is not first any more.
    let outcome2 = state.on_instance_created(0xCD, table);
    assert!(outcome2.ok);
    assert_eq!(outcome2.boot_args, None);
}

#[test]
fn instance_creation_with_device_trigger_does_not_boot() {
    let mut state = LayerState::new();
    state.negotiate(good_tag(), 2, false, Some(vulkan_config("CreateDevice")));
    let table = InstanceDispatchTable { get_instance_proc_addr: 1, destroy_instance: 2 };
    let outcome = state.on_instance_created(0xAB, table);
    assert!(outcome.ok);
    assert_eq!(outcome.boot_args, None);
}

#[test]
fn creation_without_negotiated_config_reports_failure() {
    let mut state = LayerState::new();
    let table = InstanceDispatchTable { get_instance_proc_addr: 1, destroy_instance: 2 };
    let outcome = state.on_instance_created(0xAB, table);
    assert!(!outcome.ok);
    assert_eq!(outcome.boot_args, None);
}

#[test]
fn first_device_creation_passes_instance_and_device_handles() {
    let mut state = LayerState::new();
    state.negotiate(good_tag(), 2, false, Some(vulkan_config("CreateDevice")));
    let itable = InstanceDispatchTable { get_instance_proc_addr: 1, destroy_instance: 2 };
    state.on_instance_created(0x11, itable);
    let dtable = DeviceDispatchTable { get_device_proc_addr: 3, destroy_device: 4 };
    let outcome = state.on_device_created(0x22, dtable);
    assert!(outcome.ok);
    assert_eq!(outcome.boot_args, Some(vec![0x11, 0x22]));
    let outcome2 = state.on_device_created(0x33, dtable);
    assert_eq!(outcome2.boot_args, None);
}

#[test]
fn device_creation_without_any_instance_does_not_boot() {
    let mut state = LayerState::new();
    state.negotiate(good_tag(), 2, false, Some(vulkan_config("CreateDevice")));
    let dtable = DeviceDispatchTable { get_device_proc_addr: 3, destroy_device: 4 };
    let outcome = state.on_device_created(0x22, dtable);
    assert!(outcome.ok);
    assert_eq!(outcome.boot_args, None);
}

#[test]
fn destroy_returns_the_captured_teardown_then_forgets_the_handle() {
    let mut state = LayerState::new();
    let table = InstanceDispatchTable { get_instance_proc_addr: 1, destroy_instance: 2 };
    state.on_instance_created(0xAB, table);
    let removed = state.on_instance_destroyed(0xAB);
    assert_eq!(removed, Some(table));
    assert_eq!(state.on_instance_destroyed(0xAB), None);
    assert_eq!(state.resolve_instance(0xAB, "vkEnumeratePhysicalDevices"),
        InstanceResolution::Unknown);
}

#[test]
fn resolver_answers_own_names_directly() {
    let state = LayerState::new();
    assert_eq!(
        state.resolve_instance(0, "vkGetInstanceProcAddr"),
        InstanceResolution::GetInstanceProcAddr
    );
    assert_eq!(state.resolve_instance(0, "vkCreateInstance"), InstanceResolution::CreateInstance);
    assert_eq!(state.resolve_instance(0, "vkDestroyInstance"), InstanceResolution::DestroyInstance);
    assert_eq!(
        state.resolve_instance(0, "vkGetDeviceProcAddr"),
        InstanceResolution::GetDeviceProcAddr
    );
    assert_eq!(state.resolve_instance(0, "vkCreateDevice"), InstanceResolution::CreateDevice);
    assert_eq!(state.resolve_instance(0, "vkDestroyDevice"), InstanceResolution::DestroyDevice);
    assert_eq!(
        state.resolve_device(0, "vkGetDeviceProcAddr"),
        DeviceResolution::GetDeviceProcAddr
    );
    assert_eq!(state.resolve_device(0, "vkCreateDevice"), DeviceResolution::CreateDevice);
    assert_eq!(state.resolve_device(0, "vkDestroyDevice"), DeviceResolution::DestroyDevice);
}

#[test]
fn resolver_forwards_other_names_through_the_registry() {
    let mut state = LayerState::new();
    let itable = InstanceDispatchTable { get_instance_proc_addr: 0x77, destroy_instance: 0x88 };
    state.on_instance_created(5, itable);
    assert_eq!(
        state.resolve_instance(5, "vkEnumeratePhysicalDevices"),
        InstanceResolution::Forward(itable)
    );
    assert_eq!(
        state.resolve_instance(6, "vkEnumeratePhysicalDevices"),
        InstanceResolution::Unknown
    );
    let dtable = DeviceDispatchTable { get_device_proc_addr: 0x99, destroy_device: 0xAA };
    state.on_device_created(7, dtable);
    assert_eq!(state.resolve_device(7, "vkQueueSubmit"), DeviceResolution::Forward(dtable));
    assert_eq!(state.resolve_device(8, "vkQueueSubmit"), DeviceResolution::Unknown);
}

#[test]
fn chain_walk_finds_the_first_link_record() {
    let link = VkLayerFunction { value: VK_LAYER_FUNCTION_LINK };
    let data = VkLayerFunction { value: VK_LAYER_FUNCTION_DATA_CALLBACK };
    let records = vec![
        LayerLinkRecord { s_type: 1, function: link },
        LayerLinkRecord { s_type: STRUCTURE_TYPE_LOADER_INSTANCE_CREATE_INFO, function: data },
        LayerLinkRecord { s_type: STRUCTURE_TYPE_LOADER_INSTANCE_CREATE_INFO, function: link },
        LayerLinkRecord { s_type: STRUCTURE_TYPE_LOADER_INSTANCE_CREATE_INFO, function: link },
    ];
    assert_eq!(find_layer_link(&records, STRUCTURE_TYPE_LOADER_INSTANCE_CREATE_INFO), Some(2));
    assert_eq!(find_layer_link(&records, STRUCTURE_TYPE_LOADER_DEVICE_CREATE_INFO), None);
    assert_eq!(find_layer_link(&Vec::new(), STRUCTURE_TYPE_LOADER_DEVICE_CREATE_INFO), None);
}

#[test]
fn boot_machine_success_path_completes_with_the_entry_code() {
    let mut phase = BootPhase::ApplyingEnvironment;
    phase = boot_step(phase, BootEvent::EnvironmentApplied);
    assert_eq!(phase, BootPhase::LoadingHost);
    phase = boot_step(phase, BootEvent::HostLoaded);
    assert_eq!(phase, BootPhase::InitializingRuntime);
    phase = boot_step(phase, BootEvent::RuntimeInitialized);
    assert_eq!(phase, BootPhase::ResolvingLoader);
    phase = boot_step(phase, BootEvent::LoaderResolved);
    assert_eq!(phase, BootPhase::ResolvingEntryPoint);
    phase = boot_step(phase, BootEvent::EntryResolved);
    assert_eq!(phase, BootPhase::Invoking);
    phase = boot_step(phase, BootEvent::Invoked(42));
    assert_eq!(phase, BootPhase::Completed(42));
}

#[test]
fn boot_machine_surfaces_the_first_error_and_stays_failed() {
    let mut phase = BootPhase::ApplyingEnvironment;
    phase = boot_step(phase, BootEvent::EnvironmentApplied);
    phase = boot_step(phase, BootEvent::HostLoadFailed);
    assert_eq!(phase, BootPhase::Failed(BootError::HostingLoadFailure));
    // No later event makes progress or changes the surfaced error.
    phase = boot_step(phase, BootEvent::HostLoaded);
    phase = boot_step(phase, BootEvent::EntryResolutionFailed);
    phase = boot_step(phase, BootEvent::Invoked(0));
    assert_eq!(phase, BootPhase::Failed(BootError::HostingLoadFailure));
}

#[test]
fn boot_machine_maps_each_failure_to_its_taxonomy_error() {
    let init_failed = boot_step(BootPhase::InitializingRuntime, BootEvent::RuntimeInitFailed);
    assert_eq!(init_failed, BootPhase::Failed(BootError::HostingLoadFailure));
    let loader_failed = boot_step(BootPhase::ResolvingLoader, BootEvent::LoaderResolutionFailed);
    assert_eq!(loader_failed, BootPhase::Failed(BootError::HostingLoadFailure));
    let entry_failed = boot_step(BootPhase::ResolvingEntryPoint, BootEvent::EntryResolutionFailed);
    assert_eq!(entry_failed, BootPhase::Failed(BootError::EntryResolutionFailure));
}

#[test]
fn boot_plan_extracts_every_field() {
    let kaku_co = "kaku_s
MyAssembly::Ns.Cls!Run
env FOO=BAR
hostfxr ./custom/hostfxr.so
dotnetroot ./runtime
vulkan 2 CreateInstance
";
    let config = LoadConfig::try_parse("/srv/kaku.co", kaku_co).unwrap();
    let plan = make_boot_plan(&config);
    assert_eq!(plan.env_vars, vec![("FOO".to_string(), "BAR".to_string())]);
    assert_eq!(plan.hostfxr_override, Some("/srv/./custom/hostfxr.so".to_string()));
    assert_eq!(plan.dotnet_root, Some("/srv/./runtime".to_string()));
    assert_eq!(plan.runtime_config, "/srv/MyAssembly.runtimeconfig.json");
    assert_eq!(plan.entry_assembly, "/srv/MyAssembly.dll");
    assert_eq!(plan.entry_type, "Ns.Cls, MyAssembly");
    assert_eq!(plan.entry_method, "Run");
}

#[test]
fn worker_reports_configuration_errors() {
    let action = plan_worker(Err(ConfigError::MissingConfig), false);
    assert!(matches!(
        action,
        WorkerAction::ReportConfigError(ConfigError::MissingConfig)
    ));
}

#[test]
fn worker_defers_to_the_graphics_layer_when_gated_and_configured() {
    let action = plan_worker(Ok(vulkan_config("CreateInstance")), true);
    assert!(matches!(action, WorkerAction::DeferToGraphicsLayer));
}

#[test]
fn worker_bootstraps_when_the_graphics_gate_is_off() {
    let action = plan_worker(Ok(vulkan_config("CreateInstance")), false);
    match action {
        WorkerAction::Bootstrap(plan) => {
            assert_eq!(plan.entry_assembly, "Assembly.dll");
            assert_eq!(plan.entry_method, "M");
        }
        _ => panic!("expected a bootstrap"),
    }
}

#[test]
fn worker_bootstraps_plain_config_even_with_the_gate_on() {
    let action = plan_worker(Ok(plain_config()), true);
    assert!(matches!(action, WorkerAction::Bootstrap(_)));
}
