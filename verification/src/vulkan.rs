//! The graphics-layer interception strategy: negotiation with the loader,
//! the decisions of the wrapped create/destroy calls, and proc-address
//! resolution.
//!
//! The unverified shell around this module owns the raw interface
//! structs and function pointers; every value that reaches this module is
//! plain: tags and versions as integers, handles and function pointers as
//! opaque 64-bit values, names as strings.  The shell mutates the
//! caller's structs exactly as the returned outcomes dictate.

use vstd::prelude::*;

use crate::config::{
    spec_first_vulkan, ConfigModel, LoadConfig, VulkanEntryPoint, VulkanInitParams,
};
use crate::gate::OnceSlot;
use crate::registry::{DeviceDispatchTable, DispatchRegistry, InstanceDispatchTable};
use crate::text::str_eq;

verus! {

/// Type tag of the negotiation interface struct, as the API defines it.
pub const LAYER_NEGOTIATE_INTERFACE_STRUCT: i32 = 1;

/// Function code of a link record in a layer-info chain.
pub const VK_LAYER_FUNCTION_LINK: i32 = 0;

/// Function code of a data-callback record in a layer-info chain.
pub const VK_LAYER_FUNCTION_DATA_CALLBACK: i32 = 1;

/// Structure tag of an instance-creation layer-info record.
pub const STRUCTURE_TYPE_LOADER_INSTANCE_CREATE_INFO: i32 = 47;

/// Structure tag of a device-creation layer-info record.
pub const STRUCTURE_TYPE_LOADER_DEVICE_CREATE_INFO: i32 = 48;

/// The lowest loader interface version this layer supports.
pub const MIN_LOADER_INTERFACE_VERSION: u32 = 2;

/// Bound on walking a caller-supplied layer-info chain, so a malformed
/// chain can never be walked without end.
pub const MAX_LAYER_CHAIN_HOPS: usize = 64;

/// The type tag of a negotiation interface struct.
#[derive(Debug, Clone, Copy, PartialEq, Eq, Hash, Default, Structural)]
pub struct VkLayerNegotiateStructType {
    pub value: i32,
}

/// The function code of a layer-info record.
#[derive(Debug, Clone, Copy, PartialEq, Eq, Hash, Default, Structural)]
pub struct VkLayerFunction {
    pub value: i32,
}

/// What the chain walk reads of one record in the caller-supplied chain
/// of layer-info records: its structure tag and its function code.
#[derive(Debug, Clone, Copy, PartialEq, Eq, Structural)]
pub struct LayerLinkRecord {
    pub s_type: i32,
    pub function: VkLayerFunction,
}

/// Index of the first link record carrying the expected structure tag.
pub open spec fn spec_find_link(records: Seq<LayerLinkRecord>, expected_tag: i32) -> Option<int>
    decreases records.len(),
{
    if records.len() == 0 {
        None
    } else if records[0].s_type == expected_tag && records[0].function.value
        == VK_LAYER_FUNCTION_LINK {
        Some(0int)
    } else {
        match spec_find_link(records.drop_first(), expected_tag) {
            Some(i) => Some(i + 1),
            None => None,
        }
    }
}

proof fn lemma_find_link_unique(records: Seq<LayerLinkRecord>, expected_tag: i32, i: int)
    requires
        0 <= i < records.len(),
        records[i].s_type == expected_tag && records[i].function.value == VK_LAYER_FUNCTION_LINK,
        forall|j: int|
            0 <= j < i ==> !((#[trigger] records[j]).s_type == expected_tag
                && records[j].function.value == VK_LAYER_FUNCTION_LINK),
    ensures
        spec_find_link(records, expected_tag) == Some(i),
    decreases i,
{
    if i > 0 {
        lemma_find_link_unique(records.drop_first(), expected_tag, i - 1);
    }
}

proof fn lemma_find_link_none(records: Seq<LayerLinkRecord>, expected_tag: i32)
    requires
        forall|j: int|
            0 <= j < records.len() ==> !((#[trigger] records[j]).s_type == expected_tag
                && records[j].function.value == VK_LAYER_FUNCTION_LINK),
    ensures
        spec_find_link(records, expected_tag) is None,
    decreases records.len(),
{
    if records.len() > 0 {
        lemma_find_link_none(records.drop_first(), expected_tag);
    }
}

/// Locate, in a materialised layer-info chain, the first record with the
/// expected tag and the link function code; the wrapped create fails with
/// an initialization error when there is none.
pub fn find_layer_link(records: &Vec<LayerLinkRecord>, expected_tag: i32) -> (r: Option<usize>)
    ensures
        r matches Some(i) ==> spec_find_link(records@, expected_tag) == Some(i as int),
        r is None ==> spec_find_link(records@, expected_tag) is None,
{
    let n = records.len();
    let mut i: usize = 0;
    while i < n
        invariant
            0 <= i <= n == records@.len(),
            forall|j: int|
                0 <= j < i ==> !((#[trigger] records@[j]).s_type == expected_tag
                    && records@[j].function.value == VK_LAYER_FUNCTION_LINK),
        decreases n - i,
    {
        let rec = records[i];
        if rec.s_type == expected_tag && rec.function.value == VK_LAYER_FUNCTION_LINK {
            proof {
                lemma_find_link_unique(records@, expected_tag, i as int);
            }
            return Some(i);
        }
        i = i + 1;
    }
    proof {
        lemma_find_link_none(records@, expected_tag);
    }
    None
}

// ---------------------------------------------------------------------------
// Layer state
// ---------------------------------------------------------------------------
/// The process-wide state of the graphics-layer strategy: the negotiated
/// configuration, the first-instance and first-device gates, and the two
/// dispatch registries.  The shell holds one value of this behind its
/// process-wide lock; each method is one atomic step under that lock.
pub struct LayerState {
    pub config: Option<LoadConfig>,
    pub first_instance: OnceSlot,
    pub first_device: OnceSlot,
    pub instances: DispatchRegistry<InstanceDispatchTable>,
    pub devices: DispatchRegistry<DeviceDispatchTable>,
}

/// The graphics-layer parameters of the negotiated configuration, if any.
pub open spec fn spec_layer_vulkan(s: LayerState) -> Option<VulkanInitParams> {
    match s.config {
        Some(c) => spec_first_vulkan(c@.params),
        None => None,
    }
}

/// When the negotiation handshake succeeds: the struct tag is right, no
/// bootstrap happened yet in this process, nothing was created through
/// this layer yet, the requested version is supported, and a
/// configuration with graphics-layer parameters is at hand.
pub open spec fn spec_negotiation_ok(
    s_type: i32,
    requested_version: u32,
    env_already_booted: bool,
    already_created: bool,
    config: Option<ConfigModel>,
) -> bool {
    &&& s_type == LAYER_NEGOTIATE_INTERFACE_STRUCT
    &&& !env_already_booted
    &&& !already_created
    &&& requested_version >= MIN_LOADER_INTERFACE_VERSION
    &&& config matches Some(c) && spec_first_vulkan(c.params) is Some
}

/// The outcome of the negotiation handshake.
#[derive(Debug, Clone, Copy, PartialEq, Eq, Structural)]
pub enum NegotiationOutcome {
    /// Defer entirely: the interface struct is left untouched and the
    /// caller receives the API's initialization-failure status.
    Deny,
    /// Negotiation succeeded.  When `publish_resolvers` holds, the shell
    /// writes this layer's two resolver entry points and the advertised
    /// version into the interface struct; either way the physical-device
    /// resolver slot is cleared and the caller receives success.
    Accept { advertised_version: u32, publish_resolvers: bool },
}

/// What a wrapped create does after the next layer's create returned.
pub struct CreateOutcome {
    /// Whether the creation stands; without a negotiated configuration
    /// the wrapped create reports an initialization failure instead.
    pub ok: bool,
    /// The handles handed to the bootstrap worker, when this creation is
    /// the configured trigger event; otherwise nothing is spawned.
    pub boot_args: Option<Vec<u64>>,
}

impl LayerState {
    pub fn new() -> (s: LayerState)
        ensures
            s.config is None,
            s.first_instance@ is None,
            s.first_device@ is None,
            s.instances@ == Map::<u64, InstanceDispatchTable>::empty(),
            s.devices@ == Map::<u64, DeviceDispatchTable>::empty(),
    {
        LayerState {
            config: None,
            first_instance: OnceSlot::new(),
            first_device: OnceSlot::new(),
            instances: DispatchRegistry::new(),
            devices: DispatchRegistry::new(),
        }
    }

    /// The negotiation handshake.  `env_already_booted` is the process
    /// environment gate, read once by the shell; `config` is what the
    /// configuration discovery produced, if anything.  On success the
    /// configuration is kept for the create hooks, first store winning.
    pub fn negotiate(
        &mut self,
        s_type: VkLayerNegotiateStructType,
        requested_version: u32,
        env_already_booted: bool,
        config: Option<LoadConfig>,
    ) -> (r: NegotiationOutcome)
        ensures
            (r is Accept) == spec_negotiation_ok(
                s_type.value,
                requested_version,
                env_already_booted,
                old(self).first_instance@ is Some,
                match config {
                    Some(c) => Some(c@),
                    None => None,
                },
            ),
            r matches NegotiationOutcome::Accept { advertised_version, publish_resolvers } ==> {
                let vk = spec_first_vulkan(config->Some_0@.params)->Some_0;
                &&& publish_resolvers == (requested_version >= vk.loader_version)
                &&& advertised_version == (if requested_version >= vk.loader_version {
                    vk.loader_version
                } else {
                    requested_version
                })
            },
            final(self).config == (if r is Accept && old(self).config is None {
                config
            } else {
                old(self).config
            }),
            final(self).first_instance@ == old(self).first_instance@,
            final(self).first_device@ == old(self).first_device@,
            final(self).instances@ == old(self).instances@,
            final(self).devices@ == old(self).devices@,
    {
        if s_type.value != LAYER_NEGOTIATE_INTERFACE_STRUCT {
            return NegotiationOutcome::Deny;
        }
        if env_already_booted {
            return NegotiationOutcome::Deny;
        }
        if self.first_instance.is_set() {
            return NegotiationOutcome::Deny;
        }
        if requested_version < MIN_LOADER_INTERFACE_VERSION {
            return NegotiationOutcome::Deny;
        }
        match config {
            None => NegotiationOutcome::Deny,
            Some(cfg) => match cfg.vulkan() {
                None => NegotiationOutcome::Deny,
                Some(vk) => {
                    let publish = requested_version >= vk.loader_version;
                    let advertised = if publish {
                        vk.loader_version
                    } else {
                        requested_version
                    };
                    if self.config.is_none() {
                        self.config = Some(cfg);
                    }
                    NegotiationOutcome::Accept {
                        advertised_version: advertised,
                        publish_resolvers: publish,
                    }
                }
            },
        }
    }

    /// Bookkeeping after the next layer created an instance: record the
    /// dispatch entry, claim the first-instance gate, and decide whether
    /// this creation triggers the bootstrap.
    pub fn on_instance_created(&mut self, handle: u64, table: InstanceDispatchTable) -> (r:
        CreateOutcome)
        ensures
            final(self).instances@ == old(self).instances@.insert(handle, table),
            final(self).devices@ == old(self).devices@,
            final(self).config == old(self).config,
            final(self).first_device@ == old(self).first_device@,
            final(self).first_instance@ == (if old(self).first_instance@ is None {
                Some(handle)
            } else {
                old(self).first_instance@
            }),
            r.ok == (spec_layer_vulkan(*old(self)) is Some),
            (r.boot_args is Some) == (spec_layer_vulkan(*old(self)) matches Some(vk)
                && vk.entry == VulkanEntryPoint::CreateInstance && old(self).first_instance@
                is None),
            r.boot_args matches Some(args) ==> args@ == seq![handle],
    {
        self.instances.insert(handle, table);
        let is_first = self.first_instance.try_set(handle);
        let mut ok: bool = false;
        let mut trigger: bool = false;
        match &self.config {
            None => {}
            Some(cfg) => match cfg.vulkan() {
                None => {}
                Some(vk) => {
                    ok = true;
                    trigger = vk.entry == VulkanEntryPoint::CreateInstance && is_first;
                }
            },
        }
        let boot_args = if trigger {
            let mut args: Vec<u64> = Vec::new();
            args.push(handle);
            proof {
                assert(args@ =~= seq![handle]);
            }
            Some(args)
        } else {
            None
        };
        CreateOutcome { ok, boot_args }
    }

    /// Bookkeeping after the next layer created a device.  The worker
    /// takes both the first instance and the new device handle; if no
    /// instance was ever created through this layer, nothing is spawned.
    pub fn on_device_created(&mut self, handle: u64, table: DeviceDispatchTable) -> (r:
        CreateOutcome)
        ensures
            final(self).devices@ == old(self).devices@.insert(handle, table),
            final(self).instances@ == old(self).instances@,
            final(self).config == old(self).config,
            final(self).first_instance@ == old(self).first_instance@,
            final(self).first_device@ == (if old(self).first_device@ is None {
                Some(handle)
            } else {
                old(self).first_device@
            }),
            r.ok == (spec_layer_vulkan(*old(self)) is Some),
            (r.boot_args is Some) == (spec_layer_vulkan(*old(self)) matches Some(vk)
                && vk.entry == VulkanEntryPoint::CreateDevice && old(self).first_device@ is None
                && old(self).first_instance@ is Some),
            r.boot_args matches Some(args) ==> args@ == seq![
                old(self).first_instance@->Some_0,
                handle,
            ],
    {
        self.devices.insert(handle, table);
        let is_first = self.first_device.try_set(handle);
        let mut ok: bool = false;
        let mut trigger: bool = false;
        match &self.config {
            None => {}
            Some(cfg) => match cfg.vulkan() {
                None => {}
                Some(vk) => {
                    ok = true;
                    trigger = vk.entry == VulkanEntryPoint::CreateDevice && is_first;
                }
            },
        }
        let boot_args = if trigger {
            match self.first_instance.get() {
                Some(instance) => {
                    let mut args: Vec<u64> = Vec::new();
                    args.push(instance);
                    args.push(handle);
                    proof {
                        assert(args@ =~= seq![instance, handle]);
                    }
                    Some(args)
                }
                None => None,
            }
        } else {
            None
        };
        CreateOutcome { ok, boot_args }
    }

    /// Bookkeeping for a wrapped instance destroy: drop the entry and
    /// hand back the captured next-layer destroy, for the shell to call;
    /// a no-op for unknown handles.
    pub fn on_instance_destroyed(&mut self, handle: u64) -> (r: Option<InstanceDispatchTable>)
        ensures
            final(self).instances@ == old(self).instances@.remove(handle),
            final(self).devices@ == old(self).devices@,
            final(self).config == old(self).config,
            final(self).first_instance@ == old(self).first_instance@,
            final(self).first_device@ == old(self).first_device@,
            r matches Some(e) ==> old(self).instances@.contains_key(handle) && old(
                self,
            ).instances@[handle] == e,
            r is None ==> !old(self).instances@.contains_key(handle),
    {
        self.instances.remove(handle)
    }

    /// Bookkeeping for a wrapped device destroy.
    pub fn on_device_destroyed(&mut self, handle: u64) -> (r: Option<DeviceDispatchTable>)
        ensures
            final(self).devices@ == old(self).devices@.remove(handle),
            final(self).instances@ == old(self).instances@,
            final(self).config == old(self).config,
            final(self).first_instance@ == old(self).first_instance@,
            final(self).first_device@ == old(self).first_device@,
            r matches Some(e) ==> old(self).devices@.contains_key(handle) && old(
                self,
            ).devices@[handle] == e,
            r is None ==> !old(self).devices@.contains_key(handle),
    {
        self.devices.remove(handle)
    }
}

// ---------------------------------------------------------------------------
// Proc-address resolution
// ---------------------------------------------------------------------------
/// How the instance resolver answers a name query.
#[derive(Debug, Clone, Copy, PartialEq, Eq, Structural)]
pub enum InstanceResolution {
    /// One of this layer's own entry points is returned directly.
    GetInstanceProcAddr,
    CreateInstance,
    DestroyInstance,
    GetDeviceProcAddr,
    CreateDevice,
    DestroyDevice,
    /// Forward the query to the next layer's resolver captured for the
    /// handle.
    Forward(InstanceDispatchTable),
    /// No entry for the handle: resolution fails.
    Unknown,
}

/// How the device resolver answers a name query.
#[derive(Debug, Clone, Copy, PartialEq, Eq, Structural)]
pub enum DeviceResolution {
    GetDeviceProcAddr,
    CreateDevice,
    DestroyDevice,
    Forward(DeviceDispatchTable),
    Unknown,
}

/// The instance resolver's decision: this layer's own names are answered
/// directly, every other name is forwarded through the dispatch entry of
/// the queried handle, and an unknown handle resolves to nothing.
pub open spec fn spec_resolve_instance(
    m: Map<u64, InstanceDispatchTable>,
    handle: u64,
    name: Seq<char>,
) -> InstanceResolution {
    if name == "vkGetInstanceProcAddr"@ {
        InstanceResolution::GetInstanceProcAddr
    } else if name == "vkCreateInstance"@ {
        InstanceResolution::CreateInstance
    } else if name == "vkDestroyInstance"@ {
        InstanceResolution::DestroyInstance
    } else if name == "vkGetDeviceProcAddr"@ {
        InstanceResolution::GetDeviceProcAddr
    } else if name == "vkCreateDevice"@ {
        InstanceResolution::CreateDevice
    } else if name == "vkDestroyDevice"@ {
        InstanceResolution::DestroyDevice
    } else if m.contains_key(handle) {
        InstanceResolution::Forward(m[handle])
    } else {
        InstanceResolution::Unknown
    }
}

/// The device resolver's decision.
pub open spec fn spec_resolve_device(
    m: Map<u64, DeviceDispatchTable>,
    handle: u64,
    name: Seq<char>,
) -> DeviceResolution {
    if name == "vkGetDeviceProcAddr"@ {
        DeviceResolution::GetDeviceProcAddr
    } else if name == "vkCreateDevice"@ {
        DeviceResolution::CreateDevice
    } else if name == "vkDestroyDevice"@ {
        DeviceResolution::DestroyDevice
    } else if m.contains_key(handle) {
        DeviceResolution::Forward(m[handle])
    } else {
        DeviceResolution::Unknown
    }
}

impl LayerState {
    /// Resolve a name against an instance handle.
    pub fn resolve_instance(&self, handle: u64, name: &str) -> (r: InstanceResolution)
        ensures
            r == spec_resolve_instance(self.instances@, handle, name@),
    {
        if str_eq(name, "vkGetInstanceProcAddr") {
            InstanceResolution::GetInstanceProcAddr
        } else if str_eq(name, "vkCreateInstance") {
            InstanceResolution::CreateInstance
        } else if str_eq(name, "vkDestroyInstance") {
            InstanceResolution::DestroyInstance
        } else if str_eq(name, "vkGetDeviceProcAddr") {
            InstanceResolution::GetDeviceProcAddr
        } else if str_eq(name, "vkCreateDevice") {
            InstanceResolution::CreateDevice
        } else if str_eq(name, "vkDestroyDevice") {
            InstanceResolution::DestroyDevice
        } else {
            match self.instances.lookup(handle) {
                Some(e) => InstanceResolution::Forward(e),
                None => InstanceResolution::Unknown,
            }
        }
    }

    /// Resolve a name against a device handle.
    pub fn resolve_device(&self, handle: u64, name: &str) -> (r: DeviceResolution)
        ensures
            r == spec_resolve_device(self.devices@, handle, name@),
    {
        if str_eq(name, "vkGetDeviceProcAddr") {
            DeviceResolution::GetDeviceProcAddr
        } else if str_eq(name, "vkCreateDevice") {
            DeviceResolution::CreateDevice
        } else if str_eq(name, "vkDestroyDevice") {
            DeviceResolution::DestroyDevice
        } else {
            match self.devices.lookup(handle) {
                Some(e) => DeviceResolution::Forward(e),
                None => DeviceResolution::Unknown,
            }
        }
    }
}

} // verus!
