//! What the renderer decides while it starts: which extensions and layers to
//! ask for, which physical device to take, which queues to create, and how
//! loud a message of the driver is.

use crate::renderer::native::{
    has_bits, make_api_version, message_type_has_performance, message_type_has_validation,
    packed_version, severity_has_error, severity_has_warning,
};
use crate::renderer::queue::{
    chosen_families, fallback_choice, is_first_unified, QueueFamilyIndices, QueueFamilyProperties,
};
use crate::renderer::swapchain_info::SwapchainSupportInfo;
use crate::renderer::{Renderer, RendererError};
use vstd::prelude::*;

verus! {

/// How loud a message is.
#[derive(Clone, Copy, PartialEq, Eq, Debug, Structural)]
pub enum LogLevel {
    Error,
    Warn,
    Info,
    Debug,
    Trace,
}

/// What is known of one physical device: its handle, its queue families, what
/// the surface supports on it, where that could be asked, and the device
/// extensions that it supports.
#[derive(Clone, Debug)]
pub struct PhysicalDeviceCandidate {
    pub handle: u64,
    pub families: Vec<QueueFamilyProperties>,
    pub swapchain_info: Option<SwapchainSupportInfo>,
    pub extensions: Vec<String>,
}

/// The texts of a list of names.
pub open spec fn texts(names: Seq<String>) -> Seq<Seq<char>> {
    Seq::new(names.len(), |i: int| names[i]@)
}

/// The instance extension that lets the renderer listen to the driver.
pub open spec fn debug_utils_extension() -> Seq<char> {
    "VK_EXT_debug_utils"@
}

/// The device extension that the renderer cannot do without.
pub open spec fn swapchain_extension() -> Seq<char> {
    "VK_KHR_swapchain"@
}

/// The validation layer that the renderer asks for when it listens to the
/// driver.
pub open spec fn validation_layer() -> Seq<char> {
    "VK_LAYER_KHRONOS_validation"@
}

/// The names of `requested` that are among `available`, in the order of
/// `requested`.
pub open spec fn available_of(requested: Seq<Seq<char>>, available: Seq<Seq<char>>) -> Seq<
    Seq<char>,
>
    decreases requested.len(),
{
    if requested.len() == 0 {
        Seq::empty()
    } else if available.contains(requested.last()) {
        available_of(requested.drop_last(), available).push(requested.last())
    } else {
        available_of(requested.drop_last(), available)
    }
}

/// The queue families of a device give a family for drawing and a family for
/// presenting.
pub open spec fn families_complete(families: Seq<QueueFamilyProperties>) -> bool {
    (exists|i: int| is_first_unified(families, i)) || (fallback_choice(families).0 is Some
        && fallback_choice(families).1 is Some)
}

/// The device can be used: it has the queue families, supports the swapchain
/// extension, and the surface has a format and a present mode on it.
pub open spec fn is_suitable(candidate: PhysicalDeviceCandidate) -> bool {
    &&& families_complete(candidate.families@)
    &&& texts(candidate.extensions@).contains(swapchain_extension())
    &&& candidate.swapchain_info matches Some(info) && info.is_adequate()
}

/// The level of a message of the driver: an error where the severity says so,
/// else a warning where it says so; below that, a message on performance is
/// information, one on validation is for debugging, and any other a trace.
pub open spec fn spec_debug_message_level(severity: u32, message_type: u32) -> LogLevel {
    if has_bits(severity, 0x1000) {
        LogLevel::Error
    } else if has_bits(severity, 0x100) {
        LogLevel::Warn
    } else if has_bits(message_type, 0x4) {
        LogLevel::Info
    } else if has_bits(message_type, 0x2) {
        LogLevel::Debug
    } else {
        LogLevel::Trace
    }
}

/// The level at which a message of the driver is logged.
pub fn debug_message_level(severity: u32, message_type: u32) -> (level: LogLevel)
    ensures
        level == spec_debug_message_level(severity, message_type),
{
    if severity_has_error(severity) {
        LogLevel::Error
    } else if severity_has_warning(severity) {
        LogLevel::Warn
    } else if message_type_has_performance(message_type) {
        LogLevel::Info
    } else if message_type_has_validation(message_type) {
        LogLevel::Debug
    } else {
        LogLevel::Trace
    }
}

/// Whether `name` is among `names`.
pub fn contains_name(names: &Vec<String>, name: &String) -> (found: bool)
    ensures
        found == texts(names@).contains(name@),
{
    let n = names.len();
    let mut i: usize = 0;
    while i < n
        invariant
            n == names@.len(),
            i <= n,
            forall|j: int| 0 <= j < i ==> texts(names@)[j] != name@,
        decreases n - i,
    {
        if names[i] == *name {
            assert(texts(names@)[i as int] == name@);
            return true;
        }
        i = i + 1;
    }
    false
}

impl Renderer {
    /// The version of the engine, of the application and of the interface to
    /// the driver that the renderer announces: 1.0.0, variant 0.
    pub fn api_version() -> (version: u32)
        ensures
            version == packed_version(0, 1, 0, 0),
            version == 0x40_0000,
    {
        let version = make_api_version(0, 1, 0, 0);
        assert(packed_version(0, 1, 0, 0) == 0x40_0000) by (bit_vector);
        version
    }

    /// The instance extensions to ask for: those that the platform needs, and
    /// the debug utilities where the renderer listens to the driver.
    pub fn get_instance_extensions(platform: &Vec<String>, debug: bool) -> (required: Vec<String>)
        ensures
            texts(required@) == if debug {
                texts(platform@).push(debug_utils_extension())
            } else {
                texts(platform@)
            },
    {
        let mut required = platform.clone();
        assert(texts(required@) =~= texts(platform@));
        if debug {
            required.push("VK_EXT_debug_utils".to_owned());
            assert(texts(required@) =~= texts(platform@).push(debug_utils_extension()));
        }
        required
    }

    /// The validation layers to ask for: none where the renderer does not
    /// listen to the driver; else the layer of the renderer. Where that layer
    /// is not among the available ones, the error holds the requested layers
    /// that are available.
    pub fn get_validation_layers(available: &Vec<String>, debug: bool) -> (layers: Result<
        Vec<String>,
        RendererError,
    >)
        ensures
            match layers {
                Ok(asked) => {
                    &&& texts(asked@) == if debug {
                        seq![validation_layer()]
                    } else {
                        Seq::<Seq<char>>::empty()
                    }
                    &&& debug ==> texts(available@).contains(validation_layer())
                },
                Err(error) => {
                    &&& debug
                    &&& !texts(available@).contains(validation_layer())
                    &&& error matches RendererError::UnavailableValidationLayers(found)
                    &&& texts(found@) == available_of(
                        seq![validation_layer()],
                        texts(available@),
                    )
                },
            },
    {
        let mut requested: Vec<String> = Vec::new();
        requested.push("VK_LAYER_KHRONOS_validation".to_owned());
        assert(texts(requested@) =~= seq![validation_layer()]);
        let requested_and_available = Self::names_available(&requested, available);
        if debug {
            proof {
                let one = seq![validation_layer()];
                assert(one.drop_last() =~= Seq::<Seq<char>>::empty());
                assert(one.last() == validation_layer());
                assert(available_of(one.drop_last(), texts(available@)).len() == 0);
            }
            if requested_and_available.len() == requested.len() {
                Ok(requested)
            } else {
                Err(RendererError::UnavailableValidationLayers(requested_and_available))
            }
        } else {
            let none: Vec<String> = Vec::new();
            assert(texts(none@) =~= Seq::<Seq<char>>::empty());
            Ok(none)
        }
    }

    /// The names of `requested` that are among `available`, in the order of
    /// `requested`.
    pub fn names_available(requested: &Vec<String>, available: &Vec<String>) -> (found: Vec<
        String,
    >)
        ensures
            texts(found@) == available_of(texts(requested@), texts(available@)),
    {
        let n = requested.len();
        let mut found: Vec<String> = Vec::new();
        let mut i: usize = 0;
        assert(texts(requested@).take(0) =~= Seq::<Seq<char>>::empty());
        assert(texts(found@) =~= Seq::<Seq<char>>::empty());
        while i < n
            invariant
                n == requested@.len(),
                i <= n,
                texts(found@) == available_of(
                    texts(requested@).take(i as int),
                    texts(available@),
                ),
            decreases n - i,
        {
            let ghost before = texts(found@);
            proof {
                let prefix = texts(requested@).take(i as int + 1);
                assert(prefix.drop_last() =~= texts(requested@).take(i as int));
                assert(prefix.last() == requested@[i as int]@);
            }
            if contains_name(available, &requested[i]) {
                found.push(requested[i].clone());
                assert(texts(found@) =~= before.push(requested@[i as int]@));
            }
            i = i + 1;
        }
        assert(texts(requested@).take(n as int) =~= texts(requested@));
        found
    }

    /// Whether the device supports the extension that the renderer cannot do
    /// without.
    pub fn check_device_supports_extensions(supported: &Vec<String>) -> (supports: bool)
        ensures
            supports == texts(supported@).contains(swapchain_extension()),
    {
        let required = "VK_KHR_swapchain".to_owned();
        contains_name(supported, &required)
    }

    /// Whether the surface has a format and a present mode.
    pub fn check_swapchain_is_adequate(swapchain_info: &SwapchainSupportInfo) -> (adequate: bool)
        ensures
            adequate == swapchain_info.is_adequate(),
    {
        swapchain_info.check_swapchain_is_adequate()
    }

    /// Whether a device with these queue families, this surface support and
    /// these extensions can be used.
    pub fn check_physical_device_suitability(
        family_indices: &QueueFamilyIndices,
        swapchain_info: &SwapchainSupportInfo,
        supported_extensions: &Vec<String>,
    ) -> (suitable: bool)
        ensures
            suitable == (family_indices.graphics_family is Some && family_indices.present_family
                is Some && texts(supported_extensions@).contains(swapchain_extension())
                && swapchain_info.is_adequate()),
    {
        family_indices.has_all() && Self::check_device_supports_extensions(supported_extensions)
            && Self::check_swapchain_is_adequate(swapchain_info)
    }

    /// The first device that can be used.
    pub fn select_physical_device(candidates: &Vec<PhysicalDeviceCandidate>) -> (selected: Result<
        u64,
        RendererError,
    >)
        requires
            forall|i: int|
                0 <= i < candidates@.len() ==> (#[trigger] candidates@[i]).families@.len()
                    <= u32::MAX,
        ensures
            match selected {
                Ok(handle) => exists|i: int|
                    {
                        &&& 0 <= i < candidates@.len()
                        &&& is_suitable(#[trigger] candidates@[i])
                        &&& candidates@[i].handle == handle
                        &&& forall|j: int| 0 <= j < i ==> !is_suitable(#[trigger] candidates@[j])
                    },
                Err(error) => {
                    &&& forall|j: int|
                        0 <= j < candidates@.len() ==> !is_suitable(#[trigger] candidates@[j])
                    &&& error == if candidates@.len() == 0 {
                        RendererError::NoAvailableVideoAdapter
                    } else {
                        RendererError::NoSupportedVideoAdapter
                    }
                },
            },
    {
        let n = candidates.len();
        if n == 0 {
            return Err(RendererError::NoAvailableVideoAdapter);
        }
        let mut i: usize = 0;
        while i < n
            invariant
                n == candidates@.len(),
                n > 0,
                i <= n,
                forall|k: int|
                    0 <= k < candidates@.len() ==> (#[trigger] candidates@[k]).families@.len()
                        <= u32::MAX,
                forall|j: int| 0 <= j < i ==> !is_suitable(#[trigger] candidates@[j]),
            decreases n - i,
        {
            let candidate = &candidates[i];
            let family_indices = QueueFamilyIndices::fetch(candidate.families.as_slice());
            proof {
                lemma_complete(candidate.families@, family_indices);
            }
            let suitable = match &candidate.swapchain_info {
                Some(swapchain_info) => Self::check_physical_device_suitability(
                    &family_indices,
                    swapchain_info,
                    &candidate.extensions,
                ),
                None => false,
            };
            if suitable {
                return Ok(candidate.handle);
            }
            i = i + 1;
        }
        Err(RendererError::NoSupportedVideoAdapter)
    }

    /// The queue families to create queues of: the graphics family, and the
    /// present family where it is another.
    pub fn device_queue_families(family_indices: &QueueFamilyIndices) -> (families: Vec<u32>)
        requires
            family_indices.graphics_family is Some,
            family_indices.present_family is Some,
        ensures
            families@ == if family_indices.graphics_family == family_indices.present_family {
                seq![family_indices.graphics_family.unwrap()]
            } else {
                seq![family_indices.graphics_family.unwrap(), family_indices.present_family.unwrap()]
            },
    {
        let mut families: Vec<u32> = Vec::new();
        match (family_indices.graphics_family, family_indices.present_family) {
            (Some(graphics), Some(present)) => {
                families.push(graphics);
                if present != graphics {
                    families.push(present);
                }
            },
            _ => {},
        }
        families
    }

    /// The size in bytes of shader code of `words` words of 32 bits.
    pub fn shader_code_size(words: usize) -> (code_size: usize)
        requires
            words * 4 <= usize::MAX,
        ensures
            code_size == words * 4,
    {
        words * 4
    }
}

/// The families that are chosen hold a family for drawing and one for
/// presenting exactly where the device's families are complete.
pub proof fn lemma_complete(families: Seq<QueueFamilyProperties>, chosen: QueueFamilyIndices)
    requires
        chosen_families(families, chosen),
    ensures
        (chosen.graphics_family is Some && chosen.present_family is Some) == families_complete(
            families,
        ),
{
}

} // verus!
