use ash::vk;
use faisca::renderer::queue::{QueueFamilyIndices, QueueFamilyProperties};
use faisca::renderer::setup::{
    contains_name, debug_message_level, LogLevel, PhysicalDeviceCandidate,
};
use faisca::renderer::swapchain_info::{SurfaceCapabilities, SurfaceFormat, SwapchainSupportInfo};
use faisca::renderer::{Renderer, RendererError};
use faisca::ffi::Extent2D;

fn names(list: &[&str]) -> Vec<String> {
    list.iter().map(|name| name.to_string()).collect()
}

fn support(formats: usize, modes: usize) -> SwapchainSupportInfo {
    SwapchainSupportInfo {
        capabilities: SurfaceCapabilities {
            min_image_count: 2,
            max_image_count: 3,
            current_extent: Extent2D { width: 800, height: 450 },
            min_image_extent: Extent2D { width: 1, height: 1 },
            max_image_extent: Extent2D { width: 4096, height: 4096 },
            current_transform: 1,
        },
        formats: vec![SurfaceFormat { format: 50, color_space: 0 }; formats],
        present_modes: vec![2; modes],
    }
}

fn unified() -> Vec<QueueFamilyProperties> {
    vec![QueueFamilyProperties { queue_flags: 0x7, surface_support: Ok(true) }]
}

fn candidate(
    handle: u64,
    families: Vec<QueueFamilyProperties>,
    swapchain_info: Option<SwapchainSupportInfo>,
    extensions: &[&str],
) -> PhysicalDeviceCandidate {
    PhysicalDeviceCandidate { handle, families, swapchain_info, extensions: names(extensions) }
}

#[test]
fn announced_version_is_one_zero_zero() {
    assert_eq!(Renderer::api_version(), vk::make_api_version(0, 1, 0, 0));
    assert_eq!(Renderer::api_version(), 1 << 22);
    assert_eq!(Renderer::api_version(), 4_194_304);
    assert_eq!(vk::api_version_major(Renderer::api_version()), 1);
    assert_eq!(vk::api_version_minor(Renderer::api_version()), 0);
}

#[test]
fn errors_outrank_everything() {
    let error = vk::DebugUtilsMessageSeverityFlagsEXT::ERROR.as_raw();
    let warning = vk::DebugUtilsMessageSeverityFlagsEXT::WARNING.as_raw();
    let info = vk::DebugUtilsMessageSeverityFlagsEXT::INFO.as_raw();
    let verbose = vk::DebugUtilsMessageSeverityFlagsEXT::VERBOSE.as_raw();
    let general = vk::DebugUtilsMessageTypeFlagsEXT::GENERAL.as_raw();
    let validation = vk::DebugUtilsMessageTypeFlagsEXT::VALIDATION.as_raw();
    let performance = vk::DebugUtilsMessageTypeFlagsEXT::PERFORMANCE.as_raw();

    assert_eq!(debug_message_level(error, general), LogLevel::Error);
    assert_eq!(debug_message_level(error | warning, performance), LogLevel::Error);
    assert_eq!(debug_message_level(warning, validation), LogLevel::Warn);
    assert_eq!(debug_message_level(warning | info, performance), LogLevel::Warn);
    assert_eq!(debug_message_level(info, performance), LogLevel::Info);
    assert_eq!(debug_message_level(info, performance | validation), LogLevel::Info);
    assert_eq!(debug_message_level(verbose, validation), LogLevel::Debug);
    assert_eq!(debug_message_level(info, validation | general), LogLevel::Debug);
    assert_eq!(debug_message_level(info, general), LogLevel::Trace);
    assert_eq!(debug_message_level(verbose, 0), LogLevel::Trace);
    assert_eq!(debug_message_level(0, 0), LogLevel::Trace);
    // the raw bits
    assert_eq!(debug_message_level(0x1000, 0), LogLevel::Error);
    assert_eq!(debug_message_level(0x100, 0), LogLevel::Warn);
    assert_eq!(debug_message_level(0x1, 0x4), LogLevel::Info);
    assert_eq!(debug_message_level(0x10, 0x2), LogLevel::Debug);
    assert_eq!(debug_message_level(0x1100, 0x6), LogLevel::Error);
}

#[test]
fn names_are_found_by_their_text() {
    let list = names(&["VK_KHR_surface", "VK_KHR_swapchain"]);
    assert!(contains_name(&list, &"VK_KHR_swapchain".to_string()));
    assert!(contains_name(&list, &"VK_KHR_surface".to_string()));
    assert!(!contains_name(&list, &"VK_KHR_swap".to_string()));
    assert!(!contains_name(&list, &"".to_string()));
    assert!(!contains_name(&Vec::new(), &"VK_KHR_swapchain".to_string()));
}

#[test]
fn debug_build_asks_for_the_debug_utilities() {
    let platform = names(&["VK_KHR_surface", "VK_KHR_xcb_surface"]);
    assert_eq!(Renderer::get_instance_extensions(&platform, false), platform);
    assert_eq!(
        Renderer::get_instance_extensions(&platform, true),
        names(&["VK_KHR_surface", "VK_KHR_xcb_surface", "VK_EXT_debug_utils"])
    );
    assert_eq!(Renderer::get_instance_extensions(&Vec::new(), false), Vec::<String>::new());
    assert_eq!(Renderer::get_instance_extensions(&Vec::new(), true), names(&["VK_EXT_debug_utils"]));
}

#[test]
fn validation_layer_is_asked_for_in_debug_builds_only() {
    let available = names(&["VK_LAYER_MESA_overlay", "VK_LAYER_KHRONOS_validation"]);
    assert_eq!(
        Renderer::get_validation_layers(&available, true),
        Ok(names(&["VK_LAYER_KHRONOS_validation"]))
    );
    assert_eq!(Renderer::get_validation_layers(&available, false), Ok(Vec::new()));
    assert_eq!(Renderer::get_validation_layers(&Vec::new(), false), Ok(Vec::new()));
}

#[test]
fn missing_validation_layer_is_an_error() {
    let available = names(&["VK_LAYER_MESA_overlay"]);
    assert_eq!(
        Renderer::get_validation_layers(&available, true),
        Err(RendererError::UnavailableValidationLayers(Vec::new()))
    );
    assert_eq!(
        Renderer::get_validation_layers(&Vec::new(), true),
        Err(RendererError::UnavailableValidationLayers(Vec::new()))
    );
}

#[test]
fn available_names_keep_the_order_of_the_request() {
    let requested = names(&["c", "a", "x", "b", "a"]);
    let available = names(&["a", "b", "c"]);
    assert_eq!(Renderer::names_available(&requested, &available), names(&["c", "a", "b", "a"]));
    assert_eq!(Renderer::names_available(&requested, &Vec::new()), Vec::<String>::new());
    assert_eq!(Renderer::names_available(&Vec::new(), &available), Vec::<String>::new());
}

#[test]
fn device_must_support_the_swapchain_extension() {
    assert!(Renderer::check_device_supports_extensions(&names(&[
        "VK_KHR_maintenance1",
        "VK_KHR_swapchain"
    ])));
    assert!(!Renderer::check_device_supports_extensions(&names(&["VK_KHR_maintenance1"])));
    assert!(!Renderer::check_device_supports_extensions(&Vec::new()));
}

#[test]
fn suitability_needs_families_extension_and_surface_support() {
    let complete = QueueFamilyIndices {
        graphics_family: Some(0),
        present_family: Some(0),
        dedicated_transfer_family: None,
    };
    let no_present = QueueFamilyIndices { present_family: None, ..complete };
    let extensions = names(&["VK_KHR_swapchain"]);
    assert!(Renderer::check_physical_device_suitability(&complete, &support(1, 1), &extensions));
    assert!(!Renderer::check_physical_device_suitability(&no_present, &support(1, 1), &extensions));
    assert!(!Renderer::check_physical_device_suitability(&complete, &support(0, 1), &extensions));
    assert!(!Renderer::check_physical_device_suitability(&complete, &support(1, 0), &extensions));
    assert!(!Renderer::check_physical_device_suitability(&complete, &support(1, 1), &Vec::new()));
    assert!(Renderer::check_swapchain_is_adequate(&support(2, 3)));
    assert!(!Renderer::check_swapchain_is_adequate(&support(0, 0)));
}

#[test]
fn no_device_at_all_is_its_own_error() {
    assert_eq!(
        Renderer::select_physical_device(&Vec::new()),
        Err(RendererError::NoAvailableVideoAdapter)
    );
}

#[test]
fn first_suitable_device_is_selected() {
    let swapchain = ["VK_KHR_swapchain"];
    let candidates = vec![
        // cannot present
        candidate(
            10,
            vec![QueueFamilyProperties { queue_flags: 0x7, surface_support: Err(-3) }],
            Some(support(1, 1)),
            &swapchain,
        ),
        // surface support could not be asked
        candidate(11, unified(), None, &swapchain),
        // lacks the extension
        candidate(12, unified(), Some(support(1, 1)), &["VK_KHR_maintenance1"]),
        // surface has no present mode
        candidate(13, unified(), Some(support(1, 0)), &swapchain),
        candidate(14, unified(), Some(support(1, 1)), &swapchain),
        candidate(15, unified(), Some(support(1, 1)), &swapchain),
    ];
    assert_eq!(Renderer::select_physical_device(&candidates), Ok(14));
    assert_eq!(
        Renderer::select_physical_device(&candidates[..4].to_vec()),
        Err(RendererError::NoSupportedVideoAdapter)
    );
}

#[test]
fn one_queue_for_each_different_family() {
    let same = QueueFamilyIndices {
        graphics_family: Some(2),
        present_family: Some(2),
        dedicated_transfer_family: Some(1),
    };
    assert_eq!(Renderer::device_queue_families(&same), vec![2]);
    let different = QueueFamilyIndices { present_family: Some(0), ..same };
    assert_eq!(Renderer::device_queue_families(&different), vec![2, 0]);
}

#[test]
fn shader_code_size_is_in_bytes() {
    assert_eq!(Renderer::shader_code_size(0), 0);
    assert_eq!(Renderer::shader_code_size(1), 4);
    assert_eq!(Renderer::shader_code_size(375), 1500);
}
