//! What the engine takes from `ash`: flag tests, flag and enum values, and the
//! packing of a version number.
//!
//! The engine holds flags, enum values and result codes as the integers that the
//! driver exchanges. Every function here calls into `ash` and is believed, not
//! proved: its contract restates what the source of `ash` shows.

use vstd::prelude::*;

verus! {

/// Every bit of `wanted` is set in `flags`.
pub open spec fn has_bits(flags: u32, wanted: u32) -> bool {
    flags & wanted == wanted
}

/// `ash::vk::QueueFlags::contains` with `ash::vk::QueueFlags::GRAPHICS`: the bit
/// `0x1` is set in the queue family's flags.
#[verifier::external_body]
pub(crate) fn queue_supports_graphics(flags: u32) -> (supported: bool)
    ensures
        supported == has_bits(flags, 0x1),
{
    ash::vk::QueueFlags::from_raw(flags).contains(ash::vk::QueueFlags::GRAPHICS)
}

/// `ash::vk::QueueFlags::contains` with `ash::vk::QueueFlags::TRANSFER`: the bit
/// `0x4` is set in the queue family's flags.
#[verifier::external_body]
pub(crate) fn queue_supports_transfer(flags: u32) -> (supported: bool)
    ensures
        supported == has_bits(flags, 0x4),
{
    ash::vk::QueueFlags::from_raw(flags).contains(ash::vk::QueueFlags::TRANSFER)
}

/// `ash::vk::MemoryPropertyFlags::contains`: every bit of `wanted` is set in
/// `flags`.
#[verifier::external_body]
pub(crate) fn memory_properties_contain(flags: u32, wanted: u32) -> (contained: bool)
    ensures
        contained == has_bits(flags, wanted),
{
    ash::vk::MemoryPropertyFlags::from_raw(flags).contains(
        ash::vk::MemoryPropertyFlags::from_raw(wanted),
    )
}

/// The `|` of `ash::vk::MemoryPropertyFlags`: the bits set in either operand.
#[verifier::external_body]
pub(crate) fn memory_properties_union(a: u32, b: u32) -> (both: u32)
    ensures
        both == a | b,
{
    (ash::vk::MemoryPropertyFlags::from_raw(a) | ash::vk::MemoryPropertyFlags::from_raw(b)).as_raw()
}

/// `ash::vk::MemoryPropertyFlags::DEVICE_LOCAL`, the bit `0x1`.
#[verifier::external_body]
pub(crate) fn memory_device_local() -> (bits: u32)
    ensures
        bits == 0x1,
{
    ash::vk::MemoryPropertyFlags::DEVICE_LOCAL.as_raw()
}

/// `ash::vk::MemoryPropertyFlags::HOST_VISIBLE`, the bit `0x2`.
#[verifier::external_body]
pub(crate) fn memory_host_visible() -> (bits: u32)
    ensures
        bits == 0x2,
{
    ash::vk::MemoryPropertyFlags::HOST_VISIBLE.as_raw()
}

/// `ash::vk::MemoryPropertyFlags::HOST_COHERENT`, the bit `0x4`.
#[verifier::external_body]
pub(crate) fn memory_host_coherent() -> (bits: u32)
    ensures
        bits == 0x4,
{
    ash::vk::MemoryPropertyFlags::HOST_COHERENT.as_raw()
}

/// The `|` of `ash::vk::BufferUsageFlags`: the bits set in either operand.
#[verifier::external_body]
pub(crate) fn buffer_usage_union(a: u32, b: u32) -> (both: u32)
    ensures
        both == a | b,
{
    (ash::vk::BufferUsageFlags::from_raw(a) | ash::vk::BufferUsageFlags::from_raw(b)).as_raw()
}

/// `ash::vk::BufferUsageFlags::TRANSFER_SRC`, the bit `0x1`.
#[verifier::external_body]
pub(crate) fn buffer_usage_transfer_src() -> (bits: u32)
    ensures
        bits == 0x1,
{
    ash::vk::BufferUsageFlags::TRANSFER_SRC.as_raw()
}

/// `ash::vk::BufferUsageFlags::TRANSFER_DST`, the bit `0x2`.
#[verifier::external_body]
pub(crate) fn buffer_usage_transfer_dst() -> (bits: u32)
    ensures
        bits == 0x2,
{
    ash::vk::BufferUsageFlags::TRANSFER_DST.as_raw()
}

/// `ash::vk::BufferUsageFlags::UNIFORM_BUFFER`, the bit `0x10`.
#[verifier::external_body]
pub(crate) fn buffer_usage_uniform() -> (bits: u32)
    ensures
        bits == 0x10,
{
    ash::vk::BufferUsageFlags::UNIFORM_BUFFER.as_raw()
}

/// `ash::vk::BufferUsageFlags::INDEX_BUFFER`, the bit `0x40`.
#[verifier::external_body]
pub(crate) fn buffer_usage_index() -> (bits: u32)
    ensures
        bits == 0x40,
{
    ash::vk::BufferUsageFlags::INDEX_BUFFER.as_raw()
}

/// `ash::vk::BufferUsageFlags::VERTEX_BUFFER`, the bit `0x80`.
#[verifier::external_body]
pub(crate) fn buffer_usage_vertex() -> (bits: u32)
    ensures
        bits == 0x80,
{
    ash::vk::BufferUsageFlags::VERTEX_BUFFER.as_raw()
}

/// `ash::vk::DebugUtilsMessageSeverityFlagsEXT::contains` with `ERROR`: the bit
/// `0x1000` is set in the severity.
#[verifier::external_body]
pub(crate) fn severity_has_error(severity: u32) -> (set: bool)
    ensures
        set == has_bits(severity, 0x1000),
{
    ash::vk::DebugUtilsMessageSeverityFlagsEXT::from_raw(severity).contains(
        ash::vk::DebugUtilsMessageSeverityFlagsEXT::ERROR,
    )
}

/// `ash::vk::DebugUtilsMessageSeverityFlagsEXT::contains` with `WARNING`: the
/// bit `0x100` is set in the severity.
#[verifier::external_body]
pub(crate) fn severity_has_warning(severity: u32) -> (set: bool)
    ensures
        set == has_bits(severity, 0x100),
{
    ash::vk::DebugUtilsMessageSeverityFlagsEXT::from_raw(severity).contains(
        ash::vk::DebugUtilsMessageSeverityFlagsEXT::WARNING,
    )
}

/// `ash::vk::DebugUtilsMessageTypeFlagsEXT::contains` with `PERFORMANCE`: the
/// bit `0x4` is set in the message type.
#[verifier::external_body]
pub(crate) fn message_type_has_performance(message_type: u32) -> (set: bool)
    ensures
        set == has_bits(message_type, 0x4),
{
    ash::vk::DebugUtilsMessageTypeFlagsEXT::from_raw(message_type).contains(
        ash::vk::DebugUtilsMessageTypeFlagsEXT::PERFORMANCE,
    )
}

/// `ash::vk::DebugUtilsMessageTypeFlagsEXT::contains` with `VALIDATION`: the bit
/// `0x2` is set in the message type.
#[verifier::external_body]
pub(crate) fn message_type_has_validation(message_type: u32) -> (set: bool)
    ensures
        set == has_bits(message_type, 0x2),
{
    ash::vk::DebugUtilsMessageTypeFlagsEXT::from_raw(message_type).contains(
        ash::vk::DebugUtilsMessageTypeFlagsEXT::VALIDATION,
    )
}

/// The version number that `make_api_version` packs.
pub open spec fn packed_version(variant: u32, major: u32, minor: u32, patch: u32) -> u32 {
    (variant << 29) | (major << 22) | (minor << 12) | patch
}

/// `ash::vk::make_api_version`: the four parts shifted into one word. Shifts in
/// `ash` are plain `<<` on `u32`, which lose the bits that leave the word.
#[verifier::external_body]
pub(crate) fn make_api_version(variant: u32, major: u32, minor: u32, patch: u32) -> (version: u32)
    ensures
        version == packed_version(variant, major, minor, patch),
{
    ash::vk::make_api_version(variant, major, minor, patch)
}

/// `ash::vk::Format::R32_SFLOAT`, the value 100.
#[verifier::external_body]
pub(crate) fn format_r32_sfloat() -> (raw: i32)
    ensures
        raw == 100,
{
    ash::vk::Format::R32_SFLOAT.as_raw()
}

/// `ash::vk::Format::R32G32_SFLOAT`, the value 103.
#[verifier::external_body]
pub(crate) fn format_r32g32_sfloat() -> (raw: i32)
    ensures
        raw == 103,
{
    ash::vk::Format::R32G32_SFLOAT.as_raw()
}

/// `ash::vk::Format::R32G32B32_SFLOAT`, the value 106.
#[verifier::external_body]
pub(crate) fn format_r32g32b32_sfloat() -> (raw: i32)
    ensures
        raw == 106,
{
    ash::vk::Format::R32G32B32_SFLOAT.as_raw()
}

/// `ash::vk::Format::R32G32B32A32_SFLOAT`, the value 109.
#[verifier::external_body]
pub(crate) fn format_r32g32b32a32_sfloat() -> (raw: i32)
    ensures
        raw == 109,
{
    ash::vk::Format::R32G32B32A32_SFLOAT.as_raw()
}

/// `ash::vk::Format::B8G8R8A8_SRGB`, the value 50.
#[verifier::external_body]
pub(crate) fn format_b8g8r8a8_srgb() -> (raw: i32)
    ensures
        raw == 50,
{
    ash::vk::Format::B8G8R8A8_SRGB.as_raw()
}

/// `ash::vk::ColorSpaceKHR::SRGB_NONLINEAR`, the value 0.
#[verifier::external_body]
pub(crate) fn color_space_srgb_nonlinear() -> (raw: i32)
    ensures
        raw == 0,
{
    ash::vk::ColorSpaceKHR::SRGB_NONLINEAR.as_raw()
}

/// `ash::vk::PresentModeKHR::MAILBOX`, the value 1.
#[verifier::external_body]
pub(crate) fn present_mode_mailbox() -> (raw: i32)
    ensures
        raw == 1,
{
    ash::vk::PresentModeKHR::MAILBOX.as_raw()
}

/// `ash::vk::PresentModeKHR::FIFO`, the value 2.
#[verifier::external_body]
pub(crate) fn present_mode_fifo() -> (raw: i32)
    ensures
        raw == 2,
{
    ash::vk::PresentModeKHR::FIFO.as_raw()
}

/// `ash::vk::Result::ERROR_OUT_OF_DATE_KHR`, the value -1000001004.
#[verifier::external_body]
pub(crate) fn result_out_of_date() -> (raw: i32)
    ensures
        raw == -1000001004,
{
    ash::vk::Result::ERROR_OUT_OF_DATE_KHR.as_raw()
}

} // verus!
