//! What a surface supports, and what the renderer picks from it.

use crate::ffi::Extent2D;
use crate::renderer::native::{
    color_space_srgb_nonlinear, format_b8g8r8a8_srgb, present_mode_fifo, present_mode_mailbox,
};
use vstd::prelude::*;

verus! {

/// A pixel format together with the colour space it is shown in.
#[derive(Clone, Copy, PartialEq, Eq, Debug, Structural)]
pub struct SurfaceFormat {
    pub format: i32,
    pub color_space: i32,
}

/// The limits of a surface.
#[derive(Clone, Copy, PartialEq, Eq, Debug, Structural)]
pub struct SurfaceCapabilities {
    pub min_image_count: u32,
    /// The most images that a swapchain can have; 0 where there is no limit.
    pub max_image_count: u32,
    /// The extent of the surface; a width of `u32::MAX` says that the
    /// swapchain decides.
    pub current_extent: Extent2D,
    pub min_image_extent: Extent2D,
    pub max_image_extent: Extent2D,
    pub current_transform: u32,
}

/// What a surface supports on a physical device.
#[derive(Clone, Debug, PartialEq, Eq)]
pub struct SwapchainSupportInfo {
    pub capabilities: SurfaceCapabilities,
    pub formats: Vec<SurfaceFormat>,
    pub present_modes: Vec<i32>,
}

/// The format that the renderer likes best: 8-bit BGRA in sRGB, shown in the
/// non-linear sRGB colour space.
pub open spec fn preferred_format() -> SurfaceFormat {
    SurfaceFormat { format: 50, color_space: 0 }
}

/// The present mode that the renderer likes best: the mailbox.
pub open spec fn preferred_present_mode() -> i32 {
    1
}

/// The present mode that every surface has: first in, first out.
pub open spec fn fallback_present_mode() -> i32 {
    2
}

/// `value`, or the nearer bound where it lies outside `min ..= max`.
pub open spec fn clamped(value: u32, min: u32, max: u32) -> u32 {
    if value < min {
        min
    } else if value > max {
        max
    } else {
        value
    }
}

/// `value`, or the nearer bound where it lies outside `min ..= max`.
pub fn clamp(value: u32, min: u32, max: u32) -> (inside: u32)
    requires
        min <= max,
    ensures
        inside == clamped(value, min, max),
        min <= inside <= max,
{
    if value < min {
        min
    } else if value > max {
        max
    } else {
        value
    }
}

impl SurfaceCapabilities {
    /// The surface leaves the extent to the swapchain.
    pub open spec fn extent_is_free(self) -> bool {
        self.current_extent.width == u32::MAX
    }

    /// The extent of a swapchain for a window of `window_extent`: the extent of
    /// the surface where it has one, else the window's extent brought into the
    /// limits of the surface.
    pub open spec fn extent_for(self, window_extent: Extent2D) -> Extent2D {
        if !self.extent_is_free() {
            self.current_extent
        } else {
            Extent2D {
                width: clamped(
                    window_extent.width,
                    self.min_image_extent.width,
                    self.max_image_extent.width,
                ),
                height: clamped(
                    window_extent.height,
                    self.min_image_extent.height,
                    self.max_image_extent.height,
                ),
            }
        }
    }

    /// The least extent is no larger than the largest.
    pub open spec fn limits_ordered(self) -> bool {
        &&& self.min_image_extent.width <= self.max_image_extent.width
        &&& self.min_image_extent.height <= self.max_image_extent.height
    }

    /// Number of images to ask for: one more than the least, unless the surface
    /// allows exactly one count.
    pub open spec fn image_count(self) -> int {
        if self.min_image_count != self.max_image_count {
            self.min_image_count + 1
        } else {
            self.min_image_count as int
        }
    }
}

impl SwapchainSupportInfo {
    /// The format to use: the preferred one where the surface has it, else the
    /// first that the surface has.
    pub open spec fn spec_select_format(&self) -> Option<SurfaceFormat> {
        if self.formats@.contains(preferred_format()) {
            Some(preferred_format())
        } else if self.formats@.len() > 0 {
            Some(self.formats@[0])
        } else {
            None
        }
    }

    /// The present mode to use: the mailbox where the surface has it, else
    /// first in, first out.
    pub open spec fn spec_select_present_mode(&self) -> i32 {
        if self.present_modes@.contains(preferred_present_mode()) {
            preferred_present_mode()
        } else {
            fallback_present_mode()
        }
    }

    /// The surface has a format and a present mode.
    pub open spec fn is_adequate(&self) -> bool {
        self.formats@.len() > 0 && self.present_modes@.len() > 0
    }

    /// The format to use: the preferred one where the surface has it, else the
    /// first that the surface has.
    pub fn select_format(&self) -> (selected: Option<SurfaceFormat>)
        ensures
            selected == self.spec_select_format(),
    {
        let wanted_format = format_b8g8r8a8_srgb();
        let wanted_space = color_space_srgb_nonlinear();
        let n = self.formats.len();
        let mut i: usize = 0;
        while i < n
            invariant
                n == self.formats@.len(),
                i <= n,
                wanted_format == 50,
                wanted_space == 0,
                forall|j: int| 0 <= j < i ==> self.formats@[j] != preferred_format(),
            decreases n - i,
        {
            let format = self.formats[i];
            if format.format == wanted_format && format.color_space == wanted_space {
                assert(self.formats@[i as int] == preferred_format());
                return Some(format);
            }
            i = i + 1;
        }
        if n > 0 {
            Some(self.formats[0])
        } else {
            None
        }
    }

    /// The present mode to use: the mailbox where the surface has it, else
    /// first in, first out.
    pub fn select_present_mode(&self) -> (selected: i32)
        ensures
            selected == self.spec_select_present_mode(),
    {
        let mailbox = present_mode_mailbox();
        let n = self.present_modes.len();
        let mut i: usize = 0;
        while i < n
            invariant
                n == self.present_modes@.len(),
                i <= n,
                mailbox == 1,
                forall|j: int| 0 <= j < i ==> self.present_modes@[j] != preferred_present_mode(),
            decreases n - i,
        {
            if self.present_modes[i] == mailbox {
                assert(self.present_modes@[i as int] == preferred_present_mode());
                return mailbox;
            }
            i = i + 1;
        }
        present_mode_fifo()
    }

    /// The extent of a swapchain for a window of `window_extent`: the extent of
    /// the surface where it has one, else the window's extent brought into the
    /// limits of the surface.
    pub fn select_extent(&self, window_extent: Extent2D) -> (selected: Extent2D)
        requires
            self.capabilities.extent_is_free() ==> self.capabilities.limits_ordered(),
        ensures
            selected == self.capabilities.extent_for(window_extent),
    {
        if self.capabilities.current_extent.width != u32::MAX {
            self.capabilities.current_extent
        } else {
            Extent2D {
                width: clamp(
                    window_extent.width,
                    self.capabilities.min_image_extent.width,
                    self.capabilities.max_image_extent.width,
                ),
                height: clamp(
                    window_extent.height,
                    self.capabilities.min_image_extent.height,
                    self.capabilities.max_image_extent.height,
                ),
            }
        }
    }

    /// Whether the limits of the surface let `select_extent` pick an extent.
    pub fn can_select_extent(&self) -> (can: bool)
        ensures
            can == (self.capabilities.extent_is_free() ==> self.capabilities.limits_ordered()),
    {
        self.capabilities.current_extent.width != u32::MAX || (
        self.capabilities.min_image_extent.width <= self.capabilities.max_image_extent.width
            && self.capabilities.min_image_extent.height
            <= self.capabilities.max_image_extent.height)
    }

    /// Number of images to ask for, where that number is a `u32`.
    pub fn select_image_count(&self) -> (count: Option<u32>)
        ensures
            match count {
                Some(n) => n == self.capabilities.image_count(),
                None => self.capabilities.image_count() > u32::MAX,
            },
    {
        if self.capabilities.min_image_count != self.capabilities.max_image_count {
            self.capabilities.min_image_count.checked_add(1)
        } else {
            Some(self.capabilities.min_image_count)
        }
    }

    /// Whether the surface has a format and a present mode.
    pub fn check_swapchain_is_adequate(&self) -> (adequate: bool)
        ensures
            adequate == self.is_adequate(),
    {
        self.formats.len() > 0 && self.present_modes.len() > 0
    }
}

} // verus!
