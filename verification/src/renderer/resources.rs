//! The native objects of the renderer: which ones are live, what each one
//! needs, and in which order they are destroyed.
//!
//! Objects are built in one fixed order, the order of `ResourceKind`, and the
//! pools of device memory come last. Every object needs some of the kinds
//! before it. Teardown destroys what is live in the reverse of that order.

use crate::ffi::Extent2D;
use crate::renderer::buffer::{
    pool_handles, AllocRecord, AllocStep, BufferManager, BufferType, CreatedPool, MappedRange,
    PoolModel, VirtualBuffer,
};
use crate::renderer::queue::QueueFamilyIndices;
use crate::renderer::swapchain_info::{SurfaceFormat, SwapchainSupportInfo};
use crate::renderer::RendererError;
use vstd::prelude::*;

verus! {

/// Number of kinds of native objects.
pub const RESOURCE_KINDS: usize = 16;

/// Size of the staging buffer that uploads go through. Nothing larger can be
/// uploaded.
pub const STAGING_BUFFER_SIZE: u64 = 16 * 1024 * 1024;

/// The kinds of native objects, in the order in which they are built.
#[derive(Clone, Copy, PartialEq, Eq, Debug, Structural)]
pub enum ResourceKind {
    Instance,
    DebugMessenger,
    Surface,
    Device,
    RenderPass,
    Swapchain,
    ImageView,
    Framebuffer,
    DescriptorSetLayout,
    PipelineLayout,
    Pipeline,
    CommandPool,
    TransferCommandPool,
    ImageAvailableSemaphore,
    RenderFinishedSemaphore,
    InFlightFence,
}

impl ResourceKind {
    /// Position of the kind in the order of construction.
    pub open spec fn order(self) -> int {
        match self {
            ResourceKind::Instance => 0,
            ResourceKind::DebugMessenger => 1,
            ResourceKind::Surface => 2,
            ResourceKind::Device => 3,
            ResourceKind::RenderPass => 4,
            ResourceKind::Swapchain => 5,
            ResourceKind::ImageView => 6,
            ResourceKind::Framebuffer => 7,
            ResourceKind::DescriptorSetLayout => 8,
            ResourceKind::PipelineLayout => 9,
            ResourceKind::Pipeline => 10,
            ResourceKind::CommandPool => 11,
            ResourceKind::TransferCommandPool => 12,
            ResourceKind::ImageAvailableSemaphore => 13,
            ResourceKind::RenderFinishedSemaphore => 14,
            ResourceKind::InFlightFence => 15,
        }
    }

    /// The kind at a position of the order of construction.
    pub open spec fn at(position: int) -> ResourceKind {
        if position <= 0 {
            ResourceKind::Instance
        } else if position == 1 {
            ResourceKind::DebugMessenger
        } else if position == 2 {
            ResourceKind::Surface
        } else if position == 3 {
            ResourceKind::Device
        } else if position == 4 {
            ResourceKind::RenderPass
        } else if position == 5 {
            ResourceKind::Swapchain
        } else if position == 6 {
            ResourceKind::ImageView
        } else if position == 7 {
            ResourceKind::Framebuffer
        } else if position == 8 {
            ResourceKind::DescriptorSetLayout
        } else if position == 9 {
            ResourceKind::PipelineLayout
        } else if position == 10 {
            ResourceKind::Pipeline
        } else if position == 11 {
            ResourceKind::CommandPool
        } else if position == 12 {
            ResourceKind::TransferCommandPool
        } else if position == 13 {
            ResourceKind::ImageAvailableSemaphore
        } else if position == 14 {
            ResourceKind::RenderFinishedSemaphore
        } else {
            ResourceKind::InFlightFence
        }
    }

    /// At most one object of the kind is live at a time.
    pub open spec fn is_single(self) -> bool {
        match self {
            ResourceKind::ImageView
            | ResourceKind::Framebuffer
            | ResourceKind::ImageAvailableSemaphore
            | ResourceKind::RenderFinishedSemaphore
            | ResourceKind::InFlightFence => false,
            _ => true,
        }
    }

    /// An object of this kind can only be built, and can only stay, while an
    /// object of the kind `other` is live.
    pub open spec fn needs(self, other: ResourceKind) -> bool {
        match self {
            ResourceKind::Instance => false,
            ResourceKind::DebugMessenger => other == ResourceKind::Instance,
            ResourceKind::Surface => other == ResourceKind::Instance,
            ResourceKind::Device => other == ResourceKind::Instance || other
                == ResourceKind::Surface,
            ResourceKind::Swapchain => other == ResourceKind::Device || other
                == ResourceKind::Surface,
            ResourceKind::ImageView => other == ResourceKind::Swapchain,
            ResourceKind::Framebuffer => other == ResourceKind::ImageView || other
                == ResourceKind::RenderPass,
            ResourceKind::Pipeline => other == ResourceKind::PipelineLayout || other
                == ResourceKind::RenderPass,
            _ => other == ResourceKind::Device,
        }
    }

    /// The kind belongs to the presentation subtree: the swapchain, its image
    /// views and the framebuffers.
    pub open spec fn is_presentation(self) -> bool {
        self == ResourceKind::Swapchain || self == ResourceKind::ImageView || self
            == ResourceKind::Framebuffer
    }

    /// What a kind needs is built before it.
    pub proof fn lemma_needs_earlier(self, other: ResourceKind)
        requires
            self.needs(other),
        ensures
            other.order() < self.order(),
    {
    }

    /// The positions name the kinds one for one.
    pub proof fn lemma_order_at(self)
        ensures
            0 <= self.order() < RESOURCE_KINDS,
            ResourceKind::at(self.order()) == self,
    {
    }

    /// Position of the kind in the order of construction.
    pub fn index(self) -> (i: usize)
        ensures
            i == self.order(),
    {
        match self {
            ResourceKind::Instance => 0,
            ResourceKind::DebugMessenger => 1,
            ResourceKind::Surface => 2,
            ResourceKind::Device => 3,
            ResourceKind::RenderPass => 4,
            ResourceKind::Swapchain => 5,
            ResourceKind::ImageView => 6,
            ResourceKind::Framebuffer => 7,
            ResourceKind::DescriptorSetLayout => 8,
            ResourceKind::PipelineLayout => 9,
            ResourceKind::Pipeline => 10,
            ResourceKind::CommandPool => 11,
            ResourceKind::TransferCommandPool => 12,
            ResourceKind::ImageAvailableSemaphore => 13,
            ResourceKind::RenderFinishedSemaphore => 14,
            ResourceKind::InFlightFence => 15,
        }
    }

    /// The kind at a position of the order of construction.
    pub fn from_index(position: usize) -> (kind: Self)
        requires
            position < RESOURCE_KINDS,
        ensures
            kind == ResourceKind::at(position as int),
            kind.order() == position,
    {
        if position == 0 {
            ResourceKind::Instance
        } else if position == 1 {
            ResourceKind::DebugMessenger
        } else if position == 2 {
            ResourceKind::Surface
        } else if position == 3 {
            ResourceKind::Device
        } else if position == 4 {
            ResourceKind::RenderPass
        } else if position == 5 {
            ResourceKind::Swapchain
        } else if position == 6 {
            ResourceKind::ImageView
        } else if position == 7 {
            ResourceKind::Framebuffer
        } else if position == 8 {
            ResourceKind::DescriptorSetLayout
        } else if position == 9 {
            ResourceKind::PipelineLayout
        } else if position == 10 {
            ResourceKind::Pipeline
        } else if position == 11 {
            ResourceKind::CommandPool
        } else if position == 12 {
            ResourceKind::TransferCommandPool
        } else if position == 13 {
            ResourceKind::ImageAvailableSemaphore
        } else if position == 14 {
            ResourceKind::RenderFinishedSemaphore
        } else {
            ResourceKind::InFlightFence
        }
    }

    /// Whether at most one object of the kind is live at a time.
    pub fn single(self) -> (single: bool)
        ensures
            single == self.is_single(),
    {
        match self {
            ResourceKind::ImageView
            | ResourceKind::Framebuffer
            | ResourceKind::ImageAvailableSemaphore
            | ResourceKind::RenderFinishedSemaphore
            | ResourceKind::InFlightFence => false,
            _ => true,
        }
    }
}

/// One native object that was built: an object of a kind, or a pool of device
/// memory.
#[derive(Clone, Copy, PartialEq, Eq, Debug, Structural)]
pub enum NativeObject {
    Object { kind: ResourceKind, handle: u64 },
    Pool { buffer: u64, memory: u64 },
}

/// One step of a teardown.
#[derive(Clone, Copy, PartialEq, Eq, Debug, Structural)]
pub enum TeardownAction {
    /// Wait until the device has finished all work.
    WaitDeviceIdle,
    /// Destroy the object. Of a pool, destroy the buffer and free the memory.
    Destroy(NativeObject),
}

/// How the images of a swapchain are shared between queue families.
#[derive(Clone, Copy, PartialEq, Eq, Debug, Structural)]
pub enum SharingMode {
    Exclusive,
    Concurrent,
}

/// What a swapchain is created with.
#[derive(Clone, Copy, PartialEq, Eq, Debug, Structural)]
pub struct SwapchainPlan {
    pub surface: u64,
    pub min_image_count: u32,
    pub format: SurfaceFormat,
    pub extent: Extent2D,
    pub present_mode: i32,
    pub pre_transform: u32,
    pub sharing: SharingMode,
    pub graphics_family: u32,
    pub present_family: u32,
}

/// What a renderer is to be made of: whether the driver's messages are
/// listened to, how many images the swapchain has, and how many frames can be
/// in flight.
#[derive(Clone, Copy, PartialEq, Eq, Debug, Structural)]
pub struct BuildPlan {
    pub debug: bool,
    pub swapchain_images: usize,
    pub frames: usize,
}

impl BuildPlan {
    /// Number of objects of a kind that the renderer is made of: one of most
    /// kinds; a debug messenger only where the driver is listened to; an image
    /// view and a framebuffer for every image of the swapchain; two semaphores
    /// and a fence for every frame in flight; no descriptor set layout and no
    /// command pool for transfers.
    pub open spec fn wanted(self, kind: ResourceKind) -> int {
        match kind {
            ResourceKind::DebugMessenger => if self.debug {
                1
            } else {
                0
            },
            ResourceKind::ImageView | ResourceKind::Framebuffer => self.swapchain_images as int,
            ResourceKind::DescriptorSetLayout | ResourceKind::TransferCommandPool => 0,
            ResourceKind::ImageAvailableSemaphore
            | ResourceKind::RenderFinishedSemaphore
            | ResourceKind::InFlightFence => self.frames as int,
            _ => 1,
        }
    }

    /// Number of objects of a kind that the renderer is made of.
    pub fn count(&self, kind: ResourceKind) -> (n: usize)
        ensures
            n == self.wanted(kind),
    {
        match kind {
            ResourceKind::DebugMessenger => if self.debug {
                1
            } else {
                0
            },
            ResourceKind::ImageView | ResourceKind::Framebuffer => self.swapchain_images,
            ResourceKind::DescriptorSetLayout | ResourceKind::TransferCommandPool => 0,
            ResourceKind::ImageAvailableSemaphore
            | ResourceKind::RenderFinishedSemaphore
            | ResourceKind::InFlightFence => self.frames,
            _ => 1,
        }
    }
}

/// The error that says that an object of a kind could not be built, with the
/// driver's status code. A surface has no code: the host builds it.
pub open spec fn spec_creation_error(kind: ResourceKind, code: i32) -> RendererError {
    match kind {
        ResourceKind::Instance => RendererError::FailedToCreateInstance(code),
        ResourceKind::DebugMessenger => RendererError::FailedToCreateDebugMessenger(code),
        ResourceKind::Surface => RendererError::FailedToCreateVulkanSurface,
        ResourceKind::Device => RendererError::FailedToCreateDevice(code),
        ResourceKind::RenderPass => RendererError::FailedToCreateRenderPass(code),
        ResourceKind::Swapchain => RendererError::FailedToCreateSwapchain(code),
        ResourceKind::ImageView => RendererError::FailedToCreateImageView(code),
        ResourceKind::Framebuffer => RendererError::FailedToCreateFramebuffer(code),
        ResourceKind::DescriptorSetLayout
        | ResourceKind::PipelineLayout => RendererError::FailedToCreatePipelineLayout(code),
        ResourceKind::Pipeline => RendererError::FailedToCreateGraphicsPipeline(code),
        ResourceKind::CommandPool
        | ResourceKind::TransferCommandPool => RendererError::FailedToCreateCommandPool(code),
        ResourceKind::ImageAvailableSemaphore
        | ResourceKind::RenderFinishedSemaphore
        | ResourceKind::InFlightFence => RendererError::FailedToCreateSyncObject(code),
    }
}

/// The error that says that an object of a kind could not be built.
pub fn creation_error(kind: ResourceKind, code: i32) -> (error: RendererError)
    ensures
        error == spec_creation_error(kind, code),
{
    match kind {
        ResourceKind::Instance => RendererError::FailedToCreateInstance(code),
        ResourceKind::DebugMessenger => RendererError::FailedToCreateDebugMessenger(code),
        ResourceKind::Surface => RendererError::FailedToCreateVulkanSurface,
        ResourceKind::Device => RendererError::FailedToCreateDevice(code),
        ResourceKind::RenderPass => RendererError::FailedToCreateRenderPass(code),
        ResourceKind::Swapchain => RendererError::FailedToCreateSwapchain(code),
        ResourceKind::ImageView => RendererError::FailedToCreateImageView(code),
        ResourceKind::Framebuffer => RendererError::FailedToCreateFramebuffer(code),
        ResourceKind::DescriptorSetLayout
        | ResourceKind::PipelineLayout => RendererError::FailedToCreatePipelineLayout(code),
        ResourceKind::Pipeline => RendererError::FailedToCreateGraphicsPipeline(code),
        ResourceKind::CommandPool
        | ResourceKind::TransferCommandPool => RendererError::FailedToCreateCommandPool(code),
        ResourceKind::ImageAvailableSemaphore
        | ResourceKind::RenderFinishedSemaphore
        | ResourceKind::InFlightFence => RendererError::FailedToCreateSyncObject(code),
    }
}

/// What a copy between two virtual buffers is made with.
#[derive(Clone, Copy, PartialEq, Eq, Debug, Structural)]
pub struct CopyPlan {
    pub queue_family: u32,
    pub command_pool: u64,
    pub src_buffer: u64,
    pub dst_buffer: u64,
    pub src_offset: u64,
    pub dst_offset: u64,
    pub size: u64,
}

/// How data reaches a device-local buffer: it is written into the range of the
/// staging buffer, and copied from there on the device.
#[derive(Clone, Copy, PartialEq, Eq, Debug, Structural)]
pub struct TransferPlan {
    pub upload: MappedRange,
    pub copy: CopyPlan,
}

/// The objects of one kind, in the order in which they were built.
pub open spec fn objects_of(kind: ResourceKind, handles: Seq<u64>) -> Seq<NativeObject> {
    Seq::new(handles.len(), |i: int| NativeObject::Object { kind, handle: handles[i] })
}

/// The pools that `allocations` back, in the order in which they were built.
pub open spec fn pool_objects(allocations: Seq<AllocRecord>) -> Seq<NativeObject> {
    Seq::new(
        allocations.len(),
        |i: int|
            NativeObject::Pool { buffer: allocations[i].buffer, memory: allocations[i].handle },
    )
}

/// Position of an object in the order of construction: that of its kind; a pool
/// comes after every kind.
pub open spec fn rank(object: NativeObject) -> int {
    match object {
        NativeObject::Object { kind, .. } => kind.order(),
        NativeObject::Pool { .. } => RESOURCE_KINDS as int,
    }
}

/// The object is live in a keeper with these handles and allocations.
pub open spec fn is_live_object(keeper: RendererResourceKeeper, object: NativeObject) -> bool {
    match object {
        NativeObject::Object { kind, handle } => keeper.handles(kind).contains(handle),
        NativeObject::Pool { buffer, memory } => exists|a: int|
            0 <= a < keeper.buffers().allocations().len()
                && (#[trigger] keeper.buffers().allocations()[a]).buffer == buffer
                && keeper.buffers().allocations()[a].handle == memory,
    }
}

/// The steps that destroy `objects`, the one that was built last first.
pub open spec fn destruction_of(objects: Seq<NativeObject>) -> Seq<TeardownAction> {
    Seq::new(
        objects.len(),
        |i: int| TeardownAction::Destroy(objects[objects.len() - 1 - i]),
    )
}

/// The native objects of the renderer, and what was learned on the way of
/// building them. A handle of 0 stands for an object that is not there.
pub struct RendererResourceKeeper {
    slots: Vec<Vec<u64>>,
    physical_device: u64,
    queue_families: QueueFamilyIndices,
    swapchain_info: Option<SwapchainSupportInfo>,
    buffer_manager: BufferManager,
    staging_buf: Option<VirtualBuffer>,
}

impl RendererResourceKeeper {
    /// The live objects of a kind, in the order in which they were built.
    pub closed spec fn handles(&self, kind: ResourceKind) -> Seq<u64> {
        self.slots@[kind.order()]@
    }

    /// The pools of device memory and what backs them.
    pub closed spec fn buffers(&self) -> BufferManager {
        self.buffer_manager
    }

    /// The physical device that was selected, 0 before that.
    pub closed spec fn spec_physical_device(&self) -> u64 {
        self.physical_device
    }

    /// The queue families that were chosen.
    pub closed spec fn spec_queue_families(&self) -> QueueFamilyIndices {
        self.queue_families
    }

    /// What the surface supported when the swapchain was built last.
    pub closed spec fn spec_swapchain_info(&self) -> Option<SwapchainSupportInfo> {
        self.swapchain_info
    }

    /// The staging buffer that uploads go through, once there is one.
    pub closed spec fn spec_staging_buf(&self) -> Option<VirtualBuffer> {
        self.staging_buf
    }

    /// An object of the kind is live.
    pub open spec fn is_live(&self, kind: ResourceKind) -> bool {
        self.handles(kind).len() > 0
    }

    /// The first live object of a kind, 0 where there is none.
    pub open spec fn handle(&self, kind: ResourceKind) -> u64 {
        if self.is_live(kind) {
            self.handles(kind)[0]
        } else {
            0
        }
    }

    /// The live objects of the kinds from position `from` on, and then the
    /// pools, in the order of construction.
    pub open spec fn log_from(&self, from: int) -> Seq<NativeObject>
        decreases RESOURCE_KINDS - from,
    {
        if from >= RESOURCE_KINDS {
            pool_objects(self.buffers().allocations())
        } else {
            objects_of(ResourceKind::at(from), self.handles(ResourceKind::at(from)))
                + self.log_from(from + 1)
        }
    }

    /// Everything that is live, in the order of construction.
    pub open spec fn constructed(&self) -> Seq<NativeObject> {
        self.log_from(0)
    }

    /// The live objects of the presentation subtree, in the order of
    /// construction.
    pub open spec fn presentation(&self) -> Seq<NativeObject> {
        objects_of(ResourceKind::Swapchain, self.handles(ResourceKind::Swapchain)) + objects_of(
            ResourceKind::ImageView,
            self.handles(ResourceKind::ImageView),
        ) + objects_of(ResourceKind::Framebuffer, self.handles(ResourceKind::Framebuffer))
    }

    /// What is live has what it needs: every live object has the kinds it needs
    /// live, no handle is 0, a kind that is single has at most one object, no
    /// framebuffer is without its image view, and pools exist only with a
    /// device.
    pub open spec fn deps_wf(&self) -> bool {
        &&& forall|kind: ResourceKind, other: ResourceKind|
            #![trigger self.is_live(kind), kind.needs(other)]
            self.is_live(kind) && kind.needs(other) ==> self.is_live(other)
        &&& forall|kind: ResourceKind, i: int|
            0 <= i < self.handles(kind).len() ==> #[trigger] self.handles(kind)[i] != 0
        &&& forall|kind: ResourceKind|
            kind.is_single() ==> (#[trigger] self.handles(kind)).len() <= 1
        &&& self.handles(ResourceKind::Framebuffer).len() <= self.handles(
            ResourceKind::ImageView,
        ).len()
        &&& self.buffers().allocations().len() > 0 ==> self.is_live(ResourceKind::Device)
        &&& self.spec_staging_buf() matches Some(staging) ==> self.buffers().owns(staging)
            && staging.buffer_type == BufferType::Staging
    }

    /// What holds of a keeper between calls.
    pub closed spec fn wf(&self) -> bool {
        &&& self.slots@.len() == RESOURCE_KINDS
        &&& self.buffer_manager.wf()
        &&& self.deps_wf()
    }

    /// A well-formed keeper has what `deps_wf` says, and well-formed pools.
    pub proof fn lemma_wf(&self)
        requires
            self.wf(),
        ensures
            self.deps_wf(),
            self.buffers().wf(),
    {
    }

    /// An object of the kind can be built now: what the kind needs is live, a
    /// single kind has no object yet, and a framebuffer has an image view to
    /// go with.
    pub open spec fn can_accept(&self, kind: ResourceKind) -> bool {
        &&& forall|other: ResourceKind| #[trigger] kind.needs(other) ==> self.is_live(other)
        &&& kind.is_single() ==> !self.is_live(kind)
        &&& kind == ResourceKind::Framebuffer ==> self.handles(ResourceKind::Framebuffer).len()
            < self.handles(ResourceKind::ImageView).len()
    }

    /// Nothing of a later kind is live, and there are no pools: an object of
    /// `kind` that is built now is the last thing built.
    pub open spec fn nothing_after(&self, kind: ResourceKind) -> bool {
        &&& forall|later: ResourceKind|
            later.order() > kind.order() ==> (#[trigger] self.handles(later)).len() == 0
        &&& self.buffers().allocations().len() == 0
    }

    /// The same objects are live as in `other`, with the same pools and the
    /// same staging buffer.
    pub open spec fn same_objects(&self, other: Self) -> bool {
        &&& forall|kind: ResourceKind| #[trigger] self.handles(kind) == other.handles(kind)
        &&& self.buffers() == other.buffers()
        &&& self.spec_staging_buf() == other.spec_staging_buf()
    }

    /// The same objects of every kind are live as in `other`, and the same
    /// facts about the device are known.
    pub open spec fn same_handles(&self, other: Self) -> bool {
        &&& forall|kind: ResourceKind| #[trigger] self.handles(kind) == other.handles(kind)
        &&& self.spec_physical_device() == other.spec_physical_device()
        &&& self.spec_queue_families() == other.spec_queue_families()
        &&& self.spec_swapchain_info() == other.spec_swapchain_info()
    }

    /// Every kind before position `upto` has as many objects as the plan wants.
    pub open spec fn built_upto(&self, plan: BuildPlan, upto: int) -> bool {
        forall|kind: ResourceKind|
            kind.order() < upto ==> (#[trigger] self.handles(kind)).len() >= plan.wanted(kind)
    }

    /// An object of `kind` is the next to build: the kind lacks objects, and no
    /// kind before it does.
    pub open spec fn is_next(&self, plan: BuildPlan, kind: ResourceKind) -> bool {
        &&& self.handles(kind).len() < plan.wanted(kind)
        &&& self.built_upto(plan, kind.order())
    }

    /// This keeper is `before` with one more object of a kind, the last of its
    /// kind, and nothing else changed.
    pub open spec fn grown_by(&self, before: Self, kind: ResourceKind, handle: u64) -> bool {
        &&& self.handles(kind) == before.handles(kind).push(handle)
        &&& forall|other: ResourceKind|
            other != kind ==> #[trigger] self.handles(other) == before.handles(other)
        &&& self.buffers() == before.buffers()
    }

    /// A course of construction by a plan: it begins with nothing built, and
    /// every step builds the object `built[i]`, which is of the kind that is
    /// next to build.
    pub open spec fn follows_plan(course: Seq<Self>, plan: BuildPlan, built: Seq<NativeObject>)
        -> bool {
        &&& course.len() == built.len() + 1
        &&& course[0].constructed() == Seq::<NativeObject>::empty()
        &&& course[0].in_order(plan)
        &&& forall|i: int|
            0 <= i < built.len() ==> (#[trigger] built[i] matches NativeObject::Object {
                kind,
                handle,
            } && course[i].is_next(plan, kind) && course[i + 1].grown_by(course[i], kind, handle))
    }

    /// Construction has followed the plan so far: a kind has objects only where
    /// every kind before it has all that the plan wants, and there are no
    /// pools yet.
    pub open spec fn in_order(&self, plan: BuildPlan) -> bool {
        &&& forall|kind: ResourceKind|
            (#[trigger] self.handles(kind)).len() > 0 ==> self.built_upto(plan, kind.order())
        &&& self.buffers().allocations().len() == 0
    }

    /// What the allocation of a device-local buffer for `data_len` bytes does:
    /// data longer than the staging buffer is refused with `ObjectTooBig` and
    /// nothing changes; else the buffer is allocated from the pools of its
    /// class, as `BufferManager::alloc_outcome` says.
    pub open spec fn upload_outcome(
        before: Self,
        after: Self,
        data_len: int,
        buffer_type: BufferType,
        created: Result<AllocStep, RendererError>,
    ) -> bool {
        &&& after.same_handles(before)
        &&& after.spec_staging_buf() == before.spec_staging_buf()
        &&& after.buffers().allocations() == before.buffers().allocations()
        &&& match created {
            Ok(step) => {
                &&& data_len <= STAGING_BUFFER_SIZE
                &&& BufferManager::alloc_outcome(
                    before.buffers(),
                    after.buffers(),
                    data_len as u64,
                    buffer_type,
                    step,
                )
                &&& forall|other: BufferType|
                    other != buffer_type ==> #[trigger] after.buffers().pools(other)
                        == before.buffers().pools(other)
            },
            Err(error) => {
                &&& data_len > STAGING_BUFFER_SIZE
                &&& error == RendererError::ObjectTooBig
                &&& after.buffers() == before.buffers()
            },
        }
    }

    /// A keeper in which nothing is live.
    pub fn new() -> (keeper: Self)
        ensures
            keeper.wf(),
            forall|kind: ResourceKind| #[trigger] keeper.handles(kind) == Seq::<u64>::empty(),
            keeper.buffers().allocations() == Seq::<AllocRecord>::empty(),
            forall|buffer_type: BufferType|
                #[trigger] keeper.buffers().pools(buffer_type).len() == 0,
            keeper.spec_physical_device() == 0,
            keeper.spec_queue_families().graphics_family is None,
            keeper.spec_queue_families().present_family is None,
            keeper.spec_queue_families().dedicated_transfer_family is None,
            keeper.spec_swapchain_info() is None,
            keeper.spec_staging_buf() is None,
            keeper.constructed() == Seq::<NativeObject>::empty(),
            forall|plan: BuildPlan| #[trigger] keeper.in_order(plan),
    {
        let slots = Self::empty_slots();
        let keeper = RendererResourceKeeper {
            slots,
            physical_device: 0,
            queue_families: QueueFamilyIndices::none(),
            swapchain_info: None,
            buffer_manager: BufferManager::new(),
            staging_buf: None,
        };
        proof {
            assert forall|kind: ResourceKind| #[trigger]
                keeper.handles(kind) == Seq::<u64>::empty() by {
                kind.lemma_order_at();
                assert(keeper.handles(kind) =~= Seq::<u64>::empty());
            }
            keeper.lemma_log_empty(0);
        }
        keeper
    }

    /// A slot for every kind, with nothing in it.
    fn empty_slots() -> (slots: Vec<Vec<u64>>)
        ensures
            slots@.len() == RESOURCE_KINDS,
            forall|k: int| 0 <= k < RESOURCE_KINDS ==> (#[trigger] slots@[k])@.len() == 0,
    {
        let mut slots: Vec<Vec<u64>> = Vec::new();
        let mut k: usize = 0;
        while k < RESOURCE_KINDS
            invariant
                k <= RESOURCE_KINDS,
                slots@.len() == k,
                forall|j: int| 0 <= j < k ==> (#[trigger] slots@[j])@.len() == 0,
            decreases RESOURCE_KINDS - k,
        {
            slots.push(Vec::new());
            k = k + 1;
        }
        slots
    }

    /// Whether an object of the kind is live.
    pub fn live(&self, kind: ResourceKind) -> (live: bool)
        requires
            self.wf(),
        ensures
            live == self.is_live(kind),
    {
        self.slots[kind.index()].len() > 0
    }

    /// The first live object of a kind, 0 where there is none.
    pub fn first_handle(&self, kind: ResourceKind) -> (handle: u64)
        requires
            self.wf(),
        ensures
            handle == self.handle(kind),
            (handle != 0) == self.is_live(kind),
    {
        let slot = &self.slots[kind.index()];
        if slot.len() > 0 {
            slot[0]
        } else {
            0
        }
    }

    /// The live objects of a kind, in the order in which they were built.
    pub fn all_handles(&self, kind: ResourceKind) -> (handles: &[u64])
        requires
            self.wf(),
        ensures
            handles@ == self.handles(kind),
    {
        self.slots[kind.index()].as_slice()
    }

    /// Whether an object of the kind can be built now.
    pub fn can_register(&self, kind: ResourceKind) -> (can: bool)
        requires
            self.wf(),
        ensures
            can == self.can_accept(kind),
    {
        let needs_met = match kind {
            ResourceKind::Instance => true,
            ResourceKind::DebugMessenger => self.live(ResourceKind::Instance),
            ResourceKind::Surface => self.live(ResourceKind::Instance),
            ResourceKind::Device => self.live(ResourceKind::Instance) && self.live(
                ResourceKind::Surface,
            ),
            ResourceKind::Swapchain => self.live(ResourceKind::Device) && self.live(
                ResourceKind::Surface,
            ),
            ResourceKind::ImageView => self.live(ResourceKind::Swapchain),
            ResourceKind::Framebuffer => self.live(ResourceKind::ImageView) && self.live(
                ResourceKind::RenderPass,
            ),
            ResourceKind::Pipeline => self.live(ResourceKind::PipelineLayout) && self.live(
                ResourceKind::RenderPass,
            ),
            _ => self.live(ResourceKind::Device),
        };
        let room = if kind.single() {
            !self.live(kind)
        } else {
            true
        };
        let paired = match kind {
            ResourceKind::Framebuffer => self.slots[ResourceKind::Framebuffer.index()].len()
                < self.slots[ResourceKind::ImageView.index()].len(),
            _ => true,
        };
        proof {
            let all_met = forall|other: ResourceKind| #[trigger]
                kind.needs(other) ==> self.is_live(other);
            if !needs_met {
                let missing = if !self.is_live(ResourceKind::Instance) && kind.needs(
                    ResourceKind::Instance,
                ) {
                    ResourceKind::Instance
                } else if !self.is_live(ResourceKind::Surface) && kind.needs(
                    ResourceKind::Surface,
                ) {
                    ResourceKind::Surface
                } else if !self.is_live(ResourceKind::Device) && kind.needs(ResourceKind::Device) {
                    ResourceKind::Device
                } else if !self.is_live(ResourceKind::Swapchain) && kind.needs(
                    ResourceKind::Swapchain,
                ) {
                    ResourceKind::Swapchain
                } else if !self.is_live(ResourceKind::ImageView) && kind.needs(
                    ResourceKind::ImageView,
                ) {
                    ResourceKind::ImageView
                } else if !self.is_live(ResourceKind::RenderPass) && kind.needs(
                    ResourceKind::RenderPass,
                ) {
                    ResourceKind::RenderPass
                } else {
                    ResourceKind::PipelineLayout
                };
                assert(kind.needs(missing) && !self.is_live(missing));
            }
            assert(needs_met == all_met);
            assert(room == (kind.is_single() ==> !self.is_live(kind)));
            assert(paired == (kind == ResourceKind::Framebuffer ==> self.handles(
                ResourceKind::Framebuffer,
            ).len() < self.handles(ResourceKind::ImageView).len()));
        }
        needs_met && room && paired
    }

    /// Takes note of an object that was built.
    pub fn register(&mut self, kind: ResourceKind, handle: u64)
        requires
            old(self).wf(),
            old(self).can_accept(kind),
            handle != 0,
        ensures
            final(self).wf(),
            final(self).handles(kind) == old(self).handles(kind).push(handle),
            forall|other: ResourceKind|
                other != kind ==> #[trigger] final(self).handles(other) == old(self).handles(other),
            final(self).buffers() == old(self).buffers(),
            final(self).spec_physical_device() == old(self).spec_physical_device(),
            final(self).spec_queue_families() == old(self).spec_queue_families(),
            final(self).spec_swapchain_info() == old(self).spec_swapchain_info(),
            final(self).spec_staging_buf() == old(self).spec_staging_buf(),
            final(self).grown_by(*old(self), kind, handle),
            old(self).nothing_after(kind) ==> final(self).constructed() == old(
                self,
            ).constructed().push(NativeObject::Object { kind, handle }),
    {
        let k = kind.index();
        self.slots[k].push(handle);
        proof {
            if old(self).nothing_after(kind) {
                Self::lemma_register_appends(*old(self), *self, kind, handle, 0);
            }
            assert forall|other: ResourceKind| other != kind implies #[trigger] self.handles(other)
                == old(self).handles(other) by {
                other.lemma_order_at();
                kind.lemma_order_at();
            }
            Self::lemma_grown(*old(self), *self, kind, handle);
        }
    }

    /// The kind of the object to build next, in the order of construction.
    /// `None` where everything that the plan wants is there.
    pub fn next_to_build(&self, plan: &BuildPlan) -> (next: Option<ResourceKind>)
        requires
            self.wf(),
        ensures
            match next {
                Some(kind) => self.is_next(*plan, kind) && self.can_accept(kind),
                None => self.built_upto(*plan, RESOURCE_KINDS as int),
            },
    {
        let mut k: usize = 0;
        while k < RESOURCE_KINDS
            invariant
                self.wf(),
                k <= RESOURCE_KINDS,
                self.built_upto(*plan, k as int),
            decreases RESOURCE_KINDS - k,
        {
            let kind = ResourceKind::from_index(k);
            if self.slots[k].len() < plan.count(kind) {
                proof {
                    self.lemma_next_can_be_built(*plan, kind);
                }
                return Some(kind);
            }
            proof {
                assert forall|other: ResourceKind| other.order() < k + 1 implies (
                #[trigger] self.handles(other)).len() >= plan.wanted(other) by {
                    other.lemma_order_at();
                    if other.order() == k {
                        assert(other == kind);
                    }
                }
            }
            k = k + 1;
        }
        None
    }

    /// The kind of synchronization object to build next, so that every frame
    /// slot of `count` has its two semaphores and its fence: first the
    /// semaphores that say that an image is available, then those that say that
    /// rendering has finished, then the fences. `None` where all are there.
    pub fn create_sync_objects(&self, count: usize) -> (next: Option<ResourceKind>)
        requires
            self.wf(),
        ensures
            next == if self.handles(ResourceKind::ImageAvailableSemaphore).len() < count {
                Some(ResourceKind::ImageAvailableSemaphore)
            } else if self.handles(ResourceKind::RenderFinishedSemaphore).len() < count {
                Some(ResourceKind::RenderFinishedSemaphore)
            } else if self.handles(ResourceKind::InFlightFence).len() < count {
                Some(ResourceKind::InFlightFence)
            } else {
                None
            },
    {
        if self.all_handles(ResourceKind::ImageAvailableSemaphore).len() < count {
            Some(ResourceKind::ImageAvailableSemaphore)
        } else if self.all_handles(ResourceKind::RenderFinishedSemaphore).len() < count {
            Some(ResourceKind::RenderFinishedSemaphore)
        } else if self.all_handles(ResourceKind::InFlightFence).len() < count {
            Some(ResourceKind::InFlightFence)
        } else {
            None
        }
    }

    /// What a swapchain for a window of `window_extent` is created with: the
    /// format, present mode, extent and image count that the surface's support
    /// selects, and images shared between the graphics and the present family
    /// exactly where these differ.
    pub fn create_swapchain(&self, swapchain_info: &SwapchainSupportInfo, window_extent: Extent2D)
        -> (plan: SwapchainPlan)
        requires
            self.wf(),
            swapchain_info.formats@.len() > 0,
            swapchain_info.capabilities.extent_is_free()
                ==> swapchain_info.capabilities.limits_ordered(),
            swapchain_info.capabilities.image_count() <= u32::MAX,
            self.spec_queue_families().graphics_family is Some,
            self.spec_queue_families().present_family is Some,
        ensures
            plan == (SwapchainPlan {
                surface: self.handle(ResourceKind::Surface),
                min_image_count: swapchain_info.capabilities.image_count() as u32,
                format: swapchain_info.spec_select_format().unwrap(),
                extent: swapchain_info.capabilities.extent_for(window_extent),
                present_mode: swapchain_info.spec_select_present_mode(),
                pre_transform: swapchain_info.capabilities.current_transform,
                sharing: if self.spec_queue_families().graphics_family
                    != self.spec_queue_families().present_family {
                    SharingMode::Concurrent
                } else {
                    SharingMode::Exclusive
                },
                graphics_family: self.spec_queue_families().graphics_family.unwrap(),
                present_family: self.spec_queue_families().present_family.unwrap(),
            }),
    {
        let format = match swapchain_info.select_format() {
            Some(format) => format,
            None => swapchain_info.formats[0],
        };
        let min_image_count = match swapchain_info.select_image_count() {
            Some(count) => count,
            None => swapchain_info.capabilities.min_image_count,
        };
        let graphics_family = match self.queue_families.graphics_family {
            Some(family) => family,
            None => 0,
        };
        let present_family = match self.queue_families.present_family {
            Some(family) => family,
            None => 0,
        };
        SwapchainPlan {
            surface: self.surface(),
            min_image_count,
            format,
            extent: swapchain_info.select_extent(window_extent),
            present_mode: swapchain_info.select_present_mode(),
            pre_transform: swapchain_info.capabilities.current_transform,
            sharing: if graphics_family != present_family {
                SharingMode::Concurrent
            } else {
                SharingMode::Exclusive
            },
            graphics_family,
            present_family,
        }
    }

    /// Takes note of the physical device that was selected.
    pub fn set_physical_device(&mut self, physical_device: u64)
        requires
            old(self).wf(),
        ensures
            final(self).wf(),
            final(self).spec_physical_device() == physical_device,
            final(self).same_objects(*old(self)),
            final(self).spec_queue_families() == old(self).spec_queue_families(),
            final(self).spec_swapchain_info() == old(self).spec_swapchain_info(),
    {
        self.physical_device = physical_device;
        proof {
            Self::lemma_handles_kept(*old(self), *self);
        }
    }

    /// Takes note of the queue families that were chosen.
    pub fn set_queue_families(&mut self, queue_families: QueueFamilyIndices)
        requires
            old(self).wf(),
        ensures
            final(self).wf(),
            final(self).spec_queue_families() == queue_families,
            final(self).same_objects(*old(self)),
            final(self).spec_physical_device() == old(self).spec_physical_device(),
            final(self).spec_swapchain_info() == old(self).spec_swapchain_info(),
    {
        self.queue_families = queue_families;
        proof {
            Self::lemma_handles_kept(*old(self), *self);
        }
    }

    /// Takes note of what the surface supported when the swapchain was built.
    pub fn set_swapchain_info(&mut self, swapchain_info: SwapchainSupportInfo)
        requires
            old(self).wf(),
        ensures
            final(self).wf(),
            final(self).spec_swapchain_info() == Some(swapchain_info),
            final(self).same_objects(*old(self)),
            final(self).spec_physical_device() == old(self).spec_physical_device(),
            final(self).spec_queue_families() == old(self).spec_queue_families(),
    {
        self.swapchain_info = Some(swapchain_info);
        proof {
            Self::lemma_handles_kept(*old(self), *self);
        }
    }

    /// Appends to `plan` the steps that destroy the objects `handles` of a kind,
    /// the one that was built last first.
    fn push_destruction(plan: &mut Vec<TeardownAction>, kind: ResourceKind, handles: &[u64])
        ensures
            final(plan)@ == old(plan)@ + destruction_of(objects_of(kind, handles@)),
    {
        let ghost all = destruction_of(objects_of(kind, handles@));
        let n = handles.len();
        let mut left: usize = n;
        while left > 0
            invariant
                n == handles@.len(),
                left <= n,
                all == destruction_of(objects_of(kind, handles@)),
                plan@ == old(plan)@ + all.take(n - left),
            decreases left,
        {
            left = left - 1;
            plan.push(TeardownAction::Destroy(NativeObject::Object { kind, handle: handles[left] }));
            assert(plan@ =~= old(plan)@ + all.take(n - left));
        }
        assert(all.take(n as int) =~= all);
    }

    /// Forgets the presentation subtree, and says what to destroy: the
    /// framebuffers, the image views and the swapchain, the one that was built
    /// last first. Nothing else changes.
    pub fn destroy_swapchain(&mut self) -> (plan: Vec<TeardownAction>)
        requires
            old(self).wf(),
        ensures
            final(self).wf(),
            plan@ == destruction_of(old(self).presentation()),
            forall|kind: ResourceKind|
                #![trigger final(self).handles(kind)]
                final(self).handles(kind) == if kind.is_presentation() {
                    Seq::<u64>::empty()
                } else {
                    old(self).handles(kind)
                },
            final(self).buffers() == old(self).buffers(),
            final(self).spec_physical_device() == old(self).spec_physical_device(),
            final(self).spec_queue_families() == old(self).spec_queue_families(),
            final(self).spec_swapchain_info() == old(self).spec_swapchain_info(),
            final(self).spec_staging_buf() == old(self).spec_staging_buf(),
    {
        let mut plan: Vec<TeardownAction> = Vec::new();
        Self::push_destruction(
            &mut plan,
            ResourceKind::Framebuffer,
            self.slots[ResourceKind::Framebuffer.index()].as_slice(),
        );
        Self::push_destruction(
            &mut plan,
            ResourceKind::ImageView,
            self.slots[ResourceKind::ImageView.index()].as_slice(),
        );
        Self::push_destruction(
            &mut plan,
            ResourceKind::Swapchain,
            self.slots[ResourceKind::Swapchain.index()].as_slice(),
        );
        proof {
            let swapchain = objects_of(
                ResourceKind::Swapchain,
                self.handles(ResourceKind::Swapchain),
            );
            let views = objects_of(ResourceKind::ImageView, self.handles(ResourceKind::ImageView));
            let framebuffers = objects_of(
                ResourceKind::Framebuffer,
                self.handles(ResourceKind::Framebuffer),
            );
            lemma_destruction_concat(swapchain, views);
            lemma_destruction_concat(swapchain + views, framebuffers);
            assert(plan@ =~= destruction_of(swapchain + views + framebuffers));
        }
        self.slots[ResourceKind::Framebuffer.index()].clear();
        self.slots[ResourceKind::ImageView.index()].clear();
        self.slots[ResourceKind::Swapchain.index()].clear();
        proof {
            assert forall|kind: ResourceKind| #![trigger self.handles(kind)]
                self.handles(kind) == if kind.is_presentation() {
                    Seq::<u64>::empty()
                } else {
                    old(self).handles(kind)
                } by {
                kind.lemma_order_at();
                if kind.is_presentation() {
                    assert(self.handles(kind) =~= Seq::<u64>::empty());
                }
            }
            Self::lemma_presentation_gone(*old(self), *self);
        }
        plan
    }

    /// Forgets everything that is live, and says what to do to destroy it:
    /// wait for the device, where there is one, and then destroy what was
    /// built, the object that was built last first.
    pub fn teardown(&mut self) -> (plan: Vec<TeardownAction>)
        requires
            old(self).wf(),
        ensures
            final(self).wf(),
            plan@ == (if old(self).is_live(ResourceKind::Device) {
                seq![TeardownAction::WaitDeviceIdle]
            } else {
                Seq::<TeardownAction>::empty()
            }) + destruction_of(old(self).constructed()),
            forall|kind: ResourceKind| #[trigger] final(self).handles(kind) == Seq::<u64>::empty(),
            final(self).buffers().allocations() == Seq::<AllocRecord>::empty(),
            forall|buffer_type: BufferType|
                #[trigger] final(self).buffers().pools(buffer_type).len() == 0,
            final(self).spec_physical_device() == 0,
            final(self).spec_queue_families().graphics_family is None,
            final(self).spec_queue_families().present_family is None,
            final(self).spec_queue_families().dedicated_transfer_family is None,
            final(self).spec_swapchain_info() is None,
            final(self).spec_staging_buf() is None,
    {
        let mut plan: Vec<TeardownAction> = Vec::new();
        if self.live(ResourceKind::Device) {
            plan.push(TeardownAction::WaitDeviceIdle);
        }
        let ghost prefix = plan@;
        let ghost allocations = self.buffer_manager.allocations();
        let pools = self.buffer_manager.destroy();
        let n = pools.len();
        let mut i: usize = 0;
        while i < n
            invariant
                n == pools@.len(),
                i <= n,
                pools@ == pool_handles(allocations).reverse(),
                plan@ == prefix + destruction_of(pool_objects(allocations)).take(i as int),
            decreases n - i,
        {
            plan.push(
                TeardownAction::Destroy(
                    NativeObject::Pool { buffer: pools[i].buffer, memory: pools[i].memory },
                ),
            );
            assert(plan@ =~= prefix + destruction_of(pool_objects(allocations)).take(i + 1));
            i = i + 1;
        }
        assert(destruction_of(pool_objects(allocations)).take(n as int) =~= destruction_of(
            pool_objects(allocations),
        ));

        let mut k: usize = RESOURCE_KINDS;
        while k > 0
            invariant
                k <= RESOURCE_KINDS,
                self.slots@ == old(self).slots@,
                self.slots@.len() == RESOURCE_KINDS,
                allocations == old(self).buffers().allocations(),
                plan@ == prefix + destruction_of(old(self).log_from(k as int)),
            decreases k,
        {
            k = k - 1;
            let kind = ResourceKind::from_index(k);
            Self::push_destruction(&mut plan, kind, self.slots[k].as_slice());
            proof {
                lemma_destruction_concat(
                    objects_of(kind, old(self).handles(kind)),
                    old(self).log_from(k + 1),
                );
            }
        }
        self.slots = Self::empty_slots();
        self.physical_device = 0;
        self.queue_families = QueueFamilyIndices::none();
        self.swapchain_info = None;
        self.staging_buf = None;
        proof {
            assert forall|kind: ResourceKind| #[trigger]
                self.handles(kind) == Seq::<u64>::empty() by {
                kind.lemma_order_at();
                assert(self.handles(kind) =~= Seq::<u64>::empty());
            }
        }
        plan
    }

    /// Allocates a virtual buffer of a class from the pools that exist. Where no
    /// pool has room, nothing changes and the result says what pool to create.
    pub fn alloc_vbuffer(&mut self, vbuffer_size: u64, buffer_type: BufferType) -> (step:
        AllocStep)
        requires
            old(self).wf(),
        ensures
            final(self).wf(),
            final(self).same_handles(*old(self)),
            final(self).spec_staging_buf() == old(self).spec_staging_buf(),
            final(self).buffers().wf(),
            final(self).buffers().allocations() == old(self).buffers().allocations(),
            forall|other: BufferType|
                other != buffer_type ==> #[trigger] final(self).buffers().pools(other) == old(
                    self,
                ).buffers().pools(other),
            BufferManager::alloc_outcome(
                old(self).buffers(),
                final(self).buffers(),
                vbuffer_size,
                buffer_type,
                step,
            ),
    {
        let step = self.buffer_manager.alloc_vbuffer(vbuffer_size, buffer_type);
        proof {
            Self::lemma_handles_kept(*old(self), *self);
        }
        step
    }

    /// Takes a pool that the caller created and allocates a virtual buffer at
    /// its start. A request that, rounded up to the pool's alignment, is larger
    /// than the pool is refused with `ObjectTooBig`: then the pool is not
    /// taken, and the keeper stays as it is.
    pub fn alloc_in_new_pool(
        &mut self,
        buffer_type: BufferType,
        created: CreatedPool,
        vbuffer_size: u64,
    ) -> (allocated: Result<VirtualBuffer, RendererError>)
        requires
            old(self).wf(),
            old(self).is_live(ResourceKind::Device),
            created.alignment > 0,
        ensures
            final(self).wf(),
            final(self).same_handles(*old(self)),
            final(self).spec_staging_buf() == old(self).spec_staging_buf(),
            final(self).buffers().wf(),
            forall|other: BufferType|
                other != buffer_type ==> #[trigger] final(self).buffers().pools(other) == old(
                    self,
                ).buffers().pools(other),
            match allocated {
                Ok(vbuffer) => {
                    &&& crate::renderer::alloc_table::align_up(
                        vbuffer_size as int,
                        created.alignment as int,
                    ) <= created.size
                    &&& vbuffer == VirtualBuffer {
                        buffer_idx: old(self).buffers().pools(buffer_type).len() as usize,
                        buffer_type,
                        buffer_handle: created.buffer,
                        size: vbuffer_size,
                        offset: 0,
                    }
                    &&& final(self).buffers().allocations() == old(
                        self,
                    ).buffers().allocations().push(
                        AllocRecord {
                            handle: created.memory,
                            size: created.size,
                            buffer: created.buffer,
                        },
                    )
                    &&& final(self).buffers().pools(buffer_type) == old(self).buffers().pools(
                        buffer_type,
                    ).push(
                        PoolModel::fresh(
                            created,
                            old(self).buffers().allocations().len() as int,
                        ).after_fit(vbuffer_size),
                    )
                    &&& final(self).constructed() == old(self).constructed().push(
                        NativeObject::Pool { buffer: created.buffer, memory: created.memory },
                    )
                },
                Err(error) => {
                    &&& crate::renderer::alloc_table::align_up(
                        vbuffer_size as int,
                        created.alignment as int,
                    ) > created.size
                    &&& error == RendererError::ObjectTooBig
                    &&& *final(self) == *old(self)
                },
            },
    {
        let allocated = self.buffer_manager.alloc_in_new_pool(buffer_type, created, vbuffer_size);
        proof {
            if allocated is Ok {
                Self::lemma_handles_kept(*old(self), *self);
                Self::lemma_pool_appends(*old(self), *self, created, 0);
            }
        }
        allocated
    }

    /// Gives the units of a virtual buffer back to its pool.
    pub fn free_vbuffer(&mut self, vbuffer: &VirtualBuffer)
        requires
            old(self).wf(),
            old(self).buffers().owns(*vbuffer),
        ensures
            final(self).wf(),
            final(self).same_handles(*old(self)),
            final(self).spec_staging_buf() == old(self).spec_staging_buf(),
            final(self).buffers().wf(),
            final(self).buffers().allocations() == old(self).buffers().allocations(),
            forall|other: BufferType|
                other != vbuffer.buffer_type ==> #[trigger] final(self).buffers().pools(other)
                    == old(self).buffers().pools(other),
            final(self).buffers().pools(vbuffer.buffer_type) == old(self).buffers().pools(
                vbuffer.buffer_type,
            ).update(
                vbuffer.buffer_idx as int,
                old(self).buffers().pools(vbuffer.buffer_type)[vbuffer.buffer_idx as int].after_free(
                    vbuffer.offset,
                ),
            ),
    {
        self.buffer_manager.free_vbuffer(vbuffer);
        proof {
            Self::lemma_handles_kept(*old(self), *self);
        }
    }

    /// The staging buffer that uploads go through. The first call allocates it
    /// from the staging pools and keeps it; later calls hand the same buffer
    /// out. Where it is yet to be allocated and no staging pool has room,
    /// nothing changes and the result says what pool to create.
    pub fn get_staging_vbuffer(&mut self) -> (step: AllocStep)
        requires
            old(self).wf(),
        ensures
            final(self).wf(),
            final(self).same_handles(*old(self)),
            match old(self).spec_staging_buf() {
                Some(staging) => step == AllocStep::Placed(staging) && final(self).buffers()
                    == old(self).buffers() && final(self).spec_staging_buf() == old(
                    self,
                ).spec_staging_buf(),
                None => {
                    &&& BufferManager::alloc_outcome(
                        old(self).buffers(),
                        final(self).buffers(),
                        STAGING_BUFFER_SIZE,
                        BufferType::Staging,
                        step,
                    )
                    &&& final(self).buffers().allocations() == old(self).buffers().allocations()
                    &&& forall|other: BufferType|
                        other != BufferType::Staging ==> #[trigger] final(self).buffers().pools(
                            other,
                        ) == old(self).buffers().pools(other)
                    &&& final(self).spec_staging_buf() == match step {
                        AllocStep::Placed(staging) => Some(staging),
                        AllocStep::NeedsPool(_) => None,
                    }
                },
            },
    {
        match self.staging_buf {
            Some(staging) => AllocStep::Placed(staging),
            None => {
                let step = self.buffer_manager.alloc_staging_vbuffer(STAGING_BUFFER_SIZE);
                match step {
                    AllocStep::Placed(staging) => {
                        self.staging_buf = Some(staging);
                    },
                    AllocStep::NeedsPool(_) => {},
                }
                proof {
                    Self::lemma_handles_kept(*old(self), *self);
                }
                step
            },
        }
    }

    /// Takes a staging pool that the caller created, allocates the staging
    /// buffer at its start and keeps it. A pool that cannot hold the staging
    /// buffer is refused with `ObjectTooBig`: then the pool is not taken, and
    /// the keeper stays as it is.
    pub fn staging_in_new_pool(&mut self, created: CreatedPool) -> (allocated: Result<
        VirtualBuffer,
        RendererError,
    >)
        requires
            old(self).wf(),
            old(self).is_live(ResourceKind::Device),
            old(self).spec_staging_buf() is None,
            created.alignment > 0,
        ensures
            final(self).wf(),
            final(self).same_handles(*old(self)),
            match allocated {
                Ok(vbuffer) => {
                    &&& crate::renderer::alloc_table::align_up(
                        STAGING_BUFFER_SIZE as int,
                        created.alignment as int,
                    ) <= created.size
                    &&& vbuffer == VirtualBuffer {
                        buffer_idx: old(self).buffers().pools(BufferType::Staging).len() as usize,
                        buffer_type: BufferType::Staging,
                        buffer_handle: created.buffer,
                        size: STAGING_BUFFER_SIZE,
                        offset: 0,
                    }
                    &&& final(self).spec_staging_buf() == Some(vbuffer)
                    &&& final(self).buffers().allocations() == old(
                        self,
                    ).buffers().allocations().push(
                        AllocRecord {
                            handle: created.memory,
                            size: created.size,
                            buffer: created.buffer,
                        },
                    )
                    &&& final(self).buffers().pools(BufferType::Staging) == old(
                        self,
                    ).buffers().pools(BufferType::Staging).push(
                        PoolModel::fresh(
                            created,
                            old(self).buffers().allocations().len() as int,
                        ).after_fit(STAGING_BUFFER_SIZE),
                    )
                    &&& forall|other: BufferType|
                        other != BufferType::Staging ==> #[trigger] final(self).buffers().pools(
                            other,
                        ) == old(self).buffers().pools(other)
                    &&& final(self).constructed() == old(self).constructed().push(
                        NativeObject::Pool { buffer: created.buffer, memory: created.memory },
                    )
                },
                Err(error) => {
                    &&& crate::renderer::alloc_table::align_up(
                        STAGING_BUFFER_SIZE as int,
                        created.alignment as int,
                    ) > created.size
                    &&& error == RendererError::ObjectTooBig
                    &&& *final(self) == *old(self)
                },
            },
    {
        let allocated = self.buffer_manager.alloc_in_new_pool(
            BufferType::Staging,
            created,
            STAGING_BUFFER_SIZE,
        );
        match allocated {
            Ok(staging) => {
                self.staging_buf = Some(staging);
                proof {
                    Self::lemma_handles_kept(*old(self), *self);
                    Self::lemma_pool_appends(*old(self), *self, created, 0);
                }
            },
            Err(_) => {},
        }
        allocated
    }

    /// The range of device memory to map for writing `data_len` bytes into the
    /// staging buffer.
    pub fn direct_upload(&self, vbuffer: &VirtualBuffer, data_len: usize) -> (range: Result<
        MappedRange,
        RendererError,
    >)
        requires
            self.wf(),
            data_len <= vbuffer.size ==> self.buffers().owns(*vbuffer)
                && vbuffer.buffer_type.spec_host_visible(),
        ensures
            match range {
                Ok(mapped) => {
                    &&& data_len <= vbuffer.size
                    &&& mapped.memory == self.buffers().allocations()[self.buffers().pools(
                        vbuffer.buffer_type,
                    )[vbuffer.buffer_idx as int].alloc_idx].handle
                    &&& mapped.offset == vbuffer.offset
                    &&& mapped.size == data_len
                },
                Err(error) => data_len > vbuffer.size && error == RendererError::ObjectTooBig,
            },
    {
        self.buffer_manager.direct_upload(vbuffer, data_len)
    }

    /// Allocates the vertex buffer for `data_len` bytes of vertex data. Data
    /// that does not fit the staging buffer is refused.
    pub fn create_vertex_vbuffer(&mut self, data_len: usize) -> (created: Result<
        AllocStep,
        RendererError,
    >)
        requires
            old(self).wf(),
        ensures
            final(self).wf(),
            Self::upload_outcome(*old(self), *final(self), data_len as int, BufferType::Vertex, created),
    {
        self.create_vbuffer(data_len, BufferType::Vertex)
    }

    /// Allocates the index buffer for `index_count` indices of two bytes each.
    /// Data that does not fit the staging buffer is refused.
    pub fn create_index_vbuffer(&mut self, index_count: usize) -> (created: Result<
        AllocStep,
        RendererError,
    >)
        requires
            old(self).wf(),
            index_count * 2 <= usize::MAX,
        ensures
            final(self).wf(),
            Self::upload_outcome(
                *old(self),
                *final(self),
                index_count * 2,
                BufferType::Index,
                created,
            ),
    {
        self.create_vbuffer(index_count * 2, BufferType::Index)
    }

    /// Allocates the uniform buffer for `data_len` bytes. Data that does not fit
    /// the staging buffer is refused.
    pub fn create_uniform_vbuffer(&mut self, data_len: usize) -> (created: Result<
        AllocStep,
        RendererError,
    >)
        requires
            old(self).wf(),
        ensures
            final(self).wf(),
            Self::upload_outcome(*old(self), *final(self), data_len as int, BufferType::Uniform, created),
    {
        self.create_vbuffer(data_len, BufferType::Uniform)
    }

    /// Allocates a device-local buffer for `data_len` bytes.
    fn create_vbuffer(&mut self, data_len: usize, buffer_type: BufferType) -> (created: Result<
        AllocStep,
        RendererError,
    >)
        requires
            old(self).wf(),
        ensures
            final(self).wf(),
            Self::upload_outcome(*old(self), *final(self), data_len as int, buffer_type, created),
    {
        let data_size: u64 = data_len as u64;
        if data_size > STAGING_BUFFER_SIZE {
            return Err(RendererError::ObjectTooBig);
        }
        Ok(self.alloc_vbuffer(data_size, buffer_type))
    }

    /// What a copy of `data_size` units from one virtual buffer to another is
    /// made with: the dedicated transfer family where there is one, else the
    /// graphics family; the command pool for transfers where there is one,
    /// else the general one; and the offsets of the two buffers.
    pub fn buf_copy_op(&self, src_buf: &VirtualBuffer, dst_buf: &VirtualBuffer, data_size: u64)
        -> (plan: CopyPlan)
        requires
            self.wf(),
            self.spec_queue_families().dedicated_transfer_family is Some
                || self.spec_queue_families().graphics_family is Some,
        ensures
            plan == (CopyPlan {
                queue_family: if self.spec_queue_families().dedicated_transfer_family is Some {
                    self.spec_queue_families().dedicated_transfer_family.unwrap()
                } else {
                    self.spec_queue_families().graphics_family.unwrap()
                },
                command_pool: if self.is_live(ResourceKind::TransferCommandPool) {
                    self.handle(ResourceKind::TransferCommandPool)
                } else {
                    self.handle(ResourceKind::CommandPool)
                },
                src_buffer: src_buf.buffer_handle,
                dst_buffer: dst_buf.buffer_handle,
                src_offset: src_buf.offset,
                dst_offset: dst_buf.offset,
                size: data_size,
            }),
    {
        let queue_family = match self.queue_families.dedicated_transfer_family {
            Some(family) => family,
            None => match self.queue_families.graphics_family {
                Some(family) => family,
                None => 0,
            },
        };
        let transfer_pool = self.dedicated_transfer_command_pool();
        let command_pool = if transfer_pool != 0 {
            transfer_pool
        } else {
            self.command_pool()
        };
        CopyPlan {
            queue_family,
            command_pool,
            src_buffer: src_buf.buffer_handle,
            dst_buffer: dst_buf.buffer_handle,
            src_offset: src_buf.offset,
            dst_offset: dst_buf.offset,
            size: data_size,
        }
    }

    /// How `data_len` bytes reach the device-local buffer `target`: the host
    /// writes them into the staging buffer, and the device copies them from
    /// there. Data that is longer than either buffer is refused.
    pub fn transfer(&self, staging: &VirtualBuffer, target: &VirtualBuffer, data_len: usize) -> (
        plan: Result<TransferPlan, RendererError>)
        requires
            self.wf(),
            data_len <= staging.size && data_len <= target.size ==> {
                &&& self.buffers().owns(*staging)
                &&& staging.buffer_type.spec_host_visible()
                &&& !target.buffer_type.spec_host_visible()
                &&& self.spec_queue_families().dedicated_transfer_family is Some
                    || self.spec_queue_families().graphics_family is Some
            },
        ensures
            match plan {
                Ok(transfer) => {
                    &&& data_len <= staging.size
                    &&& data_len <= target.size
                    &&& transfer.upload == (MappedRange {
                        memory: self.buffers().allocations()[self.buffers().pools(
                            staging.buffer_type,
                        )[staging.buffer_idx as int].alloc_idx].handle,
                        offset: staging.offset,
                        size: data_len as u64,
                    })
                    &&& transfer.copy == (CopyPlan {
                        queue_family: if self.spec_queue_families().dedicated_transfer_family
                            is Some {
                            self.spec_queue_families().dedicated_transfer_family.unwrap()
                        } else {
                            self.spec_queue_families().graphics_family.unwrap()
                        },
                        command_pool: if self.is_live(ResourceKind::TransferCommandPool) {
                            self.handle(ResourceKind::TransferCommandPool)
                        } else {
                            self.handle(ResourceKind::CommandPool)
                        },
                        src_buffer: staging.buffer_handle,
                        dst_buffer: target.buffer_handle,
                        src_offset: staging.offset,
                        dst_offset: target.offset,
                        size: data_len as u64,
                    })
                },
                Err(error) => {
                    &&& data_len > staging.size || data_len > target.size
                    &&& error == RendererError::ObjectTooBig
                },
            },
    {
        let data_size: u64 = data_len as u64;
        if data_size > target.size {
            return Err(RendererError::ObjectTooBig);
        }
        match self.direct_upload(staging, data_len) {
            Ok(upload) => Ok(
                TransferPlan { upload, copy: self.buf_copy_op(staging, target, data_size) },
            ),
            Err(error) => Err(error),
        }
    }

    /// The instance, 0 where there is none.
    pub fn instance(&self) -> (handle: u64)
        requires
            self.wf(),
        ensures
            handle == self.handle(ResourceKind::Instance),
            (handle != 0) == self.is_live(ResourceKind::Instance),
    {
        self.first_handle(ResourceKind::Instance)
    }

    /// The debug messenger, 0 where there is none.
    pub fn debug_messenger(&self) -> (handle: u64)
        requires
            self.wf(),
        ensures
            handle == self.handle(ResourceKind::DebugMessenger),
            (handle != 0) == self.is_live(ResourceKind::DebugMessenger),
    {
        self.first_handle(ResourceKind::DebugMessenger)
    }

    /// The surface, 0 where there is none.
    pub fn surface(&self) -> (handle: u64)
        requires
            self.wf(),
        ensures
            handle == self.handle(ResourceKind::Surface),
            (handle != 0) == self.is_live(ResourceKind::Surface),
    {
        self.first_handle(ResourceKind::Surface)
    }

    /// The physical device that was selected, 0 before that.
    pub fn physical_device(&self) -> (handle: u64)
        ensures
            handle == self.spec_physical_device(),
    {
        self.physical_device
    }

    /// The queue families that were chosen.
    pub fn queue_families(&self) -> (families: &QueueFamilyIndices)
        ensures
            *families == self.spec_queue_families(),
    {
        &self.queue_families
    }

    /// The device, 0 where there is none.
    pub fn device(&self) -> (handle: u64)
        requires
            self.wf(),
        ensures
            handle == self.handle(ResourceKind::Device),
            (handle != 0) == self.is_live(ResourceKind::Device),
    {
        self.first_handle(ResourceKind::Device)
    }

    /// The swapchain, 0 where there is none.
    pub fn swapchain(&self) -> (handle: u64)
        requires
            self.wf(),
        ensures
            handle == self.handle(ResourceKind::Swapchain),
            (handle != 0) == self.is_live(ResourceKind::Swapchain),
    {
        self.first_handle(ResourceKind::Swapchain)
    }

    /// What the surface supported when the swapchain was built last.
    pub fn swapchain_info(&self) -> (info: &Option<SwapchainSupportInfo>)
        ensures
            *info == self.spec_swapchain_info(),
    {
        &self.swapchain_info
    }

    /// The image views of the swapchain, in the order of its images.
    pub fn swapchain_image_views(&self) -> (handles: &[u64])
        requires
            self.wf(),
        ensures
            handles@ == self.handles(ResourceKind::ImageView),
    {
        self.all_handles(ResourceKind::ImageView)
    }

    /// The render pass, 0 where there is none.
    pub fn render_pass(&self) -> (handle: u64)
        requires
            self.wf(),
        ensures
            handle == self.handle(ResourceKind::RenderPass),
            (handle != 0) == self.is_live(ResourceKind::RenderPass),
    {
        self.first_handle(ResourceKind::RenderPass)
    }

    /// The descriptor set layout, 0 where there is none.
    pub fn descriptor_set_layout(&self) -> (handle: u64)
        requires
            self.wf(),
        ensures
            handle == self.handle(ResourceKind::DescriptorSetLayout),
            (handle != 0) == self.is_live(ResourceKind::DescriptorSetLayout),
    {
        self.first_handle(ResourceKind::DescriptorSetLayout)
    }

    /// The pipeline layout, 0 where there is none.
    pub fn pipeline_layout(&self) -> (handle: u64)
        requires
            self.wf(),
        ensures
            handle == self.handle(ResourceKind::PipelineLayout),
            (handle != 0) == self.is_live(ResourceKind::PipelineLayout),
    {
        self.first_handle(ResourceKind::PipelineLayout)
    }

    /// The pipeline, 0 where there is none.
    pub fn pipeline(&self) -> (handle: u64)
        requires
            self.wf(),
        ensures
            handle == self.handle(ResourceKind::Pipeline),
            (handle != 0) == self.is_live(ResourceKind::Pipeline),
    {
        self.first_handle(ResourceKind::Pipeline)
    }

    /// The framebuffers, one for each image view that has one.
    pub fn framebuffers(&self) -> (handles: &[u64])
        requires
            self.wf(),
        ensures
            handles@ == self.handles(ResourceKind::Framebuffer),
    {
        self.all_handles(ResourceKind::Framebuffer)
    }

    /// The command pool, 0 where there is none.
    pub fn command_pool(&self) -> (handle: u64)
        requires
            self.wf(),
        ensures
            handle == self.handle(ResourceKind::CommandPool),
            (handle != 0) == self.is_live(ResourceKind::CommandPool),
    {
        self.first_handle(ResourceKind::CommandPool)
    }

    /// The command pool for transfers, 0 where there is none.
    pub fn dedicated_transfer_command_pool(&self) -> (handle: u64)
        requires
            self.wf(),
        ensures
            handle == self.handle(ResourceKind::TransferCommandPool),
            (handle != 0) == self.is_live(ResourceKind::TransferCommandPool),
    {
        self.first_handle(ResourceKind::TransferCommandPool)
    }

    /// The semaphores that say that an image is available, by frame slot.
    pub fn img_available_semaphores(&self) -> (handles: &[u64])
        requires
            self.wf(),
        ensures
            handles@ == self.handles(ResourceKind::ImageAvailableSemaphore),
    {
        self.all_handles(ResourceKind::ImageAvailableSemaphore)
    }

    /// The semaphores that say that rendering has finished, by frame slot.
    pub fn render_finished_semaphores(&self) -> (handles: &[u64])
        requires
            self.wf(),
        ensures
            handles@ == self.handles(ResourceKind::RenderFinishedSemaphore),
    {
        self.all_handles(ResourceKind::RenderFinishedSemaphore)
    }

    /// The fences of the frames in flight, by frame slot.
    pub fn in_flight_fences(&self) -> (handles: &[u64])
        requires
            self.wf(),
        ensures
            handles@ == self.handles(ResourceKind::InFlightFence),
    {
        self.all_handles(ResourceKind::InFlightFence)
    }

    /// The pools of device memory.
    pub fn buffer_manager(&self) -> (manager: &BufferManager)
        requires
            self.wf(),
        ensures
            *manager == self.buffers(),
            manager.wf(),
    {
        &self.buffer_manager
    }

    /// Building in the order of construction never lacks anything: the object
    /// that is next to build has everything that its kind needs.
    pub proof fn lemma_next_can_be_built(&self, plan: BuildPlan, kind: ResourceKind)
        requires
            self.deps_wf(),
            self.is_next(plan, kind),
        ensures
            self.can_accept(kind),
    {
        assert forall|other: ResourceKind| #[trigger] kind.needs(other) implies self.is_live(
            other,
        ) by {
            kind.lemma_needs_earlier(other);
            assert(self.handles(other).len() >= plan.wanted(other));
            if other == ResourceKind::ImageView {
                assert(self.handles(ResourceKind::Framebuffer).len() < plan.wanted(
                    ResourceKind::Framebuffer,
                ));
            }
        }
        if kind.is_single() {
            assert(plan.wanted(kind) <= 1);
        }
        if kind == ResourceKind::Framebuffer {
            assert(self.handles(ResourceKind::ImageView).len() >= plan.wanted(
                ResourceKind::ImageView,
            ));
        }
    }

    /// Every object that is built when it is next to build is the last thing
    /// built: a renderer that is built as `next_to_build` says, from nothing
    /// on, records its objects in the order in which they were built, so that a
    /// teardown at any point destroys them in exactly the reverse order.
    /// `after` is the keeper after the object was registered.
    pub proof fn lemma_building_in_order_appends(
        before: Self,
        after: Self,
        plan: BuildPlan,
        kind: ResourceKind,
        handle: u64,
    )
        requires
            before.in_order(plan),
            before.is_next(plan, kind),
            after.handles(kind) == before.handles(kind).push(handle),
            forall|other: ResourceKind|
                other != kind ==> #[trigger] after.handles(other) == before.handles(other),
            after.buffers() == before.buffers(),
        ensures
            after.in_order(plan),
            after.constructed() == before.constructed().push(
                NativeObject::Object { kind, handle },
            ),
            destruction_of(after.constructed()) == seq![
                TeardownAction::Destroy(NativeObject::Object { kind, handle }),
            ] + destruction_of(before.constructed()),
    {
        assert forall|later: ResourceKind| later.order() > kind.order() implies (
        #[trigger] before.handles(later)).len() == 0 by {
            if before.handles(later).len() > 0 {
                assert(before.built_upto(plan, later.order()));
                assert(before.handles(kind).len() >= plan.wanted(kind));
            }
        }
        Self::lemma_register_appends(before, after, kind, handle, 0);
        assert forall|other: ResourceKind| (#[trigger] after.handles(other)).len()
            > 0 implies after.built_upto(plan, other.order()) by {
            assert forall|earlier: ResourceKind| earlier.order() < other.order() implies (
            #[trigger] after.handles(earlier)).len() >= plan.wanted(earlier) by {
                if other == kind {
                    assert(before.handles(earlier).len() >= plan.wanted(earlier));
                } else {
                    assert(before.handles(other).len() > 0);
                    assert(before.built_upto(plan, other.order()));
                    assert(before.handles(earlier).len() >= plan.wanted(earlier));
                }
                if earlier != kind {
                    assert(after.handles(earlier) == before.handles(earlier));
                }
            }
        }
        lemma_destruction_concat(
            before.constructed(),
            seq![NativeObject::Object { kind, handle }],
        );
        assert(before.constructed().push(NativeObject::Object { kind, handle })
            =~= before.constructed() + seq![NativeObject::Object { kind, handle }]);
        assert(destruction_of(seq![NativeObject::Object { kind, handle }]) =~= seq![
            TeardownAction::Destroy(NativeObject::Object { kind, handle }),
        ]);
    }

    /// However far a construction by a plan gets, what was built is recorded
    /// in the order in which it was built: a teardown after the step at which
    /// the construction stops destroys exactly the objects built before it,
    /// the one that was built last first.
    pub proof fn lemma_course_is_recorded(
        course: Seq<Self>,
        plan: BuildPlan,
        built: Seq<NativeObject>,
    )
        requires
            Self::follows_plan(course, plan, built),
        ensures
            course.last().constructed() == built,
            course.last().in_order(plan),
            destruction_of(course.last().constructed()) == destruction_of(built),
        decreases built.len(),
    {
        if built.len() == 0 {
            assert(built =~= Seq::<NativeObject>::empty());
        } else {
            let n = built.len() as int;
            let shorter = course.drop_last();
            let fewer = built.drop_last();
            assert forall|i: int| 0 <= i < fewer.len() implies (#[trigger] fewer[i]
                matches NativeObject::Object { kind, handle } && shorter[i].is_next(plan, kind)
                && shorter[i + 1].grown_by(shorter[i], kind, handle)) by {
                assert(fewer[i] == built[i]);
                assert(shorter[i] == course[i]);
                assert(shorter[i + 1] == course[i + 1]);
            }
            Self::lemma_course_is_recorded(shorter, plan, fewer);
            assert(shorter.last() == course[n - 1]);
            match built[n - 1] {
                NativeObject::Object { kind, handle } => {
                    Self::lemma_building_in_order_appends(
                        course[n - 1],
                        course[n],
                        plan,
                        kind,
                        handle,
                    );
                    assert(built =~= fewer.push(built[n - 1]));
                },
                NativeObject::Pool { .. } => {},
            }
        }
    }

    /// What was built from position `from` on is what is live of these kinds and
    /// the pools, in the order of construction.
    pub proof fn lemma_log(&self, from: int)
        requires
            0 <= from <= RESOURCE_KINDS,
        ensures
            forall|j: int|
                0 <= j < self.log_from(from).len() ==> from <= rank(
                    #[trigger] self.log_from(from)[j],
                ) && is_live_object(*self, self.log_from(from)[j]),
            forall|i: int, j: int|
                0 <= i <= j < self.log_from(from).len() ==> rank(#[trigger] self.log_from(from)[i])
                    <= rank(#[trigger] self.log_from(from)[j]),
            forall|kind: ResourceKind, i: int|
                from <= kind.order() && 0 <= i < self.handles(kind).len() ==> self.log_from(
                    from,
                ).contains(NativeObject::Object { kind, handle: #[trigger] self.handles(kind)[i] }),
            forall|a: int|
                0 <= a < self.buffers().allocations().len() ==> self.log_from(from).contains(
                    NativeObject::Pool {
                        buffer: (#[trigger] self.buffers().allocations()[a]).buffer,
                        memory: self.buffers().allocations()[a].handle,
                    },
                ),
        decreases RESOURCE_KINDS - from,
    {
        let log = self.log_from(from);
        if from >= RESOURCE_KINDS {
            let allocations = self.buffers().allocations();
            assert forall|j: int| 0 <= j < log.len() implies from <= rank(#[trigger] log[j])
                && is_live_object(*self, log[j]) by {
                assert(allocations[j].buffer == allocations[j].buffer);
            }
            assert forall|kind: ResourceKind, i: int|
                from <= kind.order() && 0 <= i < self.handles(kind).len() implies log.contains(
                NativeObject::Object { kind, handle: #[trigger] self.handles(kind)[i] },
            ) by {
                kind.lemma_order_at();
            }
            assert forall|a: int| 0 <= a < allocations.len() implies log.contains(
                NativeObject::Pool {
                    buffer: (#[trigger] allocations[a]).buffer,
                    memory: allocations[a].handle,
                },
            ) by {
                assert(log[a] == NativeObject::Pool {
                    buffer: allocations[a].buffer,
                    memory: allocations[a].handle,
                });
            }
        } else {
            self.lemma_log(from + 1);
            let here = ResourceKind::at(from);
            assert(here.order() == from);
            let head = objects_of(here, self.handles(here));
            let tail = self.log_from(from + 1);
            assert(log =~= head + tail);
            assert forall|j: int| 0 <= j < log.len() implies from <= rank(#[trigger] log[j])
                && is_live_object(*self, log[j]) by {
                if j < head.len() {
                    assert(log[j] == head[j]);
                    assert(self.handles(here)[j] == self.handles(here)[j]);
                } else {
                    assert(log[j] == tail[j - head.len()]);
                }
            }
            assert forall|i: int, j: int| 0 <= i <= j < log.len() implies rank(#[trigger] log[i])
                <= rank(#[trigger] log[j]) by {
                if i >= head.len() {
                    assert(log[i] == tail[i - head.len()]);
                    assert(log[j] == tail[j - head.len()]);
                } else if j >= head.len() {
                    assert(log[i] == head[i]);
                    assert(log[j] == tail[j - head.len()]);
                } else {
                    assert(log[i] == head[i]);
                    assert(log[j] == head[j]);
                }
            }
            assert forall|kind: ResourceKind, i: int|
                from <= kind.order() && 0 <= i < self.handles(kind).len() implies log.contains(
                NativeObject::Object { kind, handle: #[trigger] self.handles(kind)[i] },
            ) by {
                let object = NativeObject::Object { kind, handle: self.handles(kind)[i] };
                kind.lemma_order_at();
                if kind.order() == from {
                    assert(log[i] == object);
                } else {
                    assert(tail.contains(object));
                    let t = choose|t: int| 0 <= t < tail.len() && tail[t] == object;
                    assert(log[head.len() + t] == object);
                }
            }
            assert forall|a: int| 0 <= a < self.buffers().allocations().len() implies log.contains(
                NativeObject::Pool {
                    buffer: (#[trigger] self.buffers().allocations()[a]).buffer,
                    memory: self.buffers().allocations()[a].handle,
                },
            ) by {
                let object = NativeObject::Pool {
                    buffer: self.buffers().allocations()[a].buffer,
                    memory: self.buffers().allocations()[a].handle,
                };
                assert(tail.contains(object));
                let t = choose|t: int| 0 <= t < tail.len() && tail[t] == object;
                assert(log[head.len() + t] == object);
            }
        }
    }

    /// A teardown destroys exactly what is live, every object once for each
    /// time it was built, and destroys an object before anything that it
    /// needs: an object is destroyed before every object of a kind that its
    /// kind needs, and every pool before the device.
    pub proof fn lemma_teardown_order(&self, i: int, j: int)
        requires
            0 <= i < destruction_of(self.constructed()).len(),
            0 <= j < destruction_of(self.constructed()).len(),
        ensures
            destruction_of(self.constructed()).len() == self.constructed().len(),
            destruction_of(self.constructed())[i] matches TeardownAction::Destroy(object)
                && is_live_object(*self, object),
            match (destruction_of(self.constructed())[i], destruction_of(self.constructed())[j]) {
                (
                    TeardownAction::Destroy(NativeObject::Object { kind, .. }),
                    TeardownAction::Destroy(NativeObject::Object { kind: needed, .. }),
                ) => kind.needs(needed) ==> i < j,
                (
                    TeardownAction::Destroy(NativeObject::Pool { .. }),
                    TeardownAction::Destroy(NativeObject::Object { .. }),
                ) => i < j,
                _ => true,
            },
    {
        self.lemma_log(0);
        let log = self.constructed();
        let n = log.len() as int;
        let first = log[n - 1 - i];
        let second = log[n - 1 - j];
        if i >= j {
            assert(rank(first) <= rank(second));
        }
        match (first, second) {
            (NativeObject::Object { kind, .. }, NativeObject::Object { kind: needed, .. }) => {
                if kind.needs(needed) {
                    kind.lemma_needs_earlier(needed);
                }
            },
            (NativeObject::Pool { .. }, NativeObject::Object { kind, .. }) => {
                kind.lemma_order_at();
            },
            _ => {},
        }
    }

    /// Adding an object that can be built keeps what is live supplied.
    proof fn lemma_grown(before: Self, after: Self, kind: ResourceKind, handle: u64)
        requires
            before.deps_wf(),
            before.can_accept(kind),
            handle != 0,
            after.handles(kind) == before.handles(kind).push(handle),
            forall|other: ResourceKind|
                other != kind ==> #[trigger] after.handles(other) == before.handles(other),
            after.buffers() == before.buffers(),
            after.spec_staging_buf() == before.spec_staging_buf(),
        ensures
            after.deps_wf(),
    {
        assert forall|a: ResourceKind, b: ResourceKind|
            #![trigger after.is_live(a), a.needs(b)]
            after.is_live(a) && a.needs(b) implies after.is_live(b) by {
            if a == kind {
                assert(before.is_live(b));
            } else {
                assert(before.is_live(a));
                assert(before.is_live(b));
            }
            if b != kind {
                assert(after.handles(b) == before.handles(b));
            }
        }
        assert forall|a: ResourceKind, i: int| 0 <= i < after.handles(a).len() implies #[trigger]
            after.handles(a)[i] != 0 by {
            if a == kind {
                if i < before.handles(a).len() {
                    assert(before.handles(a)[i] != 0);
                }
            } else {
                assert(before.handles(a)[i] != 0);
            }
        }
        assert forall|a: ResourceKind| a.is_single() implies (#[trigger] after.handles(a)).len()
            <= 1 by {
            if a != kind {
                assert(before.handles(a).len() <= 1);
            }
        }
        assert(after.handles(ResourceKind::Framebuffer).len() <= after.handles(
            ResourceKind::ImageView,
        ).len()) by {
            if kind != ResourceKind::Framebuffer {
                assert(after.handles(ResourceKind::Framebuffer) == before.handles(
                    ResourceKind::Framebuffer,
                ));
            }
            if kind != ResourceKind::ImageView {
                assert(after.handles(ResourceKind::ImageView) == before.handles(
                    ResourceKind::ImageView,
                ));
            }
        }
        if after.buffers().allocations().len() > 0 {
            assert(before.is_live(ResourceKind::Device));
            if kind != ResourceKind::Device {
                assert(after.handles(ResourceKind::Device) == before.handles(
                    ResourceKind::Device,
                ));
            }
        }
    }

    /// Where the same objects of every kind are live, pools exist only with a
    /// device, and the staging buffer that is kept names a staging pool, what
    /// is live is supplied as before.
    proof fn lemma_handles_kept(before: Self, after: Self)
        requires
            before.deps_wf(),
            forall|kind: ResourceKind| #[trigger] after.handles(kind) == before.handles(kind),
            after.buffers().allocations().len() > 0 ==> before.buffers().allocations().len() > 0
                || before.is_live(ResourceKind::Device),
            after.spec_staging_buf() matches Some(staging) ==> after.buffers().owns(staging)
                && staging.buffer_type == BufferType::Staging,
        ensures
            after.deps_wf(),
    {
        assert forall|a: ResourceKind, b: ResourceKind|
            #![trigger after.is_live(a), a.needs(b)]
            after.is_live(a) && a.needs(b) implies after.is_live(b) by {
            assert(after.handles(a) == before.handles(a));
            assert(after.handles(b) == before.handles(b));
            assert(before.is_live(a));
            assert(before.is_live(b));
        }
        assert forall|a: ResourceKind, i: int| 0 <= i < after.handles(a).len() implies #[trigger]
            after.handles(a)[i] != 0 by {
            assert(before.handles(a)[i] != 0);
        }
        assert forall|a: ResourceKind| a.is_single() implies (#[trigger] after.handles(a)).len()
            <= 1 by {
            assert(before.handles(a).len() <= 1);
        }
        assert(after.handles(ResourceKind::Framebuffer) == before.handles(
            ResourceKind::Framebuffer,
        ));
        assert(after.handles(ResourceKind::ImageView) == before.handles(ResourceKind::ImageView));
        assert(after.handles(ResourceKind::Device) == before.handles(ResourceKind::Device));
    }

    /// Without the presentation subtree, what is live is still supplied.
    proof fn lemma_presentation_gone(before: Self, after: Self)
        requires
            before.deps_wf(),
            forall|kind: ResourceKind|
                #![trigger after.handles(kind)]
                after.handles(kind) == if kind.is_presentation() {
                    Seq::<u64>::empty()
                } else {
                    before.handles(kind)
                },
            after.buffers() == before.buffers(),
            after.spec_staging_buf() == before.spec_staging_buf(),
        ensures
            after.deps_wf(),
    {
        assert forall|a: ResourceKind, b: ResourceKind|
            #![trigger after.is_live(a), a.needs(b)]
            after.is_live(a) && a.needs(b) implies after.is_live(b) by {
            assert(after.handles(a) == before.handles(a));
            assert(before.is_live(a));
            assert(before.is_live(b));
            assert(after.handles(b) == before.handles(b));
        }
        assert forall|a: ResourceKind, i: int| 0 <= i < after.handles(a).len() implies #[trigger]
            after.handles(a)[i] != 0 by {
            assert(before.handles(a)[i] != 0);
        }
        assert forall|a: ResourceKind| a.is_single() implies (#[trigger] after.handles(a)).len()
            <= 1 by {
            assert(before.handles(a).len() <= 1);
        }
        assert(after.handles(ResourceKind::Framebuffer).len() == 0);
        if after.buffers().allocations().len() > 0 {
            assert(before.is_live(ResourceKind::Device));
            assert(after.handles(ResourceKind::Device) == before.handles(ResourceKind::Device));
        }
    }

    /// Where nothing from position `from` on is live, nothing was built from
    /// there on.
    proof fn lemma_log_empty(&self, from: int)
        requires
            0 <= from <= RESOURCE_KINDS,
            forall|later: ResourceKind|
                later.order() >= from ==> (#[trigger] self.handles(later)).len() == 0,
            self.buffers().allocations().len() == 0,
        ensures
            self.log_from(from) == Seq::<NativeObject>::empty(),
        decreases RESOURCE_KINDS - from,
    {
        if from >= RESOURCE_KINDS {
            assert(self.log_from(from) =~= Seq::<NativeObject>::empty());
        } else {
            self.lemma_log_empty(from + 1);
            let kind = ResourceKind::at(from);
            assert(kind.order() == from);
            assert(self.handles(kind).len() == 0);
            assert(self.log_from(from) =~= Seq::<NativeObject>::empty());
        }
    }

    /// An object built while nothing of a later kind is live is the last thing
    /// that was built.
    proof fn lemma_register_appends(
        before: Self,
        after: Self,
        kind: ResourceKind,
        handle: u64,
        from: int,
    )
        requires
            0 <= from <= kind.order(),
            before.nothing_after(kind),
            after.handles(kind) == before.handles(kind).push(handle),
            forall|other: ResourceKind|
                other != kind ==> #[trigger] after.handles(other) == before.handles(other),
            after.buffers() == before.buffers(),
        ensures
            after.log_from(from) == before.log_from(from).push(
                NativeObject::Object { kind, handle },
            ),
        decreases kind.order() - from,
    {
        let object = NativeObject::Object { kind, handle };
        kind.lemma_order_at();
        if from == kind.order() {
            assert forall|later: ResourceKind| later.order() >= from + 1 implies (
            #[trigger] after.handles(later)).len() == 0 by {
                assert(before.handles(later).len() == 0);
            }
            before.lemma_log_empty(from + 1);
            after.lemma_log_empty(from + 1);
            assert(objects_of(kind, after.handles(kind)) =~= objects_of(
                kind,
                before.handles(kind),
            ).push(object));
            assert(after.log_from(from) =~= before.log_from(from).push(object));
        } else {
            Self::lemma_register_appends(before, after, kind, handle, from + 1);
            let here = ResourceKind::at(from);
            assert(here.order() == from);
            assert(after.handles(here) == before.handles(here));
            assert(after.log_from(from) =~= before.log_from(from).push(object));
        }
    }

    /// A new pool is the last thing that was built.
    proof fn lemma_pool_appends(before: Self, after: Self, created: CreatedPool, from: int)
        requires
            0 <= from <= RESOURCE_KINDS,
            forall|kind: ResourceKind| #[trigger] after.handles(kind) == before.handles(kind),
            after.buffers().allocations() == before.buffers().allocations().push(
                AllocRecord { handle: created.memory, size: created.size, buffer: created.buffer },
            ),
        ensures
            after.log_from(from) == before.log_from(from).push(
                NativeObject::Pool { buffer: created.buffer, memory: created.memory },
            ),
        decreases RESOURCE_KINDS - from,
    {
        let pool = NativeObject::Pool { buffer: created.buffer, memory: created.memory };
        if from >= RESOURCE_KINDS {
            assert(pool_objects(after.buffers().allocations()) =~= pool_objects(
                before.buffers().allocations(),
            ).push(pool));
        } else {
            Self::lemma_pool_appends(before, after, created, from + 1);
            let kind = ResourceKind::at(from);
            assert(after.handles(kind) == before.handles(kind));
            assert(after.log_from(from) =~= before.log_from(from).push(pool));
        }
    }
}

/// What was built last is destroyed first: the destruction of objects that
/// were built one after the other is that of the later ones, followed by that
/// of the earlier ones.
pub proof fn lemma_destruction_concat(earlier: Seq<NativeObject>, later: Seq<NativeObject>)
    ensures
        destruction_of(earlier + later) == destruction_of(later) + destruction_of(earlier),
{
    assert(destruction_of(earlier + later) =~= destruction_of(later) + destruction_of(earlier));
}

impl Default for RendererResourceKeeper {
    fn default() -> (keeper: Self)
        ensures
            keeper.wf(),
            forall|kind: ResourceKind| #[trigger] keeper.handles(kind) == Seq::<u64>::empty(),
            keeper.buffers().allocations() == Seq::<AllocRecord>::empty(),
            keeper.spec_physical_device() == 0,
            keeper.spec_swapchain_info() is None,
            keeper.spec_staging_buf() is None,
    {
        RendererResourceKeeper::new()
    }
}

} // verus!
