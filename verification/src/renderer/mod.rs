//! The renderer: memory sub-allocation, resource lifecycle, frame and resize
//! state machine.

use crate::ffi::Extent2D;
use crate::renderer::native::result_out_of_date;
use crate::renderer::resources::{
    creation_error, destruction_of, spec_creation_error, BuildPlan, NativeObject,
    RendererResourceKeeper, ResourceKind, TeardownAction, RESOURCE_KINDS,
};
use crate::renderer::swapchain_info::SwapchainSupportInfo;
use vstd::prelude::*;

pub mod alloc_table;
pub mod buffer;
pub mod native;
pub mod queue;
pub mod resources;
pub mod setup;
pub mod swapchain_info;
pub mod vertex;

verus! {

/// How the renderer can fail. A failure of the driver carries the driver's
/// status code.
#[derive(Clone, Debug, PartialEq, Eq)]
pub enum RendererError {
    FailedToLoadDriver,
    FailedToCreateInstance(i32),
    FailedToCreateDebugMessenger(i32),
    VulkanInfoQueryFailed(i32),
    /// Some requested validation layers are missing; the names are those of the
    /// requested layers that are available.
    UnavailableValidationLayers(Vec<String>),
    FailedToCreateVulkanSurface,
    NoAvailableVideoAdapter,
    NoSupportedVideoAdapter,
    FailedToCreateDevice(i32),
    FailedToCreateSwapchain(i32),
    FailedToCreateImageView(i32),
    FailedToCreateShaderModule(i32),
    FailedToCreatePipelineLayout(i32),
    FailedToCreateRenderPass(i32),
    FailedToCreateGraphicsPipeline(i32),
    FailedToCreateFramebuffer(i32),
    FailedToCreateCommandPool(i32),
    FailedToCreateCommandBuffer(i32),
    CommandBufferRecordingError(i32),
    FailedToCreateSyncObject(i32),
    FailedToCreateBuffer(i32),
    UnavailableMemoryType { memory_type_flags: u32, memory_property_flags: u32 },
    MemAllocError(i32),
    FailedToMapBufferMemory(i32),
    ObjectTooBig,
    FailedToDrawFrame(i32),
}

/// Number of frames that can be in flight at a time.
pub const MAX_CONCURRENT_FRAMES: usize = 2;

/// Where the renderer stands between start and teardown.
#[derive(Clone, Copy, PartialEq, Eq, Debug, Structural)]
pub enum RendererState {
    /// Not everything is built yet.
    Uninitialized,
    /// Frames are drawn.
    Steady,
    /// The presentation subtree is being rebuilt.
    Recreating,
    /// Everything was destroyed.
    Destroyed,
}

/// The steps of drawing one frame, in order.
#[derive(Clone, Copy, PartialEq, Eq, Debug, Structural)]
pub enum FrameStage {
    WaitForFence,
    AcquireImage,
    ResetCommandBuffer,
    RecordCommands,
    ResetFence,
    Submit,
    Present,
}

/// How the drawing of a frame went at the driver.
#[derive(Clone, Copy, PartialEq, Eq, Debug, Structural)]
pub enum FrameEvent {
    /// Every step succeeded: the frame is queued for presentation.
    Presented,
    /// A step failed with the driver's status code.
    Failed { stage: FrameStage, code: i32 },
}

/// What follows from the drawing of a frame.
#[derive(Clone, Copy, PartialEq, Eq, Debug, Structural)]
pub enum FrameVerdict {
    /// The frame is done, and the next frame slot is current.
    Presented,
    /// The presentation was stale: the frame is dropped, and the presentation
    /// subtree is to be rebuilt for the window as it is.
    Recreate,
}

/// How the building of one native object went: the handle of the object, or
/// the driver's status code. A handle of 0 says that there is no object.
pub open spec fn is_failure(outcome: Result<u64, i32>) -> bool {
    outcome matches Ok(handle) ==> handle == 0
}

/// The status code that a failed building ends with; 0 where there is none.
pub open spec fn failure_code(outcome: Result<u64, i32>) -> i32 {
    match outcome {
        Ok(_) => 0,
        Err(code) => code,
    }
}

/// A start-up or a rebuild that failed: the error, and the steps that destroy
/// what was built until then.
#[derive(Clone, Debug, PartialEq, Eq)]
pub struct BuildFailure {
    pub error: RendererError,
    pub steps: Vec<TeardownAction>,
}

/// What the drawing of one frame works with: the synchronization objects and
/// the command buffer of the current frame slot, the swapchain and the queues.
#[derive(Clone, Copy, PartialEq, Eq, Debug, Structural)]
pub struct FrameSlot {
    pub index: usize,
    pub in_flight_fence: u64,
    pub image_available: u64,
    pub render_finished: u64,
    pub command_buffer: u64,
    pub swapchain: u64,
    pub graphics_queue: u64,
    pub present_queue: u64,
}

/// The driver's status code that says that the presentation is out of date.
pub open spec fn out_of_date() -> i32 {
    -1000001004i32
}

/// A failure that says that the presentation is stale: the image could not be
/// acquired or presented because the swapchain is out of date.
pub open spec fn is_stale(stage: FrameStage, code: i32) -> bool {
    (stage == FrameStage::AcquireImage || stage == FrameStage::Present) && code == out_of_date()
}

/// The error that a failure of a step surfaces as.
pub open spec fn frame_error(stage: FrameStage, code: i32) -> RendererError {
    if stage == FrameStage::RecordCommands {
        RendererError::CommandBufferRecordingError(code)
    } else {
        RendererError::FailedToDrawFrame(code)
    }
}

/// The frame slot after `slot`: the slots take turns.
pub open spec fn next_frame(slot: usize) -> usize {
    ((slot + 1) % MAX_CONCURRENT_FRAMES as int) as usize
}

/// The renderer: the native objects, what it is to be made of, and where it
/// stands in drawing and resizing.
pub struct Renderer {
    vk_res: RendererResourceKeeper,
    plan: BuildPlan,
    state: RendererState,
    graphics_queue: u64,
    present_queue: u64,
    swapchain_img_extent: Extent2D,
    window_extent: Extent2D,
    pending_support: Option<SwapchainSupportInfo>,
    command_buffers: Vec<u64>,
    current_frame: usize,
}

impl Renderer {
    /// The native objects.
    pub closed spec fn resources(&self) -> RendererResourceKeeper {
        self.vk_res
    }

    /// What the renderer is to be made of.
    pub closed spec fn spec_plan(&self) -> BuildPlan {
        self.plan
    }

    /// Where the renderer stands.
    pub closed spec fn spec_state(&self) -> RendererState {
        self.state
    }

    /// The frame slot that the next frame is drawn with.
    pub closed spec fn spec_current_frame(&self) -> usize {
        self.current_frame
    }

    /// The extent of the images of the swapchain.
    pub closed spec fn spec_swapchain_img_extent(&self) -> Extent2D {
        self.swapchain_img_extent
    }

    /// The extent of the window, as the host reported it last.
    pub closed spec fn spec_window_extent(&self) -> Extent2D {
        self.window_extent
    }

    /// What the surface supports, as it was asked when the rebuild that is
    /// under way began.
    pub closed spec fn spec_pending_support(&self) -> Option<SwapchainSupportInfo> {
        self.pending_support
    }

    /// The queues that frames are submitted to and presented on.
    pub closed spec fn spec_queues(&self) -> (u64, u64) {
        (self.graphics_queue, self.present_queue)
    }

    /// The command buffers, one for each frame slot.
    pub closed spec fn spec_command_buffers(&self) -> Seq<u64> {
        self.command_buffers@
    }

    /// What holds of a renderer between calls: its objects have what they
    /// need, the current frame slot is one of the slots, a renderer that was
    /// started has a command buffer for each slot, and a renderer that is
    /// recreating knows what the surface supports.
    pub open spec fn wf(&self) -> bool {
        &&& self.resources().wf()
        &&& self.spec_current_frame() < MAX_CONCURRENT_FRAMES
        &&& self.spec_plan().frames == MAX_CONCURRENT_FRAMES
        &&& self.spec_state() == RendererState::Steady || self.spec_state()
            == RendererState::Recreating ==> self.spec_command_buffers().len()
            == MAX_CONCURRENT_FRAMES
        &&& self.spec_state() == RendererState::Recreating ==> (
        self.spec_pending_support() matches Some(info) && (info.capabilities.extent_is_free()
            ==> info.capabilities.limits_ordered()))
    }

    /// The frame slot, the queues, the command buffers and the plan are as in
    /// `other`.
    pub open spec fn same_frame(&self, other: Self) -> bool {
        &&& self.spec_current_frame() == other.spec_current_frame()
        &&& self.spec_queues() == other.spec_queues()
        &&& self.spec_command_buffers() == other.spec_command_buffers()
        &&& self.spec_plan() == other.spec_plan()
    }

    /// Outside the presentation subtree the same objects are live as in
    /// `other`: the instance, the surface, the device and everything else.
    pub open spec fn same_upstream(&self, other: Self) -> bool {
        &&& forall|kind: ResourceKind|
            !kind.is_presentation() ==> #[trigger] self.resources().handles(kind)
                == other.resources().handles(kind)
        &&& self.resources().buffers() == other.resources().buffers()
        &&& self.resources().spec_physical_device() == other.resources().spec_physical_device()
        &&& self.resources().spec_queue_families() == other.resources().spec_queue_families()
    }

    /// Everything that the plan wants is built, and the presentation subtree is
    /// whole: there is a swapchain, and an image view and a framebuffer for
    /// each of its images, no more and no fewer.
    pub open spec fn is_built(&self) -> bool {
        &&& self.resources().built_upto(self.spec_plan(), RESOURCE_KINDS as int)
        &&& self.resources().handles(ResourceKind::ImageView).len()
            == self.spec_plan().swapchain_images
        &&& self.resources().handles(ResourceKind::Framebuffer).len()
            == self.spec_plan().swapchain_images
    }

    /// A frame can be drawn: the renderer is steady, the current frame slot has
    /// its fence, its semaphores and its command buffer, and there is a
    /// swapchain.
    pub open spec fn can_draw(&self) -> bool {
        let i = self.spec_current_frame() as int;
        &&& self.spec_state() == RendererState::Steady
        &&& i < self.resources().handles(ResourceKind::InFlightFence).len()
        &&& i < self.resources().handles(ResourceKind::ImageAvailableSemaphore).len()
        &&& i < self.resources().handles(ResourceKind::RenderFinishedSemaphore).len()
        &&& i < self.spec_command_buffers().len()
        &&& self.resources().is_live(ResourceKind::Swapchain)
    }

    /// What a frame of slot `i` is drawn with.
    pub open spec fn slot_of(&self, i: usize) -> FrameSlot {
        FrameSlot {
            index: i,
            in_flight_fence: self.resources().handles(ResourceKind::InFlightFence)[i as int],
            image_available: self.resources().handles(ResourceKind::ImageAvailableSemaphore)[i as int],
            render_finished: self.resources().handles(ResourceKind::RenderFinishedSemaphore)[i as int],
            command_buffer: self.spec_command_buffers()[i as int],
            swapchain: self.resources().handle(ResourceKind::Swapchain),
            graphics_queue: self.spec_queues().0,
            present_queue: self.spec_queues().1,
        }
    }

    /// The renderer has begun to rebuild the presentation subtree of `before`
    /// for a window of `extent`: it is recreating, the subtree is gone, and
    /// everything else is as it was.
    pub open spec fn recreating_from(&self, before: Self, extent: Extent2D) -> bool {
        &&& self.spec_state() == RendererState::Recreating
        &&& self.spec_window_extent() == extent
        &&& self.spec_swapchain_img_extent() == before.spec_swapchain_img_extent()
        &&& self.same_upstream(before)
        &&& self.same_frame(before)
        &&& forall|kind: ResourceKind|
            kind.is_presentation() ==> #[trigger] self.resources().handles(kind) == Seq::<u64>::empty()
    }

    /// The steps before the presentation subtree is rebuilt: wait for the
    /// device, where there is one, then destroy the subtree, what was built
    /// last first.
    pub open spec fn recreate_steps(&self) -> Seq<TeardownAction> {
        (if self.resources().is_live(ResourceKind::Device) {
            seq![TeardownAction::WaitDeviceIdle]
        } else {
            Seq::<TeardownAction>::empty()
        }) + destruction_of(self.resources().presentation())
    }

    /// A renderer of which nothing is built yet, for a window of an extent.
    /// With `debug` the renderer listens to the driver's messages.
    pub fn new(window_extent: Extent2D, debug: bool) -> (renderer: Self)
        ensures
            renderer.wf(),
            renderer.spec_state() == RendererState::Uninitialized,
            renderer.spec_plan() == (BuildPlan {
                debug,
                swapchain_images: 0,
                frames: MAX_CONCURRENT_FRAMES,
            }),
            renderer.spec_current_frame() == 0,
            renderer.spec_window_extent() == window_extent,
            renderer.spec_swapchain_img_extent() == (Extent2D { width: 0, height: 0 }),
            renderer.spec_pending_support() is None,
            renderer.spec_queues() == (0u64, 0u64),
            renderer.spec_command_buffers() == Seq::<u64>::empty(),
            forall|kind: ResourceKind|
                #[trigger] renderer.resources().handles(kind) == Seq::<u64>::empty(),
            renderer.resources().buffers().allocations() == Seq::<
                crate::renderer::buffer::AllocRecord,
            >::empty(),
            forall|buffer_type: crate::renderer::buffer::BufferType|
                #[trigger] renderer.resources().buffers().pools(buffer_type).len() == 0,
            renderer.resources().spec_physical_device() == 0,
            renderer.resources().spec_queue_families().graphics_family is None,
            renderer.resources().spec_queue_families().present_family is None,
            renderer.resources().spec_queue_families().dedicated_transfer_family is None,
            renderer.resources().spec_swapchain_info() is None,
            renderer.resources().spec_staging_buf() is None,
            renderer.resources().constructed() == Seq::<
                crate::renderer::resources::NativeObject,
            >::empty(),
            renderer.resources().in_order(renderer.spec_plan()),
    {
        Renderer {
            vk_res: RendererResourceKeeper::new(),
            plan: BuildPlan { debug, swapchain_images: 0, frames: MAX_CONCURRENT_FRAMES },
            state: RendererState::Uninitialized,
            graphics_queue: 0,
            present_queue: 0,
            swapchain_img_extent: Extent2D { width: 0, height: 0 },
            window_extent,
            pending_support: None,
            command_buffers: Vec::new(),
            current_frame: 0,
        }
    }

    /// The native objects.
    pub fn vk_res(&self) -> (keeper: &RendererResourceKeeper)
        ensures
            *keeper == self.resources(),
    {
        &self.vk_res
    }

    /// The native objects, for building them and for working with the pools.
    /// Nothing else of the renderer changes.
    pub fn vk_res_mut(&mut self) -> (keeper: &mut RendererResourceKeeper)
        ensures
            *keeper == old(self).resources(),
            final(self).resources() == *final(keeper),
            final(self).spec_state() == old(self).spec_state(),
            final(self).same_frame(*old(self)),
            final(self).spec_window_extent() == old(self).spec_window_extent(),
            final(self).spec_swapchain_img_extent() == old(self).spec_swapchain_img_extent(),
            final(self).spec_pending_support() == old(self).spec_pending_support(),
    {
        &mut self.vk_res
    }

    /// Where the renderer stands.
    pub fn state(&self) -> (state: RendererState)
        ensures
            state == self.spec_state(),
    {
        self.state
    }

    /// What the renderer is to be made of.
    pub fn plan(&self) -> (plan: BuildPlan)
        ensures
            plan == self.spec_plan(),
    {
        self.plan
    }

    /// The frame slot that the next frame is drawn with.
    pub fn current_frame(&self) -> (slot: usize)
        ensures
            slot == self.spec_current_frame(),
    {
        self.current_frame
    }

    /// The extent of the images of the swapchain.
    pub fn swapchain_img_extent(&self) -> (extent: Extent2D)
        ensures
            extent == self.spec_swapchain_img_extent(),
    {
        self.swapchain_img_extent
    }

    /// The extent of the window, as the host reported it last.
    pub fn window_extent(&self) -> (extent: Extent2D)
        ensures
            extent == self.spec_window_extent(),
    {
        self.window_extent
    }

    /// What the surface supports, as it was asked when the rebuild that is
    /// under way began.
    pub fn pending_support(&self) -> (support: &Option<SwapchainSupportInfo>)
        ensures
            *support == self.spec_pending_support(),
    {
        &self.pending_support
    }

    /// Takes note of the number of images of the swapchain that was built:
    /// the plan wants an image view and a framebuffer for each.
    pub fn set_swapchain_images(&mut self, count: usize)
        requires
            old(self).wf(),
            old(self).spec_state() == RendererState::Uninitialized || old(self).spec_state()
                == RendererState::Recreating,
        ensures
            final(self).wf(),
            final(self).spec_plan() == (BuildPlan {
                swapchain_images: count,
                ..old(self).spec_plan()
            }),
            final(self).resources() == old(self).resources(),
            final(self).spec_state() == old(self).spec_state(),
            final(self).spec_current_frame() == old(self).spec_current_frame(),
            final(self).spec_queues() == old(self).spec_queues(),
            final(self).spec_command_buffers() == old(self).spec_command_buffers(),
            final(self).spec_window_extent() == old(self).spec_window_extent(),
            final(self).spec_swapchain_img_extent() == old(self).spec_swapchain_img_extent(),
            final(self).spec_pending_support() == old(self).spec_pending_support(),
    {
        self.plan.swapchain_images = count;
    }

    /// The kind of the object to build next, in the order of construction.
    /// `None` where everything that the plan wants is there.
    pub fn next_to_build(&self) -> (next: Option<ResourceKind>)
        requires
            self.wf(),
        ensures
            match next {
                Some(kind) => self.resources().is_next(self.spec_plan(), kind)
                    && self.resources().can_accept(kind),
                None => self.resources().built_upto(self.spec_plan(), RESOURCE_KINDS as int),
            },
    {
        self.vk_res.next_to_build(&self.plan)
    }

    /// Takes the outcome of building the object that is next to build. The
    /// object that was built is taken note of. Where it could not be built, the
    /// renderer is destroyed: everything that is live is forgotten, and the
    /// failure holds the error of the kind and the steps that destroy what was
    /// built before, the object that was built last first.
    pub fn object_built(&mut self, kind: ResourceKind, outcome: Result<u64, i32>) -> (taken: Result<
        (),
        BuildFailure,
    >)
        requires
            old(self).wf(),
            old(self).spec_state() == RendererState::Uninitialized || old(self).spec_state()
                == RendererState::Recreating,
            old(self).resources().can_accept(kind),
        ensures
            final(self).wf(),
            final(self).spec_plan() == old(self).spec_plan(),
            match taken {
                Ok(()) => {
                    &&& outcome matches Ok(handle)
                    &&& handle != 0
                    &&& final(self).resources().grown_by(old(self).resources(), kind, handle)
                    &&& old(self).resources().nothing_after(kind) ==> final(self).resources().constructed()
                        == old(self).resources().constructed().push(
                        NativeObject::Object { kind, handle },
                    )
                    &&& final(self).spec_state() == old(self).spec_state()
                    &&& final(self).same_frame(*old(self))
                    &&& final(self).spec_window_extent() == old(self).spec_window_extent()
                    &&& final(self).spec_swapchain_img_extent() == old(
                        self,
                    ).spec_swapchain_img_extent()
                    &&& final(self).spec_pending_support() == old(self).spec_pending_support()
                },
                Err(failure) => {
                    &&& is_failure(outcome)
                    &&& failure.error == spec_creation_error(kind, failure_code(outcome))
                    &&& failure.steps@ == (if old(self).resources().is_live(
                        ResourceKind::Device,
                    ) {
                        seq![TeardownAction::WaitDeviceIdle]
                    } else {
                        Seq::<TeardownAction>::empty()
                    }) + destruction_of(old(self).resources().constructed())
                    &&& final(self).spec_state() == RendererState::Destroyed
                    &&& forall|any: ResourceKind|
                        #[trigger] final(self).resources().handles(any) == Seq::<u64>::empty()
                    &&& final(self).resources().buffers().allocations().len() == 0
                },
            },
    {
        match outcome {
            Ok(handle) => {
                if handle != 0 {
                    self.vk_res.register(kind, handle);
                    Ok(())
                } else {
                    let steps = self.destroy();
                    Err(BuildFailure { error: creation_error(kind, 0), steps })
                }
            },
            Err(code) => {
                let steps = self.destroy();
                Err(BuildFailure { error: creation_error(kind, code), steps })
            },
        }
    }

    /// Whether everything that the plan wants is built and the presentation
    /// subtree is whole.
    pub fn built(&self) -> (built: bool)
        requires
            self.wf(),
        ensures
            built == self.is_built(),
    {
        let images = self.plan.swapchain_images;
        match self.vk_res.next_to_build(&self.plan) {
            Some(kind) => {
                proof {
                    kind.lemma_order_at();
                }
                false
            },
            None => self.vk_res.swapchain_image_views().len() == images
                && self.vk_res.framebuffers().len() == images,
        }
    }

    /// Everything is built: frames are drawn from now on, with images of the
    /// extent that the surface's support selects for the window.
    pub fn start(
        &mut self,
        graphics_queue: u64,
        present_queue: u64,
        command_buffers: Vec<u64>,
        swapchain_info: SwapchainSupportInfo,
    )
        requires
            old(self).wf(),
            old(self).spec_state() == RendererState::Uninitialized,
            old(self).is_built(),
            command_buffers@.len() == MAX_CONCURRENT_FRAMES,
            swapchain_info.capabilities.extent_is_free()
                ==> swapchain_info.capabilities.limits_ordered(),
        ensures
            final(self).wf(),
            final(self).spec_state() == RendererState::Steady,
            final(self).is_built(),
            final(self).can_draw(),
            final(self).resources().same_objects(old(self).resources()),
            final(self).same_upstream(*old(self)),
            final(self).resources().spec_swapchain_info() == Some(swapchain_info),
            final(self).spec_plan() == old(self).spec_plan(),
            final(self).spec_current_frame() == 0,
            final(self).spec_queues() == (graphics_queue, present_queue),
            final(self).spec_command_buffers() == command_buffers@,
            final(self).spec_swapchain_img_extent() == swapchain_info.capabilities.extent_for(
                old(self).spec_window_extent(),
            ),
            final(self).spec_window_extent() == old(self).spec_window_extent(),
            final(self).spec_pending_support() == old(self).spec_pending_support(),
    {
        proof {
            old(self).lemma_built_can_draw();
        }
        self.graphics_queue = graphics_queue;
        self.present_queue = present_queue;
        self.command_buffers = command_buffers;
        self.swapchain_img_extent = swapchain_info.select_extent(self.window_extent);
        self.vk_res.set_swapchain_info(swapchain_info);
        self.current_frame = 0;
        self.state = RendererState::Steady;
    }

    /// What the next frame is drawn with. `None` while no frame can be drawn:
    /// outside the steady state, or where the current frame slot lacks a
    /// fence, a semaphore or a command buffer, or there is no swapchain.
    pub fn current_slot(&self) -> (slot: Option<FrameSlot>)
        requires
            self.wf(),
        ensures
            match slot {
                Some(frame) => {
                    &&& self.can_draw()
                    &&& frame == self.slot_of(self.spec_current_frame())
                },
                None => !self.can_draw(),
            },
    {
        let i = self.current_frame;
        let fences = self.vk_res.in_flight_fences();
        let available = self.vk_res.img_available_semaphores();
        let finished = self.vk_res.render_finished_semaphores();
        let swapchain = self.vk_res.swapchain();
        if self.state == RendererState::Steady && i < fences.len() && i < available.len() && i
            < finished.len() && i < self.command_buffers.len() && swapchain != 0 {
            Some(
                FrameSlot {
                    index: i,
                    in_flight_fence: fences[i],
                    image_available: available[i],
                    render_finished: finished[i],
                    command_buffer: self.command_buffers[i],
                    swapchain,
                    graphics_queue: self.graphics_queue,
                    present_queue: self.present_queue,
                },
            )
        } else {
            None
        }
    }

    /// Takes the outcome of drawing a frame. After a frame that was presented
    /// the next frame slot is current. A stale presentation is no error: the
    /// frame is dropped, and the verdict asks for a rebuild of the presentation
    /// subtree. Any other failure is handed to the caller. After a frame that
    /// was not presented the renderer is as it was.
    pub fn draw_frame(&mut self, event: FrameEvent) -> (verdict: Result<FrameVerdict, RendererError>)
        requires
            old(self).wf(),
            old(self).spec_state() == RendererState::Steady,
        ensures
            final(self).wf(),
            match event {
                FrameEvent::Presented => {
                    &&& verdict == Ok::<FrameVerdict, RendererError>(FrameVerdict::Presented)
                    &&& final(self).spec_state() == RendererState::Steady
                    &&& final(self).spec_current_frame() == next_frame(
                        old(self).spec_current_frame(),
                    )
                    &&& final(self).resources() == old(self).resources()
                    &&& final(self).spec_plan() == old(self).spec_plan()
                    &&& final(self).spec_queues() == old(self).spec_queues()
                    &&& final(self).spec_command_buffers() == old(self).spec_command_buffers()
                    &&& final(self).spec_window_extent() == old(self).spec_window_extent()
                    &&& final(self).spec_swapchain_img_extent() == old(
                        self,
                    ).spec_swapchain_img_extent()
                    &&& final(self).spec_pending_support() == old(self).spec_pending_support()
                },
                FrameEvent::Failed { stage, code } => {
                    &&& verdict == if is_stale(stage, code) {
                        Ok::<FrameVerdict, RendererError>(FrameVerdict::Recreate)
                    } else {
                        Err::<FrameVerdict, RendererError>(frame_error(stage, code))
                    }
                    &&& *final(self) == *old(self)
                },
            },
    {
        match event {
            FrameEvent::Presented => {
                self.current_frame = (self.current_frame + 1) % MAX_CONCURRENT_FRAMES;
                Ok(FrameVerdict::Presented)
            },
            FrameEvent::Failed { stage, code } => {
                let stale = match stage {
                    FrameStage::AcquireImage | FrameStage::Present => code == result_out_of_date(),
                    _ => false,
                };
                if stale {
                    Ok(FrameVerdict::Recreate)
                } else {
                    match stage {
                        FrameStage::RecordCommands => Err(
                            RendererError::CommandBufferRecordingError(code),
                        ),
                        _ => Err(RendererError::FailedToDrawFrame(code)),
                    }
                }
            },
        }
    }

    /// The window has a new size, or the presentation was stale. `support` is
    /// what the surface supports now, as the driver answered. Where the driver
    /// could not answer, the error holds its status code, and the renderer is
    /// as it was: nothing is to be destroyed. Else the renderer begins to
    /// rebuild the presentation subtree for the window. The steps to take
    /// first are returned: wait for the device, then destroy the old subtree.
    /// Nothing outside the subtree changes.
    pub fn window_resized(
        &mut self,
        width: u32,
        height: u32,
        support: Result<SwapchainSupportInfo, i32>,
    ) -> (steps: Result<Vec<TeardownAction>, RendererError>)
        requires
            old(self).wf(),
            old(self).spec_state() == RendererState::Steady || old(self).spec_state()
                == RendererState::Recreating,
            support matches Ok(info) ==> (info.capabilities.extent_is_free()
                ==> info.capabilities.limits_ordered()),
        ensures
            final(self).wf(),
            match support {
                Ok(info) => {
                    &&& steps matches Ok(plan)
                    &&& plan@ == old(self).recreate_steps()
                    &&& final(self).recreating_from(*old(self), Extent2D { width, height })
                    &&& final(self).spec_pending_support() == Some(info)
                    &&& final(self).resources().spec_swapchain_info() == old(
                        self,
                    ).resources().spec_swapchain_info()
                },
                Err(code) => {
                    &&& steps matches Err(error)
                    &&& error == RendererError::VulkanInfoQueryFailed(code)
                    &&& *final(self) == *old(self)
                },
            },
    {
        match support {
            Err(code) => Err(RendererError::VulkanInfoQueryFailed(code)),
            Ok(info) => {
                let mut steps: Vec<TeardownAction> = Vec::new();
                if self.vk_res.live(ResourceKind::Device) {
                    steps.push(TeardownAction::WaitDeviceIdle);
                }
                let mut destroy = self.vk_res.destroy_swapchain();
                steps.append(&mut destroy);
                self.window_extent = Extent2D { width, height };
                self.pending_support = Some(info);
                self.state = RendererState::Recreating;
                Ok(steps)
            },
        }
    }

    /// The presentation subtree is rebuilt: frames are drawn again, with images
    /// of the extent that the surface's support, as it was asked when the
    /// rebuild began, selects for the window.
    pub fn swapchain_rebuilt(&mut self)
        requires
            old(self).wf(),
            old(self).spec_state() == RendererState::Recreating,
            old(self).is_built(),
        ensures
            final(self).wf(),
            final(self).spec_state() == RendererState::Steady,
            final(self).is_built(),
            final(self).can_draw(),
            old(self).spec_pending_support() matches Some(info) && {
                &&& final(self).spec_swapchain_img_extent() == info.capabilities.extent_for(
                    old(self).spec_window_extent(),
                )
                &&& final(self).resources().spec_swapchain_info() == Some(info)
            },
            final(self).spec_pending_support() is None,
            final(self).resources().same_objects(old(self).resources()),
            final(self).same_upstream(*old(self)),
            final(self).same_frame(*old(self)),
            final(self).spec_window_extent() == old(self).spec_window_extent(),
    {
        proof {
            old(self).lemma_built_can_draw();
        }
        let mut pending: Option<SwapchainSupportInfo> = None;
        std::mem::swap(&mut self.pending_support, &mut pending);
        match pending {
            Some(info) => {
                self.swapchain_img_extent = info.select_extent(self.window_extent);
                self.vk_res.set_swapchain_info(info);
            },
            None => {},
        }
        self.state = RendererState::Steady;
    }

    /// Destroys the renderer: everything that is live is forgotten, and the
    /// steps that destroy it are returned.
    pub fn destroy(&mut self) -> (steps: Vec<TeardownAction>)
        requires
            old(self).wf(),
        ensures
            final(self).wf(),
            final(self).spec_state() == RendererState::Destroyed,
            steps@ == (if old(self).resources().is_live(ResourceKind::Device) {
                seq![TeardownAction::WaitDeviceIdle]
            } else {
                Seq::<TeardownAction>::empty()
            }) + destruction_of(old(self).resources().constructed()),
            forall|kind: ResourceKind|
                #[trigger] final(self).resources().handles(kind) == Seq::<u64>::empty(),
            final(self).resources().buffers().allocations().len() == 0,
            final(self).spec_command_buffers() == Seq::<u64>::empty(),
            final(self).spec_pending_support() is None,
            final(self).spec_plan() == old(self).spec_plan(),
    {
        let steps = self.vk_res.teardown();
        self.command_buffers.clear();
        self.pending_support = None;
        self.state = RendererState::Destroyed;
        steps
    }

    /// Where everything is built and there is a command buffer for each frame
    /// slot, every frame slot has what a frame is drawn with.
    pub proof fn lemma_built_can_draw(&self)
        requires
            self.wf(),
            self.is_built(),
        ensures
            self.resources().is_live(ResourceKind::Swapchain),
            forall|kind: ResourceKind|
                kind == ResourceKind::InFlightFence || kind
                    == ResourceKind::ImageAvailableSemaphore || kind
                    == ResourceKind::RenderFinishedSemaphore ==> (#[trigger] self.resources().handles(
                    kind,
                )).len() >= MAX_CONCURRENT_FRAMES,
            self.resources().handles(ResourceKind::Framebuffer).len() == self.resources().handles(
                ResourceKind::ImageView,
            ).len(),
    {
        let plan = self.spec_plan();
        assert(self.resources().handles(ResourceKind::Swapchain).len() >= plan.wanted(
            ResourceKind::Swapchain,
        ));
        assert(self.resources().handles(ResourceKind::InFlightFence).len() >= plan.wanted(
            ResourceKind::InFlightFence,
        ));
        assert(self.resources().handles(ResourceKind::ImageAvailableSemaphore).len()
            >= plan.wanted(ResourceKind::ImageAvailableSemaphore));
        assert(self.resources().handles(ResourceKind::RenderFinishedSemaphore).len()
            >= plan.wanted(ResourceKind::RenderFinishedSemaphore));
    }

    /// A resize in the steady state ends in the steady state, and leaves
    /// everything outside the presentation subtree as it was: the instance, the
    /// surface, the device and all other objects keep their handles. `begun` is
    /// the renderer after the resize was taken note of, `rebuilt` after the
    /// objects of the new subtree were registered, and `done` after the
    /// rebuild was confirmed.
    pub proof fn lemma_resize_keeps_upstream(
        before: Self,
        begun: Self,
        rebuilt: Self,
        done: Self,
        extent: Extent2D,
    )
        requires
            before.spec_state() == RendererState::Steady,
            begun.recreating_from(before, extent),
            rebuilt.spec_state() == begun.spec_state(),
            rebuilt.same_upstream(begun),
            done.spec_state() == RendererState::Steady,
            done.same_upstream(rebuilt),
        ensures
            begun.spec_state() == RendererState::Recreating,
            done.spec_state() == RendererState::Steady,
            done.same_upstream(before),
            done.resources().handle(ResourceKind::Instance) == before.resources().handle(
                ResourceKind::Instance,
            ),
            done.resources().handle(ResourceKind::Surface) == before.resources().handle(
                ResourceKind::Surface,
            ),
            done.resources().handle(ResourceKind::Device) == before.resources().handle(
                ResourceKind::Device,
            ),
    {
        assert forall|kind: ResourceKind| !kind.is_presentation() implies #[trigger]
            done.resources().handles(kind) == before.resources().handles(kind) by {
            assert(done.resources().handles(kind) == rebuilt.resources().handles(kind));
            assert(rebuilt.resources().handles(kind) == begun.resources().handles(kind));
            assert(begun.resources().handles(kind) == before.resources().handles(kind));
        }
    }
}

} // verus!
