use ash::vk;
use faisca::ffi::Extent2D;
use faisca::renderer::resources::{BuildPlan, NativeObject, ResourceKind, TeardownAction};
use faisca::renderer::swapchain_info::{SurfaceCapabilities, SurfaceFormat, SwapchainSupportInfo};
use faisca::renderer::{
    BuildFailure, FrameEvent, FrameSlot, FrameStage, FrameVerdict, Renderer, RendererError,
    RendererState, MAX_CONCURRENT_FRAMES,
};

const OUT_OF_DATE: i32 = -1_000_001_004;

fn object(kind: ResourceKind, handle: u64) -> TeardownAction {
    TeardownAction::Destroy(NativeObject::Object { kind, handle })
}

fn support(current: Extent2D) -> SwapchainSupportInfo {
    SwapchainSupportInfo {
        capabilities: SurfaceCapabilities {
            min_image_count: 2,
            max_image_count: 3,
            current_extent: current,
            min_image_extent: Extent2D { width: 16, height: 16 },
            max_image_extent: Extent2D { width: 1920, height: 1080 },
            current_transform: 1,
        },
        formats: vec![SurfaceFormat { format: 50, color_space: 0 }],
        present_modes: vec![2],
    }
}

fn free_extent() -> SwapchainSupportInfo {
    support(Extent2D { width: u32::MAX, height: u32::MAX })
}

/// Builds what the plan wants, object after object, with handles that count up
/// from `first`, for a swapchain of `images` images. Returns what was built.
fn build(renderer: &mut Renderer, first: u64, images: usize) -> Vec<(ResourceKind, u64)> {
    let mut built = Vec::new();
    while let Some(kind) = renderer.next_to_build() {
        let handle = first + built.len() as u64;
        assert_eq!(renderer.object_built(kind, Ok(handle)), Ok(()));
        if kind == ResourceKind::Swapchain {
            renderer.set_swapchain_images(images);
        }
        built.push((kind, handle));
    }
    built
}

/// A renderer in the steady state. The handles count up from 1 in the order of
/// construction: the swapchain is 5, its views 6 and 7, the framebuffers 8 and 9.
fn steady() -> Renderer {
    let mut renderer = Renderer::new(Extent2D { width: 800, height: 450 }, false);
    build(&mut renderer, 1, 2);
    assert!(renderer.built());
    renderer.start(70, 71, vec![80, 81], free_extent());
    renderer
}

#[test]
fn out_of_date_code_is_that_of_the_driver() {
    assert_eq!(OUT_OF_DATE, vk::Result::ERROR_OUT_OF_DATE_KHR.as_raw());
}

#[test]
fn new_renderer_is_uninitialized() {
    let renderer = Renderer::new(Extent2D { width: 800, height: 450 }, true);
    assert_eq!(renderer.state(), RendererState::Uninitialized);
    assert_eq!(
        renderer.plan(),
        BuildPlan { debug: true, swapchain_images: 0, frames: MAX_CONCURRENT_FRAMES }
    );
    assert_eq!(renderer.current_frame(), 0);
    assert_eq!(renderer.window_extent(), Extent2D { width: 800, height: 450 });
    assert_eq!(renderer.swapchain_img_extent(), Extent2D { width: 0, height: 0 });
    assert_eq!(*renderer.pending_support(), None);
    assert_eq!(renderer.current_slot(), None);
    assert!(!renderer.built());
    assert_eq!(renderer.next_to_build(), Some(ResourceKind::Instance));
    assert_eq!(renderer.vk_res().instance(), 0);
    assert_eq!(renderer.vk_res().physical_device(), 0);
    assert!(!renderer.vk_res().queue_families().has_all());
    assert_eq!(renderer.vk_res().queue_families().dedicated_transfer_family, None);
    assert_eq!(*renderer.vk_res().swapchain_info(), None);
    let mut renderer = renderer;
    assert_eq!(renderer.destroy(), vec![]);
}

#[test]
fn started_renderer_draws_with_the_first_slot() {
    let renderer = steady();
    assert_eq!(renderer.state(), RendererState::Steady);
    assert!(renderer.built());
    assert_eq!(renderer.swapchain_img_extent(), Extent2D { width: 800, height: 450 });
    assert_eq!(*renderer.vk_res().swapchain_info(), Some(free_extent()));
    assert_eq!(
        renderer.current_slot(),
        Some(FrameSlot {
            index: 0,
            in_flight_fence: 17,
            image_available: 13,
            render_finished: 15,
            command_buffer: 80,
            swapchain: 5,
            graphics_queue: 70,
            present_queue: 71,
        })
    );
    assert_eq!(renderer.vk_res().swapchain_image_views().len(), 2);
    assert_eq!(renderer.vk_res().framebuffers().len(), 2);
}

#[test]
fn start_takes_the_extent_of_the_surface() {
    let mut renderer = Renderer::new(Extent2D { width: 4000, height: 8 }, false);
    build(&mut renderer, 1, 1);
    renderer.start(70, 71, vec![80, 81], free_extent());
    assert_eq!(renderer.swapchain_img_extent(), Extent2D { width: 1920, height: 16 });

    let mut renderer = Renderer::new(Extent2D { width: 4000, height: 8 }, false);
    build(&mut renderer, 1, 1);
    renderer.start(70, 71, vec![80, 81], support(Extent2D { width: 640, height: 480 }));
    assert_eq!(renderer.swapchain_img_extent(), Extent2D { width: 640, height: 480 });
}

#[test]
fn a_renderer_is_built_once_the_subtree_is_whole() {
    let mut renderer = Renderer::new(Extent2D { width: 800, height: 450 }, false);
    for handle in 1..=5 {
        let kind = renderer.next_to_build().unwrap();
        renderer.object_built(kind, Ok(handle)).unwrap();
        assert!(!renderer.built());
    }
    assert_eq!(renderer.vk_res().swapchain(), 5);
    // with no image known, the plan wants no image view
    assert_eq!(renderer.next_to_build(), Some(ResourceKind::PipelineLayout));
    renderer.set_swapchain_images(2);
    assert_eq!(renderer.plan().swapchain_images, 2);
    assert_eq!(renderer.next_to_build(), Some(ResourceKind::ImageView));
    build(&mut renderer, 6, 2);
    assert!(renderer.built());
    // one image view more than the swapchain has images: the subtree is not whole
    renderer.vk_res_mut().register(ResourceKind::ImageView, 99);
    assert_eq!(renderer.next_to_build(), None);
    assert!(!renderer.built());
}

#[test]
fn startup_that_fails_destroys_what_was_built() {
    let total = build(&mut Renderer::new(Extent2D { width: 1, height: 1 }, true), 1, 2).len();
    assert_eq!(total, 19);
    for failing in 0..total {
        let mut renderer = Renderer::new(Extent2D { width: 800, height: 450 }, true);
        let mut built: Vec<(ResourceKind, u64)> = Vec::new();
        let failure = loop {
            let kind = renderer.next_to_build().unwrap();
            if built.len() == failing {
                break (kind, renderer.object_built(kind, Err(-3)).unwrap_err());
            }
            let handle = built.len() as u64 + 1;
            renderer.object_built(kind, Ok(handle)).unwrap();
            if kind == ResourceKind::Swapchain {
                renderer.set_swapchain_images(2);
            }
            built.push((kind, handle));
        };
        let (kind, BuildFailure { error, steps }) = failure;
        let mut expected: Vec<TeardownAction> = Vec::new();
        if built.iter().any(|(kind, _)| *kind == ResourceKind::Device) {
            expected.push(TeardownAction::WaitDeviceIdle);
        }
        expected.extend(built.iter().rev().map(|(kind, handle)| object(*kind, *handle)));
        assert_eq!(steps, expected, "failing at object {failing}");
        assert_eq!(error, faisca::renderer::resources::creation_error(kind, -3));
        assert_eq!(renderer.state(), RendererState::Destroyed);
        // nothing outlives the failure
        assert_eq!(renderer.destroy(), vec![]);
        assert_eq!(renderer.vk_res().instance(), 0);
    }
}

#[test]
fn a_null_surface_fails_the_startup() {
    let mut renderer = Renderer::new(Extent2D { width: 800, height: 450 }, false);
    renderer.object_built(ResourceKind::Instance, Ok(1)).unwrap();
    assert_eq!(renderer.next_to_build(), Some(ResourceKind::Surface));
    assert_eq!(
        renderer.object_built(ResourceKind::Surface, Ok(0)),
        Err(BuildFailure {
            error: RendererError::FailedToCreateVulkanSurface,
            steps: vec![object(ResourceKind::Instance, 1)],
        })
    );
    assert_eq!(renderer.state(), RendererState::Destroyed);
}

#[test]
fn a_failed_instance_leaves_nothing_to_destroy() {
    let mut renderer = Renderer::new(Extent2D { width: 800, height: 450 }, false);
    assert_eq!(
        renderer.object_built(ResourceKind::Instance, Err(-9)),
        Err(BuildFailure { error: RendererError::FailedToCreateInstance(-9), steps: vec![] })
    );
}

#[test]
fn frame_slots_take_turns() {
    let mut renderer = steady();
    assert_eq!(MAX_CONCURRENT_FRAMES, 2);
    assert_eq!(renderer.draw_frame(FrameEvent::Presented), Ok(FrameVerdict::Presented));
    assert_eq!(renderer.current_frame(), 1);
    assert_eq!(
        renderer.current_slot(),
        Some(FrameSlot {
            index: 1,
            in_flight_fence: 18,
            image_available: 14,
            render_finished: 16,
            command_buffer: 81,
            swapchain: 5,
            graphics_queue: 70,
            present_queue: 71,
        })
    );
    assert_eq!(renderer.draw_frame(FrameEvent::Presented), Ok(FrameVerdict::Presented));
    assert_eq!(renderer.current_frame(), 0);
    assert_eq!(renderer.state(), RendererState::Steady);
}

#[test]
fn failures_are_handed_to_the_caller() {
    let mut renderer = steady();
    for stage in [
        FrameStage::WaitForFence,
        FrameStage::AcquireImage,
        FrameStage::ResetCommandBuffer,
        FrameStage::ResetFence,
        FrameStage::Submit,
        FrameStage::Present,
    ] {
        assert_eq!(
            renderer.draw_frame(FrameEvent::Failed { stage, code: -4 }),
            Err(RendererError::FailedToDrawFrame(-4))
        );
    }
    assert_eq!(
        renderer.draw_frame(FrameEvent::Failed { stage: FrameStage::RecordCommands, code: -2 }),
        Err(RendererError::CommandBufferRecordingError(-2))
    );
    // out of date counts as stale at acquire and present only
    for stage in [
        FrameStage::WaitForFence,
        FrameStage::ResetCommandBuffer,
        FrameStage::ResetFence,
        FrameStage::Submit,
    ] {
        assert_eq!(
            renderer.draw_frame(FrameEvent::Failed { stage, code: OUT_OF_DATE }),
            Err(RendererError::FailedToDrawFrame(OUT_OF_DATE))
        );
    }
    assert_eq!(
        renderer.draw_frame(FrameEvent::Failed {
            stage: FrameStage::RecordCommands,
            code: OUT_OF_DATE
        }),
        Err(RendererError::CommandBufferRecordingError(OUT_OF_DATE))
    );
    // the renderer is as it was
    assert_eq!(renderer.state(), RendererState::Steady);
    assert_eq!(renderer.current_frame(), 0);
    assert_eq!(renderer.vk_res().swapchain(), 5);
}

#[test]
fn stale_presentation_asks_for_a_rebuild() {
    for stage in [FrameStage::AcquireImage, FrameStage::Present] {
        let mut renderer = steady();
        renderer.draw_frame(FrameEvent::Presented).unwrap();
        let verdict = renderer.draw_frame(FrameEvent::Failed { stage, code: OUT_OF_DATE });
        assert_eq!(verdict, Ok(FrameVerdict::Recreate));
        // the frame is dropped, and nothing changed yet
        assert_eq!(renderer.state(), RendererState::Steady);
        assert_eq!(renderer.current_frame(), 1);
        assert_eq!(renderer.vk_res().swapchain(), 5);

        let extent = renderer.window_extent();
        let steps = renderer.window_resized(extent.width, extent.height, Ok(free_extent()));
        assert_eq!(
            steps,
            Ok(vec![
                TeardownAction::WaitDeviceIdle,
                object(ResourceKind::Framebuffer, 9),
                object(ResourceKind::Framebuffer, 8),
                object(ResourceKind::ImageView, 7),
                object(ResourceKind::ImageView, 6),
                object(ResourceKind::Swapchain, 5),
            ])
        );
        assert_eq!(renderer.state(), RendererState::Recreating);
        assert_eq!(renderer.current_frame(), 1);
        assert_eq!(renderer.window_extent(), Extent2D { width: 800, height: 450 });
        assert_eq!(renderer.current_slot(), None);
    }
}

#[test]
fn resize_rebuilds_the_subtree_and_nothing_else() {
    let mut renderer = steady();
    renderer.draw_frame(FrameEvent::Presented).unwrap();
    let instance = renderer.vk_res().instance();
    let surface = renderer.vk_res().surface();
    let device = renderer.vk_res().device();
    let pipeline = renderer.vk_res().pipeline();
    let fences = renderer.vk_res().in_flight_fences().to_vec();
    assert_eq!((instance, surface, device), (1, 2, 3));

    let info = free_extent();
    let steps = renderer.window_resized(1024, 768, Ok(info.clone()));
    assert_eq!(
        steps,
        Ok(vec![
            TeardownAction::WaitDeviceIdle,
            object(ResourceKind::Framebuffer, 9),
            object(ResourceKind::Framebuffer, 8),
            object(ResourceKind::ImageView, 7),
            object(ResourceKind::ImageView, 6),
            object(ResourceKind::Swapchain, 5),
        ])
    );
    assert_eq!(renderer.state(), RendererState::Recreating);
    assert_eq!(renderer.window_extent(), Extent2D { width: 1024, height: 768 });
    assert_eq!(renderer.swapchain_img_extent(), Extent2D { width: 800, height: 450 });
    assert_eq!(*renderer.pending_support(), Some(info.clone()));
    assert_eq!(renderer.vk_res().swapchain(), 0);
    assert!(!renderer.built());

    let rebuilt: Vec<ResourceKind> =
        build(&mut renderer, 101, 3).into_iter().map(|(kind, _)| kind).collect();
    assert_eq!(
        rebuilt,
        vec![
            ResourceKind::Swapchain,
            ResourceKind::ImageView,
            ResourceKind::ImageView,
            ResourceKind::ImageView,
            ResourceKind::Framebuffer,
            ResourceKind::Framebuffer,
            ResourceKind::Framebuffer,
        ]
    );
    assert!(renderer.built());
    renderer.swapchain_rebuilt();

    assert_eq!(renderer.state(), RendererState::Steady);
    assert_eq!(renderer.current_frame(), 1);
    assert_eq!(renderer.swapchain_img_extent(), Extent2D { width: 1024, height: 768 });
    assert_eq!(*renderer.vk_res().swapchain_info(), Some(info));
    assert_eq!(*renderer.pending_support(), None);
    assert_eq!(renderer.vk_res().instance(), instance);
    assert_eq!(renderer.vk_res().surface(), surface);
    assert_eq!(renderer.vk_res().device(), device);
    assert_eq!(renderer.vk_res().pipeline(), pipeline);
    assert_eq!(renderer.vk_res().in_flight_fences(), fences.as_slice());
    assert_eq!(renderer.vk_res().swapchain(), 101);
    assert_eq!(renderer.vk_res().swapchain_image_views(), &[102, 103, 104]);
    assert_eq!(renderer.vk_res().framebuffers(), &[105, 106, 107]);
    assert_eq!(renderer.current_slot().map(|slot| slot.swapchain), Some(101));
}

#[test]
fn failed_support_query_leaves_the_renderer_alone() {
    let mut renderer = steady();
    renderer.draw_frame(FrameEvent::Presented).unwrap();
    assert_eq!(
        renderer.window_resized(1024, 768, Err(-1_000_000_000)),
        Err(RendererError::VulkanInfoQueryFailed(-1_000_000_000))
    );
    assert_eq!(renderer.state(), RendererState::Steady);
    assert_eq!(renderer.window_extent(), Extent2D { width: 800, height: 450 });
    assert_eq!(renderer.swapchain_img_extent(), Extent2D { width: 800, height: 450 });
    assert_eq!(renderer.current_frame(), 1);
    assert_eq!(renderer.vk_res().swapchain(), 5);
    assert_eq!(renderer.vk_res().swapchain_image_views(), &[6, 7]);
    assert_eq!(renderer.vk_res().framebuffers(), &[8, 9]);
    assert_eq!(*renderer.pending_support(), None);
    assert!(renderer.current_slot().is_some());
}

#[test]
fn rebuilt_extent_follows_the_surface() {
    let mut renderer = steady();
    renderer
        .window_resized(4000, 8, Ok(support(Extent2D { width: u32::MAX, height: 0 })))
        .unwrap();
    build(&mut renderer, 101, 1);
    renderer.swapchain_rebuilt();
    assert_eq!(renderer.swapchain_img_extent(), Extent2D { width: 1920, height: 16 });

    renderer.window_resized(4000, 8, Ok(support(Extent2D { width: 640, height: 480 }))).unwrap();
    build(&mut renderer, 201, 2);
    renderer.swapchain_rebuilt();
    assert_eq!(renderer.swapchain_img_extent(), Extent2D { width: 640, height: 480 });
    assert_eq!(renderer.window_extent(), Extent2D { width: 4000, height: 8 });
}

#[test]
fn second_resize_during_a_rebuild_drops_the_half_built_subtree() {
    let mut renderer = steady();
    renderer.window_resized(1024, 768, Ok(free_extent())).unwrap();
    renderer.object_built(ResourceKind::Swapchain, Ok(101)).unwrap();
    renderer.set_swapchain_images(2);
    renderer.object_built(ResourceKind::ImageView, Ok(102)).unwrap();
    assert_eq!(
        renderer.window_resized(1280, 720, Ok(free_extent())),
        Ok(vec![
            TeardownAction::WaitDeviceIdle,
            object(ResourceKind::ImageView, 102),
            object(ResourceKind::Swapchain, 101),
        ])
    );
    assert_eq!(renderer.state(), RendererState::Recreating);
    assert_eq!(renderer.window_extent(), Extent2D { width: 1280, height: 720 });
}

#[test]
fn rebuild_that_fails_destroys_everything() {
    let mut renderer = steady();
    renderer.window_resized(1024, 768, Ok(free_extent())).unwrap();
    renderer.object_built(ResourceKind::Swapchain, Ok(101)).unwrap();
    renderer.set_swapchain_images(2);
    let failure = renderer.object_built(ResourceKind::ImageView, Err(-2)).unwrap_err();
    assert_eq!(failure.error, RendererError::FailedToCreateImageView(-2));
    assert_eq!(failure.steps.len(), 15);
    assert_eq!(failure.steps[0], TeardownAction::WaitDeviceIdle);
    assert_eq!(failure.steps[1], object(ResourceKind::InFlightFence, 18));
    assert_eq!(failure.steps[10], object(ResourceKind::Swapchain, 101));
    assert_eq!(failure.steps[11], object(ResourceKind::RenderPass, 4));
    assert_eq!(failure.steps[14], object(ResourceKind::Instance, 1));
    assert_eq!(renderer.state(), RendererState::Destroyed);
}

#[test]
fn destroy_tears_everything_down() {
    let mut renderer = steady();
    let steps = renderer.destroy();
    assert_eq!(steps.len(), 19);
    assert_eq!(steps[0], TeardownAction::WaitDeviceIdle);
    assert_eq!(steps[1], object(ResourceKind::InFlightFence, 18));
    assert_eq!(steps[18], object(ResourceKind::Instance, 1));
    assert_eq!(renderer.state(), RendererState::Destroyed);
    assert_eq!(renderer.current_slot(), None);
    assert_eq!(renderer.vk_res().device(), 0);
    assert_eq!(renderer.destroy(), vec![]);
}

#[test]
fn destroy_of_a_half_built_renderer_destroys_what_there_is() {
    let mut renderer = Renderer::new(Extent2D { width: 1, height: 1 }, true);
    renderer.object_built(ResourceKind::Instance, Ok(1)).unwrap();
    renderer.object_built(ResourceKind::DebugMessenger, Ok(2)).unwrap();
    assert_eq!(
        renderer.destroy(),
        vec![object(ResourceKind::DebugMessenger, 2), object(ResourceKind::Instance, 1)]
    );
    assert_eq!(renderer.state(), RendererState::Destroyed);
}
