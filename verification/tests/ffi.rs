use faisca::ffi::{
    AnswerKind, AppMessage, EngineAction, Extent2D, Fullscreen, NulError, ResponseBinding,
    SafeCString, WaitStep, WindowEvent, WindowInstance, WindowMessage,
};

#[test]
fn fullscreen_codes() {
    assert_eq!(Fullscreen::No.code(), 0);
    assert_eq!(Fullscreen::Real.code(), 1);
    assert_eq!(Fullscreen::BorderlessWindow.code(), 2);
    assert_eq!(Fullscreen::from_code(0), Some(Fullscreen::No));
    assert_eq!(Fullscreen::from_code(1), Some(Fullscreen::Real));
    assert_eq!(Fullscreen::from_code(2), Some(Fullscreen::BorderlessWindow));
    assert_eq!(Fullscreen::from_code(3), None);
    assert_eq!(Fullscreen::from_code(255), None);
}

#[test]
fn window_event_tags() {
    assert_eq!(WindowEvent::Quit.tag(), 1);
    assert_eq!(WindowEvent::WindowResize { w: 3, h: 4 }.tag(), 2);
}

#[test]
fn window_instance_keeps_its_number() {
    assert_eq!(WindowInstance::null().as_raw(), 0);
    assert_eq!(WindowInstance::from_raw(0xbeef).as_raw(), 0xbeef);
    assert_eq!(WindowInstance::from_raw(0), WindowInstance::null());
}

#[test]
fn extent_is_width_and_height() {
    let extent = Extent2D { width: 800, height: 450 };
    assert_eq!(extent.width, 800);
    assert_eq!(extent.height, 450);
}

#[test]
fn text_without_zero_byte_is_kept() {
    let title = SafeCString::allocate_from_str("VkTut").unwrap();
    assert_eq!(title.as_bytes(), b"VkTut");
    let empty = SafeCString::allocate_from_str("").unwrap();
    assert_eq!(empty.as_bytes(), b"");
    let accents = SafeCString::allocate_from_str("Faísca").unwrap();
    assert_eq!(accents.as_bytes(), "Faísca".as_bytes());
    assert_eq!(accents.as_bytes().len(), 7);
}

#[test]
fn text_with_zero_byte_is_refused_at_the_first_one() {
    assert_eq!(
        SafeCString::allocate_from_str("ab\0cd\0").err(),
        Some(NulError { position: 2 })
    );
    assert_eq!(SafeCString::allocate_from_str("\0").err(), Some(NulError { position: 0 }));
    assert_eq!(SafeCString::allocate_from_str("ab\0").err(), Some(NulError { position: 2 }));
}

#[test]
fn new_binding_blocks_until_notified() {
    let mut binding = ResponseBinding::new();
    assert_eq!(binding.wait(), WaitStep::Block);
    assert_eq!(binding.wait(), WaitStep::Block);
    binding.notify();
    assert_eq!(binding.wait(), WaitStep::Resume);
    assert_eq!(binding.wait(), WaitStep::Resume);
}

#[test]
fn second_notify_changes_nothing() {
    let mut once = ResponseBinding::new();
    once.notify();
    let mut twice = ResponseBinding::new();
    twice.notify();
    twice.notify();
    assert_eq!(once, twice);
    assert_eq!(twice.wait(), WaitStep::Resume);
}

#[test]
fn reset_makes_the_waiter_block_again() {
    let mut binding = ResponseBinding::new();
    binding.reset();
    assert_eq!(binding.wait(), WaitStep::Block);
    binding.notify();
    binding.reset();
    assert_eq!(binding.wait(), WaitStep::Block);
    assert_eq!(binding, ResponseBinding::new());
    binding.notify();
    assert_eq!(binding.wait(), WaitStep::Resume);
}

#[test]
fn app_message_tags() {
    let title = SafeCString::allocate_from_str("t").unwrap();
    assert_eq!(AppMessage::SetWindowSize { width: 1, height: 2 }.tag(), 1);
    assert_eq!(AppMessage::SetFullscreen(Fullscreen::Real).tag(), 2);
    assert_eq!(AppMessage::SetBorderless(true).tag(), 3);
    assert_eq!(AppMessage::SetWindowTitle(title).tag(), 4);
    assert_eq!(AppMessage::SetWindowResizable(false).tag(), 5);
    assert_eq!(AppMessage::CreateVulkanSurface { instance: 9, out_binding: 1 }.tag(), 1025);
    assert_eq!(AppMessage::QueryViewportExtents { out_binding: 1 }.tag(), 1026);
    assert_eq!(AppMessage::SetMsgBackchannel { channel: 5 }.tag(), 1027);
    assert_eq!(AppMessage::PumpEvents.tag(), 2049);
}

#[test]
fn only_requests_expect_an_answer() {
    assert_eq!(
        AppMessage::CreateVulkanSurface { instance: 9, out_binding: 17 }.answer(),
        Some((17, AnswerKind::SurfaceHandle))
    );
    assert_eq!(
        AppMessage::QueryViewportExtents { out_binding: 18 }.answer(),
        Some((18, AnswerKind::ViewportExtent))
    );
    assert_eq!(AppMessage::PumpEvents.answer(), None);
    assert_eq!(AppMessage::SetWindowSize { width: 1, height: 2 }.answer(), None);
    assert_eq!(AppMessage::SetMsgBackchannel { channel: 5 }.answer(), None);
}

#[test]
fn window_message_tags() {
    assert_eq!(WindowMessage::VulkanRequiredInstanceExtensions { names: vec![] }.tag(), 1);
    assert_eq!(WindowMessage::ResponseNotify { binding_address: 4 }.tag(), 2);
    assert_eq!(WindowMessage::WindowEvent { channel: 1, event: WindowEvent::Quit }.tag(), 3);
}

#[test]
fn host_messages_become_actions() {
    let window = WindowInstance::from_raw(3);
    let names = vec![String::from("VK_KHR_surface"), String::from("VK_KHR_xcb_surface")];
    match (WindowMessage::VulkanRequiredInstanceExtensions { names: names.clone() }).action(window) {
        EngineAction::StoreInstanceExtensions { names: stored } => assert_eq!(stored, names),
        other => panic!("unexpected action {other:?}"),
    }
    match (WindowMessage::ResponseNotify { binding_address: 0x1000 }).action(window) {
        EngineAction::WakeBinding { binding } => assert_eq!(binding, 0x1000),
        other => panic!("unexpected action {other:?}"),
    }
}

#[test]
fn every_event_is_delivered_and_quit_closes_the_channel() {
    let window = WindowInstance::from_raw(3);
    match (WindowMessage::WindowEvent { channel: 8, event: WindowEvent::Quit }).action(window) {
        EngineAction::DeliverEvent { channel, window: w, event, close_channel } => {
            assert_eq!(channel, 8);
            assert_eq!(w, window);
            assert_eq!(event, WindowEvent::Quit);
            assert!(close_channel);
        }
        other => panic!("unexpected action {other:?}"),
    }
    let resize = WindowEvent::WindowResize { w: 640, h: 480 };
    match (WindowMessage::WindowEvent { channel: 8, event: resize }).action(window) {
        EngineAction::DeliverEvent { channel, window: w, event, close_channel } => {
            assert_eq!(channel, 8);
            assert_eq!(w, window);
            assert_eq!(event, resize);
            assert!(!close_channel);
        }
        other => panic!("unexpected action {other:?}"),
    }
}
