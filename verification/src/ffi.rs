//! What crosses the boundary between the engine and the host that owns the
//! window: the messages in both directions, and the rendezvous on which the
//! engine waits for an answer of the host.

use vstd::prelude::*;
use vstd::string::StringSliceAdditionalSpecFns;

verus! {

/// How the window fills the screen.
#[derive(Clone, Copy, PartialEq, Eq, Debug, Structural)]
pub enum Fullscreen {
    No,
    Real,
    BorderlessWindow,
}

impl Fullscreen {
    /// The number that stands for the mode in a message.
    pub open spec fn spec_code(self) -> u8 {
        match self {
            Fullscreen::No => 0,
            Fullscreen::Real => 1,
            Fullscreen::BorderlessWindow => 2,
        }
    }

    /// The number that stands for the mode in a message.
    #[verifier::when_used_as_spec(spec_code)]
    pub fn code(self) -> (code: u8)
        ensures
            code == self.spec_code(),
    {
        match self {
            Fullscreen::No => 0,
            Fullscreen::Real => 1,
            Fullscreen::BorderlessWindow => 2,
        }
    }

    /// The mode that a number stands for.
    pub fn from_code(code: u8) -> (mode: Option<Self>)
        ensures
            match mode {
                Some(m) => m.spec_code() == code,
                None => code > 2,
            },
    {
        if code == 0 {
            Some(Fullscreen::No)
        } else if code == 1 {
            Some(Fullscreen::Real)
        } else if code == 2 {
            Some(Fullscreen::BorderlessWindow)
        } else {
            None
        }
    }
}

/// Something that happened to the window.
#[derive(Clone, Copy, PartialEq, Eq, Debug, Structural)]
pub enum WindowEvent {
    Quit,
    WindowResize { w: u32, h: u32 },
}

impl WindowEvent {
    /// The number that stands for the kind of event in a message.
    pub open spec fn spec_tag(self) -> u32 {
        match self {
            WindowEvent::Quit => 1,
            WindowEvent::WindowResize { .. } => 2,
        }
    }

    /// The number that stands for the kind of event in a message.
    #[verifier::when_used_as_spec(spec_tag)]
    pub fn tag(self) -> (tag: u32)
        ensures
            tag == self.spec_tag(),
    {
        match self {
            WindowEvent::Quit => 1,
            WindowEvent::WindowResize { .. } => 2,
        }
    }
}

/// A width and a height in pixels.
#[derive(Clone, Copy, PartialEq, Eq, Debug, Structural)]
pub struct Extent2D {
    pub width: u32,
    pub height: u32,
}

/// The host's name for a window.
#[derive(Clone, Copy, PartialEq, Eq, Debug, Structural)]
pub struct WindowInstance(usize);

impl WindowInstance {
    /// The number behind the name.
    pub closed spec fn raw(self) -> usize {
        self.0
    }

    /// The name of no window.
    pub fn null() -> (window: Self)
        ensures
            window.raw() == 0,
    {
        WindowInstance(0)
    }

    /// The name that the host gave.
    pub fn from_raw(raw: usize) -> (window: Self)
        ensures
            window.raw() == raw,
    {
        WindowInstance(raw)
    }

    /// The number behind the name.
    pub fn as_raw(self) -> (raw: usize)
        ensures
            raw == self.raw(),
    {
        self.0
    }
}

/// Some byte of `bytes` is zero.
pub open spec fn has_nul(bytes: Seq<u8>) -> bool {
    exists|i: int| 0 <= i < bytes.len() && bytes[i] == 0
}

/// Byte `position` of `bytes` is zero, and no byte before it is.
pub open spec fn is_first_nul(bytes: Seq<u8>, position: int) -> bool {
    &&& 0 <= position < bytes.len()
    &&& bytes[position] == 0
    &&& forall|j: int| 0 <= j < position ==> bytes[j] != 0
}

/// A text cannot be handed to the host: it holds a zero byte at `position`.
#[derive(Clone, Copy, PartialEq, Eq, Debug, Structural)]
pub struct NulError {
    pub position: usize,
}

/// A text that can be handed to the host as a string that a zero byte ends: it
/// holds no zero byte itself.
#[derive(Clone, Debug)]
pub struct SafeCString {
    bytes: Vec<u8>,
}

impl View for SafeCString {
    type V = Seq<u8>;

    closed spec fn view(&self) -> Seq<u8> {
        self.bytes@
    }
}

impl SafeCString {
    /// The text holds no zero byte.
    pub open spec fn wf(&self) -> bool {
        !has_nul(self@)
    }

    /// Keeps the bytes of `text`, unless one of them is zero: then the error
    /// names the first zero byte.
    pub fn allocate_from_str(text: &str) -> (made: Result<SafeCString, NulError>)
        ensures
            match made {
                Ok(string) => string@ == text.spec_bytes() && string.wf(),
                Err(error) => is_first_nul(text.spec_bytes(), error.position as int),
            },
    {
        let source = text.as_bytes();
        let n = source.len();
        let mut bytes: Vec<u8> = Vec::new();
        let mut i: usize = 0;
        while i < n
            invariant
                n == source@.len(),
                source@ == text.spec_bytes(),
                i <= n,
                bytes@ == source@.take(i as int),
                forall|j: int| 0 <= j < i ==> source@[j] != 0,
            decreases n - i,
        {
            let byte = source[i];
            if byte == 0 {
                return Err(NulError { position: i });
            }
            bytes.push(byte);
            assert(bytes@ =~= source@.take(i as int + 1));
            i = i + 1;
        }
        assert(bytes@ =~= source@);
        Ok(SafeCString { bytes })
    }

    /// The bytes of the text, without the zero byte that ends it at the host.
    pub fn as_bytes(&self) -> (bytes: &[u8])
        ensures
            bytes@ == self@,
    {
        self.bytes.as_slice()
    }
}

/// What the waiter on a binding does next.
#[derive(Clone, Copy, PartialEq, Eq, Debug, Structural)]
pub enum WaitStep {
    /// The answer is there: the waiter goes on.
    Resume,
    /// No answer yet: the waiter blocks until it is woken, and asks again.
    Block,
}

/// What can happen to the flag of a binding.
#[derive(Clone, Copy, PartialEq, Eq, Debug, Structural)]
pub enum BindingEvent {
    /// The engine clears the flag.
    Reset,
    /// The host says that the answer is there.
    Notify,
}

/// The flag after one event: set by a notification, cleared by a reset.
pub open spec fn ready_after_event(ready: bool, event: BindingEvent) -> bool {
    match event {
        BindingEvent::Reset => false,
        BindingEvent::Notify => true,
    }
}

/// The flag after a sequence of events, in order.
pub open spec fn ready_after(ready: bool, events: Seq<BindingEvent>) -> bool
    decreases events.len(),
{
    if events.len() == 0 {
        ready
    } else {
        ready_after_event(ready_after(ready, events.drop_last()), events.last())
    }
}

/// The rendezvous of one request to the host: a flag that says whether the
/// host's answer is there. The engine makes the binding, sends the request and
/// waits on the flag; the host writes the answer and then sets the flag.
#[derive(Clone, Copy, PartialEq, Eq, Debug, Structural)]
pub struct ResponseBinding {
    ready: bool,
}

impl ResponseBinding {
    /// Whether the host said that the answer is there.
    pub closed spec fn is_ready(&self) -> bool {
        self.ready
    }

    /// A binding whose answer is not there yet.
    pub fn new() -> (binding: Self)
        ensures
            !binding.is_ready(),
    {
        ResponseBinding { ready: false }
    }

    /// Clears the flag.
    pub fn reset(&mut self)
        ensures
            final(self).is_ready() == ready_after_event(old(self).is_ready(), BindingEvent::Reset),
    {
        self.ready = false;
    }

    /// One step of waiting: the waiter goes on exactly where the flag is set.
    pub fn wait(&self) -> (step: WaitStep)
        ensures
            step == if self.is_ready() {
                WaitStep::Resume
            } else {
                WaitStep::Block
            },
    {
        if self.ready {
            WaitStep::Resume
        } else {
            WaitStep::Block
        }
    }

    /// Sets the flag. Every waiter is to be woken after it.
    pub fn notify(&mut self)
        ensures
            final(self).is_ready() == ready_after_event(old(self).is_ready(), BindingEvent::Notify),
    {
        self.ready = true;
    }
}

/// A waiter goes on only after a notification: where the flag of a new binding
/// is set after some events, one of them was a notification, and no reset
/// followed it.
pub proof fn lemma_resume_needs_notify(events: Seq<BindingEvent>)
    requires
        ready_after(false, events),
    ensures
        exists|i: int|
            0 <= i < events.len() && events[i] == BindingEvent::Notify && forall|j: int|
                i < j < events.len() ==> events[j] != BindingEvent::Reset,
{
    let last = events.len() - 1;
    assert(events.len() > 0);
    assert(events[last] == BindingEvent::Notify);
}

/// Until the host notifies, the waiter blocks: resets alone never set the flag.
pub proof fn lemma_blocks_without_notify(events: Seq<BindingEvent>)
    requires
        forall|i: int| 0 <= i < events.len() ==> events[i] != BindingEvent::Notify,
    ensures
        !ready_after(false, events),
    decreases events.len(),
{
    if events.len() > 0 {
        lemma_blocks_without_notify(events.drop_last());
    }
}

/// A second notification changes nothing: after one notification the flag is
/// set, and it stays set under any number of further notifications.
pub proof fn lemma_notify_again_is_noop(ready: bool, events: Seq<BindingEvent>)
    requires
        events.len() > 0,
        forall|i: int| 0 <= i < events.len() ==> events[i] == BindingEvent::Notify,
    ensures
        ready_after(ready, events),
        ready_after(ready, events.push(BindingEvent::Notify)) == ready_after(ready, events),
{
    let more = events.push(BindingEvent::Notify);
    assert(more.drop_last() =~= events);
}

/// What kind of answer a request to the host asks for.
#[derive(Clone, Copy, PartialEq, Eq, Debug, Structural)]
pub enum AnswerKind {
    /// The handle of a native rendering surface.
    SurfaceHandle,
    /// The extent of the viewport.
    ViewportExtent,
}

/// A message of the engine to the host. A binding and a channel are named by
/// the token that the engine gave them.
#[derive(Clone, Debug)]
pub enum AppMessage {
    SetWindowSize { width: u32, height: u32 },
    SetFullscreen(Fullscreen),
    SetBorderless(bool),
    SetWindowTitle(SafeCString),
    SetWindowResizable(bool),
    /// Asks for a surface of the window for the rendering instance.
    CreateVulkanSurface { instance: u64, out_binding: usize },
    /// Asks for the extent of the viewport.
    QueryViewportExtents { out_binding: usize },
    SetMsgBackchannel { channel: usize },
    PumpEvents,
}

impl AppMessage {
    /// The number that stands for the kind of message.
    pub open spec fn spec_tag(&self) -> u32 {
        match self {
            AppMessage::SetWindowSize { .. } => 1,
            AppMessage::SetFullscreen(_) => 2,
            AppMessage::SetBorderless(_) => 3,
            AppMessage::SetWindowTitle(_) => 4,
            AppMessage::SetWindowResizable(_) => 5,
            AppMessage::CreateVulkanSurface { .. } => 1025,
            AppMessage::QueryViewportExtents { .. } => 1026,
            AppMessage::SetMsgBackchannel { .. } => 1027,
            AppMessage::PumpEvents => 2049,
        }
    }

    /// The binding that the host answers through and the kind of answer, for a
    /// message that asks for one.
    pub open spec fn spec_answer(&self) -> Option<(usize, AnswerKind)> {
        match self {
            AppMessage::CreateVulkanSurface { out_binding, .. } => Some(
                (*out_binding, AnswerKind::SurfaceHandle),
            ),
            AppMessage::QueryViewportExtents { out_binding } => Some(
                (*out_binding, AnswerKind::ViewportExtent),
            ),
            _ => None,
        }
    }

    /// The number that stands for the kind of message.
    #[verifier::when_used_as_spec(spec_tag)]
    pub fn tag(&self) -> (tag: u32)
        ensures
            tag == self.spec_tag(),
    {
        match self {
            AppMessage::SetWindowSize { .. } => 1,
            AppMessage::SetFullscreen(_) => 2,
            AppMessage::SetBorderless(_) => 3,
            AppMessage::SetWindowTitle(_) => 4,
            AppMessage::SetWindowResizable(_) => 5,
            AppMessage::CreateVulkanSurface { .. } => 1025,
            AppMessage::QueryViewportExtents { .. } => 1026,
            AppMessage::SetMsgBackchannel { .. } => 1027,
            AppMessage::PumpEvents => 2049,
        }
    }

    /// The binding that the host answers through and the kind of answer, for a
    /// message that asks for one.
    #[verifier::when_used_as_spec(spec_answer)]
    pub fn answer(&self) -> (answer: Option<(usize, AnswerKind)>)
        ensures
            answer == self.spec_answer(),
    {
        match self {
            AppMessage::CreateVulkanSurface { out_binding, .. } => Some(
                (*out_binding, AnswerKind::SurfaceHandle),
            ),
            AppMessage::QueryViewportExtents { out_binding } => Some(
                (*out_binding, AnswerKind::ViewportExtent),
            ),
            _ => None,
        }
    }
}

/// A message of the host to the engine.
#[derive(Clone, Debug)]
pub enum WindowMessage {
    /// Sent once, before anything else: the instance extensions that the
    /// platform needs.
    VulkanRequiredInstanceExtensions { names: Vec<String> },
    /// The answer of a request is there.
    ResponseNotify { binding_address: usize },
    /// Something happened to a window.
    WindowEvent { channel: usize, event: WindowEvent },
}

/// What the engine does on a message of the host.
#[derive(Clone, Debug)]
pub enum EngineAction {
    /// Keep the instance extensions for the start of the renderer.
    StoreInstanceExtensions { names: Vec<String> },
    /// Notify the binding and wake its waiter.
    WakeBinding { binding: usize },
    /// Hand the event to the channel; close the channel after a quit.
    DeliverEvent { channel: usize, window: WindowInstance, event: WindowEvent, close_channel: bool },
}

impl WindowMessage {
    /// The number that stands for the kind of message.
    pub open spec fn spec_tag(&self) -> u32 {
        match self {
            WindowMessage::VulkanRequiredInstanceExtensions { .. } => 1,
            WindowMessage::ResponseNotify { .. } => 2,
            WindowMessage::WindowEvent { .. } => 3,
        }
    }

    /// The number that stands for the kind of message.
    #[verifier::when_used_as_spec(spec_tag)]
    pub fn tag(&self) -> (tag: u32)
        ensures
            tag == self.spec_tag(),
    {
        match self {
            WindowMessage::VulkanRequiredInstanceExtensions { .. } => 1,
            WindowMessage::ResponseNotify { .. } => 2,
            WindowMessage::WindowEvent { .. } => 3,
        }
    }

    /// What the engine does on this message for window `w`: it keeps the
    /// extensions, wakes the binding that the message names, or hands the
    /// event to the channel. Every event is handed on; a quit is the last one
    /// of its channel.
    pub fn action(self, w: WindowInstance) -> (action: EngineAction)
        ensures
            match self {
                WindowMessage::VulkanRequiredInstanceExtensions { names } => action
                    == (EngineAction::StoreInstanceExtensions { names }),
                WindowMessage::ResponseNotify { binding_address } => action
                    == (EngineAction::WakeBinding { binding: binding_address }),
                WindowMessage::WindowEvent { channel, event } => action
                    == (EngineAction::DeliverEvent {
                    channel,
                    window: w,
                    event,
                    close_channel: event == WindowEvent::Quit,
                }),
            },
    {
        match self {
            WindowMessage::VulkanRequiredInstanceExtensions { names } => {
                EngineAction::StoreInstanceExtensions { names }
            },
            WindowMessage::ResponseNotify { binding_address } => EngineAction::WakeBinding {
                binding: binding_address,
            },
            WindowMessage::WindowEvent { channel, event } => {
                let close_channel = match event {
                    WindowEvent::Quit => true,
                    WindowEvent::WindowResize { .. } => false,
                };
                EngineAction::DeliverEvent { channel, window: w, event, close_channel }
            },
        }
    }
}

} // verus!
