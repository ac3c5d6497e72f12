//! The window facade and the adapter contract a host window must meet.
//!
//! A `Window` wraps the runtime's per-window state and forwards windowing
//! operations to a host-supplied adapter.  Event positions arrive in
//! logical pixels relative to the window's top left corner and are mapped
//! to the runtime's input events.

use vstd::prelude::*;
use crate::geometry::LogicalPosition;
use crate::geometry::PhysicalPosition;
use crate::geometry::PhysicalSize;
use crate::geometry::ScaleFactor;
use crate::geometry::WindowPosition;
use crate::geometry::WindowSize;

verus! {

/// The rendering lifecycle tags handed to a rendering notifier, in their
/// order: setup precedes any before/after pair, teardown is terminal.
#[derive(Clone, Copy, PartialEq, Eq, Structural, Debug)]
pub enum RenderingState {
    /// The window and graphics context exist.
    RenderingSetup,
    /// The scene is about to be rendered.
    BeforeRendering,
    /// The scene was rendered; the back buffer is not presented yet.
    AfterRendering,
    /// The window or its graphics resources are about to go away.
    RenderingTeardown,
}

/// Which rendering state may follow which: setup opens the lifecycle,
/// every before is answered by at most one after before the next before
/// or the teardown, and teardown is terminal.
pub open spec fn rendering_state_may_follow(prev: Option<RenderingState>, next: RenderingState) -> bool {
    match prev {
        None => next == RenderingState::RenderingSetup,
        Some(RenderingState::RenderingSetup) => next == RenderingState::BeforeRendering || next
            == RenderingState::RenderingTeardown,
        Some(RenderingState::BeforeRendering) => next == RenderingState::AfterRendering || next
            == RenderingState::BeforeRendering || next == RenderingState::RenderingTeardown,
        Some(RenderingState::AfterRendering) => next == RenderingState::BeforeRendering || next
            == RenderingState::RenderingTeardown,
        Some(RenderingState::RenderingTeardown) => false,
    }
}

/// The rendering lifecycle of one surface, enforcing the order of the
/// state tags a notifier may observe.
pub struct RenderingStateTracker {
    last: Option<RenderingState>,
}

impl RenderingStateTracker {
    /// The last state notified, if any.
    pub closed spec fn spec_last(&self) -> Option<RenderingState> {
        self.last
    }

    /// A fresh surface: nothing notified yet.
    pub fn new() -> (r: Self)
        ensures
            r.spec_last() is None,
    {
        RenderingStateTracker { last: None }
    }

    /// Record the next state if the lifecycle permits it: setup first,
    /// then before/after pairs, teardown terminal.  Returns whether the
    /// transition was legal; an illegal one changes nothing.
    pub fn advance(&mut self, next: RenderingState) -> (r: bool)
        ensures
            r == rendering_state_may_follow(old(self).spec_last(), next),
            r ==> final(self).spec_last() == Some(next),
            !r ==> final(self).spec_last() == old(self).spec_last(),
    {
        let ok = match (&self.last, next) {
            (None, RenderingState::RenderingSetup) => true,
            (None, _) => false,
            (Some(RenderingState::RenderingSetup), RenderingState::BeforeRendering) => true,
            (Some(RenderingState::RenderingSetup), RenderingState::RenderingTeardown) => true,
            (Some(RenderingState::RenderingSetup), _) => false,
            (Some(RenderingState::BeforeRendering), RenderingState::AfterRendering) => true,
            (Some(RenderingState::BeforeRendering), RenderingState::BeforeRendering) => true,
            (Some(RenderingState::BeforeRendering), RenderingState::RenderingTeardown) => true,
            (Some(RenderingState::BeforeRendering), _) => false,
            (Some(RenderingState::AfterRendering), RenderingState::BeforeRendering) => true,
            (Some(RenderingState::AfterRendering), RenderingState::RenderingTeardown) => true,
            (Some(RenderingState::AfterRendering), _) => false,
            (Some(RenderingState::RenderingTeardown), _) => false,
        };
        if ok {
            self.last = Some(next);
        }
        ok
    }
}

/// Low-level access to the graphics API used by the renderer.
#[derive(Clone, PartialEq, Eq, Debug)]
pub enum GraphicsAPI {
    /// Rendering through native OpenGL; the host resolves proc addresses.
    NativeOpenGL,
    /// Rendering into a Web canvas element.
    WebGL {
        /// The DOM element id of the canvas.
        canvas_element_id: String,
        /// The context type passed to the canvas element.
        context_type: String,
    },
}

/// A host-side callback invoked during the phases of rendering.
pub trait RenderingNotifier {
    /// Called to notify that rendering has reached the given state.
    fn notify(&mut self, state: RenderingState, graphics_api: &GraphicsAPI);
}

/// Why installing a rendering notifier failed.
#[derive(Clone, Copy, PartialEq, Eq, Structural, Debug)]
pub enum SetRenderingNotifierError {
    /// The rendering backend does not support rendering notifiers.
    Unsupported,
    /// A rendering notifier is already installed.
    AlreadySet,
}

/// The answer of a close-requested callback.
#[derive(Clone, Copy, PartialEq, Eq, Structural, Debug)]
pub enum CloseRequestResponse {
    /// Hide the window (the default).
    HideWindow,
    /// Keep the window shown.
    KeepWindowShown,
}

impl Default for CloseRequestResponse {
    /// The default response hides the window.
    fn default() -> (r: Self)
        ensures
            r == CloseRequestResponse::HideWindow,
    {
        CloseRequestResponse::HideWindow
    }
}

/// A pointer button in an input event.
#[derive(Clone, Copy, PartialEq, Eq, Structural, Debug)]
pub enum PointerEventButton {
    /// No button, for instance in a move event.
    NoButton,
    /// The left button.
    Left,
    /// The right button.
    Right,
    /// The middle button.
    Middle,
}

/// A user-input event as a host backend reports it.  Positions are in
/// logical pixels relative to the window's top left corner.
#[derive(Clone, PartialEq, Eq, Debug)]
pub enum WindowEvent {
    /// A pointer button was pressed.
    PointerPressed {
        /// The pointer position.
        position: LogicalPosition,
        /// The pressed button.
        button: PointerEventButton,
    },
    /// A pointer button was released.
    PointerReleased {
        /// The pointer position.
        position: LogicalPosition,
        /// The released button.
        button: PointerEventButton,
    },
    /// The pointer moved.
    PointerMoved {
        /// The pointer position.
        position: LogicalPosition,
    },
    /// The pointer wheel or touchpad scrolled.
    PointerScrolled {
        /// The pointer position.
        position: LogicalPosition,
        /// The horizontal scroll delta in logical subpixel units.
        delta_x: i64,
        /// The vertical scroll delta in logical subpixel units.
        delta_y: i64,
    },
    /// The pointer left the window.
    PointerExited,
    /// A key was pressed.
    KeyPressed {
        /// The text the key produces.
        text: String,
    },
    /// A key was released.
    KeyReleased {
        /// The text the key produces.
        text: String,
    },
}

/// A pointer event as the scene consumes it.
#[derive(Clone, PartialEq, Eq, Debug)]
pub enum MouseEvent {
    /// A button went down at a position.
    Pressed {
        /// The pointer position.
        position: LogicalPosition,
        /// The pressed button.
        button: PointerEventButton,
    },
    /// A button went up at a position.
    Released {
        /// The pointer position.
        position: LogicalPosition,
        /// The released button.
        button: PointerEventButton,
    },
    /// The pointer moved.
    Moved {
        /// The pointer position.
        position: LogicalPosition,
    },
    /// The wheel scrolled.
    Wheel {
        /// The pointer position.
        position: LogicalPosition,
        /// The horizontal delta in logical subpixel units.
        delta_x: i64,
        /// The vertical delta in logical subpixel units.
        delta_y: i64,
    },
    /// The pointer left the window.
    Exit,
}

/// Whether a key went down or up.
#[derive(Clone, Copy, PartialEq, Eq, Structural, Debug)]
pub enum KeyEventType {
    /// The key was pressed.
    KeyPressed,
    /// The key was released.
    KeyReleased,
}

/// A key event as the scene consumes it.
#[derive(Clone, PartialEq, Eq, Debug)]
pub struct KeyInputEvent {
    /// The text the key produces.
    pub text: String,
    /// Whether the key went down or up.
    pub event_type: KeyEventType,
}

/// A window event mapped onto the scene's input events.
#[derive(Clone, PartialEq, Eq, Debug)]
pub enum DispatchedEvent {
    /// A pointer event.
    Mouse(MouseEvent),
    /// A key event.
    Key(KeyInputEvent),
}

/// What `dispatch_event` turns each window event into.
pub open spec fn spec_dispatch(event: WindowEvent) -> DispatchedEvent {
    match event {
        WindowEvent::PointerPressed { position, button } => DispatchedEvent::Mouse(
            MouseEvent::Pressed { position, button },
        ),
        WindowEvent::PointerReleased { position, button } => DispatchedEvent::Mouse(
            MouseEvent::Released { position, button },
        ),
        WindowEvent::PointerMoved { position } => DispatchedEvent::Mouse(
            MouseEvent::Moved { position },
        ),
        WindowEvent::PointerScrolled { position, delta_x, delta_y } => DispatchedEvent::Mouse(
            MouseEvent::Wheel { position, delta_x, delta_y },
        ),
        WindowEvent::PointerExited => DispatchedEvent::Mouse(MouseEvent::Exit),
        WindowEvent::KeyPressed { text } => DispatchedEvent::Key(
            KeyInputEvent { text, event_type: KeyEventType::KeyPressed },
        ),
        WindowEvent::KeyReleased { text } => DispatchedEvent::Key(
            KeyInputEvent { text, event_type: KeyEventType::KeyReleased },
        ),
    }
}

/// The capability set the runtime requires of a concrete host window.
/// Host backends implement this; the runtime makes no assumption about
/// what the host does with each call.
pub trait WindowAdapter {
    /// Register the window with the windowing system.
    fn show(&mut self);

    /// De-register the window from the windowing system.
    fn hide_window(&mut self);

    /// Ask the windowing system to redraw the window's contents; the host
    /// may coalesce requests.
    fn request_redraw(&mut self);

    /// The window's position on screen, in physical pixels, frame
    /// included.
    fn position(&self) -> PhysicalPosition;

    /// Move the window; hosts on protocols that forbid placement ignore
    /// this.
    fn set_position(&mut self, position: PhysicalPosition);

    /// Resize the window's client area, in physical pixels.
    fn set_size(&mut self, size: PhysicalSize);

    /// Whether the window is currently visible.
    fn is_visible(&self) -> bool;
}

/// The notifier slot of a renderer: whether the backend supports
/// rendering notifiers and whether one is installed.  The callback itself
/// lives with the host; the runtime tracks the slot.
#[derive(Clone, Copy, PartialEq, Eq, Structural, Debug)]
pub struct RendererNotifierSlot {
    /// Whether the backend supports rendering notifiers at all.
    pub supported: bool,
    /// Whether a notifier is installed; it can only be replaced with a
    /// fresh renderer, never removed.
    pub installed: bool,
}

/// A window: the runtime's per-window state in front of a host adapter.
/// The window owns the adapter; everything the runtime promises is about
/// its own state, while adapter calls are forwarded as the host contract
/// asks.
///
/// This inverts the reference-counted shape where an adapter owns its
/// window and the window keeps a weak back reference: that cycle is
/// shared-ownership plumbing the verifier cannot follow, so here the
/// ownership runs one way and a host that needs the cycle builds it
/// around this type (as the bindings crate does).  The graceful
/// "adapter is gone" degradation of the weak back reference has no
/// analog here: the adapter lives exactly as long as its window.
pub struct Window<A: WindowAdapter> {
    adapter: A,
    inner_size: PhysicalSize,
    scale: ScaleFactor,
    requested_visible: bool,
    notifier_slot: RendererNotifierSlot,
    close_callback_set: bool,
    active_animations: bool,
}

impl<A: WindowAdapter> Window<A> {
    /// The window's scale factor is always valid, an invariant every
    /// operation keeps.
    pub closed spec fn wf(&self) -> bool {
        self.scale.is_valid()
    }

    /// The tracked client-area size.
    pub closed spec fn spec_size(&self) -> PhysicalSize {
        self.inner_size
    }

    /// The tracked scale factor.
    pub closed spec fn spec_scale(&self) -> ScaleFactor {
        self.scale
    }

    /// Whether the runtime has asked for the window to be shown.
    pub closed spec fn spec_visible_requested(&self) -> bool {
        self.requested_visible
    }

    /// The renderer's notifier slot.
    pub closed spec fn spec_notifier_slot(&self) -> RendererNotifierSlot {
        self.notifier_slot
    }

    /// Whether a close-requested callback is installed.
    pub closed spec fn spec_close_callback_set(&self) -> bool {
        self.close_callback_set
    }

    /// Create a new window around a host adapter.  `supports_notifier`
    /// says whether the adapter's renderer accepts rendering notifiers.
    pub fn new(adapter: A, scale: ScaleFactor, supports_notifier: bool) -> (r: Self)
        requires
            scale.is_valid(),
        ensures
            r.wf(),
            r.spec_scale() == scale,
            r.spec_size() == (PhysicalSize { width: 0u32, height: 0u32 }),
            !r.spec_visible_requested(),
            r.spec_notifier_slot() == (RendererNotifierSlot {
                supported: supports_notifier,
                installed: false,
            }),
            !r.spec_close_callback_set(),
    {
        Window {
            adapter,
            inner_size: PhysicalSize { width: 0, height: 0 },
            scale,
            requested_visible: false,
            notifier_slot: RendererNotifierSlot { supported: supports_notifier, installed: false },
            close_callback_set: false,
            active_animations: false,
        }
    }

    /// Register the window with the windowing system.  Repeated calls
    /// keep the requested visibility; the adapter still receives each
    /// call.
    pub fn show(&mut self)
        requires
            old(self).wf(),
        ensures
            final(self).wf(),
            final(self).spec_visible_requested(),
            final(self).spec_size() == old(self).spec_size(),
            final(self).spec_scale() == old(self).spec_scale(),
            final(self).spec_notifier_slot() == old(self).spec_notifier_slot(),
            final(self).spec_close_callback_set() == old(self).spec_close_callback_set(),
            final(self).spec_active_animations() == old(self).spec_active_animations(),
    {
        self.requested_visible = true;
        self.adapter.show();
    }

    /// De-register the window from the windowing system.
    pub fn hide_window(&mut self)
        requires
            old(self).wf(),
        ensures
            final(self).wf(),
            !final(self).spec_visible_requested(),
            final(self).spec_size() == old(self).spec_size(),
            final(self).spec_scale() == old(self).spec_scale(),
            final(self).spec_notifier_slot() == old(self).spec_notifier_slot(),
            final(self).spec_close_callback_set() == old(self).spec_close_callback_set(),
            final(self).spec_active_animations() == old(self).spec_active_animations(),
    {
        self.requested_visible = false;
        self.adapter.hide_window();
    }

    /// Install a rendering notifier: only one can be installed, and only
    /// on a backend that supports them.  The host keeps the callback; the
    /// runtime records the slot.
    pub fn set_rendering_notifier(&mut self) -> (r: Result<(), SetRenderingNotifierError>)
        requires
            old(self).wf(),
        ensures
            final(self).wf(),
            final(self).spec_size() == old(self).spec_size(),
            final(self).spec_scale() == old(self).spec_scale(),
            final(self).spec_visible_requested() == old(self).spec_visible_requested(),
            final(self).spec_close_callback_set() == old(self).spec_close_callback_set(),
            final(self).spec_active_animations() == old(self).spec_active_animations(),
            !old(self).spec_notifier_slot().supported ==> r == Result::<
                (),
                SetRenderingNotifierError,
            >::Err(SetRenderingNotifierError::Unsupported) && final(self).spec_notifier_slot()
                == old(self).spec_notifier_slot(),
            old(self).spec_notifier_slot().supported && old(self).spec_notifier_slot().installed
                ==> r == Result::<(), SetRenderingNotifierError>::Err(
                SetRenderingNotifierError::AlreadySet,
            ) && final(self).spec_notifier_slot() == old(self).spec_notifier_slot(),
            old(self).spec_notifier_slot().supported && !old(self).spec_notifier_slot().installed
                ==> r == Result::<(), SetRenderingNotifierError>::Ok(())
                && final(self).spec_notifier_slot() == (RendererNotifierSlot {
                supported: true,
                installed: true,
            }),
    {
        if !self.notifier_slot.supported {
            Err(SetRenderingNotifierError::Unsupported)
        } else if self.notifier_slot.installed {
            Err(SetRenderingNotifierError::AlreadySet)
        } else {
            self.notifier_slot.installed = true;
            Ok(())
        }
    }

    /// Install the close-requested callback; the host keeps the closure.
    pub fn on_close_requested(&mut self)
        requires
            old(self).wf(),
        ensures
            final(self).wf(),
            final(self).spec_close_callback_set(),
            final(self).spec_size() == old(self).spec_size(),
            final(self).spec_scale() == old(self).spec_scale(),
            final(self).spec_visible_requested() == old(self).spec_visible_requested(),
            final(self).spec_notifier_slot() == old(self).spec_notifier_slot(),
            final(self).spec_active_animations() == old(self).spec_active_animations(),
    {
        self.close_callback_set = true;
    }

    /// The response to a close request: what the installed callback
    /// answered, or the default of hiding the window when no callback is
    /// installed.
    pub fn close_requested_response(&self, callback_response: Option<CloseRequestResponse>) -> (r:
        CloseRequestResponse)
        ensures
            r == (if self.spec_close_callback_set() {
                match callback_response {
                    Some(resp) => resp,
                    None => CloseRequestResponse::HideWindow,
                }
            } else {
                CloseRequestResponse::HideWindow
            }),
    {
        if self.close_callback_set {
            match callback_response {
                Some(resp) => resp,
                None => CloseRequestResponse::HideWindow,
            }
        } else {
            CloseRequestResponse::HideWindow
        }
    }

    /// Ask the windowing system to redraw; advisory, the host may
    /// coalesce.
    pub fn request_redraw(&mut self)
        requires
            old(self).wf(),
        ensures
            final(self).wf(),
            final(self).spec_size() == old(self).spec_size(),
            final(self).spec_scale() == old(self).spec_scale(),
            final(self).spec_visible_requested() == old(self).spec_visible_requested(),
            final(self).spec_notifier_slot() == old(self).spec_notifier_slot(),
            final(self).spec_close_callback_set() == old(self).spec_close_callback_set(),
            final(self).spec_active_animations() == old(self).spec_active_animations(),
    {
        self.adapter.request_redraw();
    }

    /// The current scale factor between logical and physical pixels.
    pub fn scale_factor(&self) -> (r: ScaleFactor)
        requires
            self.wf(),
        ensures
            r == self.spec_scale(),
            r.is_valid(),
    {
        self.scale
    }

    /// Record a scale factor change the host reported.
    pub fn set_scale_factor(&mut self, scale: ScaleFactor)
        requires
            old(self).wf(),
            scale.is_valid(),
        ensures
            final(self).wf(),
            final(self).spec_scale() == scale,
            final(self).spec_size() == old(self).spec_size(),
            final(self).spec_visible_requested() == old(self).spec_visible_requested(),
            final(self).spec_notifier_slot() == old(self).spec_notifier_slot(),
            final(self).spec_close_callback_set() == old(self).spec_close_callback_set(),
            final(self).spec_active_animations() == old(self).spec_active_animations(),
    {
        self.scale = scale;
    }

    /// The window's screen position as the host reports it, in physical
    /// pixels, frame included.
    pub fn position(&self) -> PhysicalPosition {
        self.adapter.position()
    }

    /// Move the window, converting to physical pixels first; hosts on
    /// protocols that forbid placement ignore this silently.
    pub fn set_position(&mut self, position: WindowPosition)
        requires
            old(self).wf(),
        ensures
            final(self).wf(),
            final(self).spec_size() == old(self).spec_size(),
            final(self).spec_scale() == old(self).spec_scale(),
            final(self).spec_visible_requested() == old(self).spec_visible_requested(),
            final(self).spec_notifier_slot() == old(self).spec_notifier_slot(),
            final(self).spec_close_callback_set() == old(self).spec_close_callback_set(),
            final(self).spec_active_animations() == old(self).spec_active_animations(),
    {
        let p = position.to_physical(self.scale);
        self.adapter.set_position(p);
    }

    /// The client-area size, in physical pixels, frame excluded.
    pub fn size(&self) -> (r: PhysicalSize)
        ensures
            r == self.spec_size(),
    {
        self.inner_size
    }

    /// Resize the window: the internal geometry always takes the new
    /// value; the adapter is informed only when the value actually
    /// changed.
    pub fn set_size(&mut self, size: WindowSize) -> (changed: bool)
        requires
            old(self).wf(),
        ensures
            final(self).wf(),
            final(self).spec_size() == crate::geometry::spec_window_size_to_physical(
                size,
                old(self).spec_scale(),
            ),
            changed == (final(self).spec_size() != old(self).spec_size()),
            final(self).spec_scale() == old(self).spec_scale(),
            final(self).spec_visible_requested() == old(self).spec_visible_requested(),
            final(self).spec_notifier_slot() == old(self).spec_notifier_slot(),
            final(self).spec_close_callback_set() == old(self).spec_close_callback_set(),
            final(self).spec_active_animations() == old(self).spec_active_animations(),
    {
        let p = size.to_physical(self.scale);
        if p != self.inner_size {
            self.inner_size = p;
            self.adapter.set_size(p);
            true
        } else {
            false
        }
    }

    /// Forward one user-input event from a host backend to the scene.
    /// Each window event maps to exactly one scene event; the returned
    /// value is that event.
    pub fn dispatch_event(&mut self, event: WindowEvent) -> (r: DispatchedEvent)
        requires
            old(self).wf(),
        ensures
            final(self).wf(),
            r == spec_dispatch(event),
            final(self).spec_size() == old(self).spec_size(),
            final(self).spec_scale() == old(self).spec_scale(),
            final(self).spec_visible_requested() == old(self).spec_visible_requested(),
            final(self).spec_notifier_slot() == old(self).spec_notifier_slot(),
            final(self).spec_close_callback_set() == old(self).spec_close_callback_set(),
            final(self).spec_active_animations() == old(self).spec_active_animations(),
    {
        match event {
            WindowEvent::PointerPressed { position, button } => DispatchedEvent::Mouse(
                MouseEvent::Pressed { position, button },
            ),
            WindowEvent::PointerReleased { position, button } => DispatchedEvent::Mouse(
                MouseEvent::Released { position, button },
            ),
            WindowEvent::PointerMoved { position } => DispatchedEvent::Mouse(
                MouseEvent::Moved { position },
            ),
            WindowEvent::PointerScrolled { position, delta_x, delta_y } => DispatchedEvent::Mouse(
                MouseEvent::Wheel { position, delta_x, delta_y },
            ),
            WindowEvent::PointerExited => DispatchedEvent::Mouse(MouseEvent::Exit),
            WindowEvent::KeyPressed { text } => DispatchedEvent::Key(
                KeyInputEvent { text, event_type: KeyEventType::KeyPressed },
            ),
            WindowEvent::KeyReleased { text } => DispatchedEvent::Key(
                KeyInputEvent { text, event_type: KeyEventType::KeyReleased },
            ),
        }
    }

    /// Whether any animation is currently active, as last reported by the
    /// animation driver.
    pub fn has_active_animations(&self) -> (r: bool)
        ensures
            r == self.spec_active_animations(),
    {
        self.active_animations
    }

    /// The tracked animation activity.
    pub closed spec fn spec_active_animations(&self) -> bool {
        self.active_animations
    }

    /// Record whether the animation driver has active animations.
    pub fn set_active_animations(&mut self, active: bool)
        requires
            old(self).wf(),
        ensures
            final(self).wf(),
            final(self).spec_active_animations() == active,
            final(self).spec_size() == old(self).spec_size(),
            final(self).spec_scale() == old(self).spec_scale(),
            final(self).spec_visible_requested() == old(self).spec_visible_requested(),
            final(self).spec_notifier_slot() == old(self).spec_notifier_slot(),
            final(self).spec_close_callback_set() == old(self).spec_close_callback_set(),
    {
        self.active_animations = active;
    }

    /// Whether the window is visible, as the host reports it; this can be
    /// false after `show`, for instance for a minimized window.
    pub fn is_visible(&self) -> bool {
        self.adapter.is_visible()
    }
}

} // verus!
