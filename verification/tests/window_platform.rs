use std::cell::Cell;
use std::rc::Rc;

use ui_core::geometry::LogicalPosition;
use ui_core::geometry::PhysicalPosition;
use ui_core::geometry::PhysicalSize;
use ui_core::geometry::ScaleFactor;
use ui_core::geometry::WindowSize;
use ui_core::platform::EventLoopError;
use ui_core::platform::Platform;
use ui_core::platform::PlatformRegistry;
use ui_core::platform::SetPlatformError;
use ui_core::renderer::SoftwareRenderer;
use ui_core::window::CloseRequestResponse;
use ui_core::window::RenderingState;
use ui_core::window::RenderingStateTracker;
use ui_core::window::DispatchedEvent;
use ui_core::window::KeyEventType;
use ui_core::window::MouseEvent;
use ui_core::window::PointerEventButton;
use ui_core::window::SetRenderingNotifierError;
use ui_core::window::Window;
use ui_core::window::WindowAdapter;
use ui_core::window::WindowEvent;

/// A host adapter that counts the calls it receives.
struct TestAdapter {
    set_size_calls: Rc<Cell<u32>>,
    shown: Rc<Cell<bool>>,
}

impl WindowAdapter for TestAdapter {
    fn show(&mut self) {
        self.shown.set(true);
    }
    fn hide_window(&mut self) {
        self.shown.set(false);
    }
    fn request_redraw(&mut self) {}
    fn position(&self) -> PhysicalPosition {
        PhysicalPosition::new(11, 22)
    }
    fn set_position(&mut self, _position: PhysicalPosition) {}
    fn set_size(&mut self, _size: PhysicalSize) {
        self.set_size_calls.set(self.set_size_calls.get() + 1);
    }
    fn is_visible(&self) -> bool {
        self.shown.get()
    }
}

fn test_window() -> (Window<TestAdapter>, Rc<Cell<u32>>, Rc<Cell<bool>>) {
    let calls = Rc::new(Cell::new(0));
    let shown = Rc::new(Cell::new(false));
    let adapter = TestAdapter { set_size_calls: calls.clone(), shown: shown.clone() };
    let w = Window::new(adapter, ScaleFactor::new(2 * 65536), true);
    (w, calls, shown)
}

#[test]
fn window_show_hide_and_visibility() {
    let (mut w, _, shown) = test_window();
    assert!(!w.is_visible());
    w.show();
    assert!(shown.get());
    assert!(w.is_visible());
    w.hide_window();
    assert!(!w.is_visible());
}

#[test]
fn window_set_size_informs_adapter_only_on_change() {
    let (mut w, calls, _) = test_window();
    let changed = w.set_size(WindowSize::Physical(PhysicalSize::new(640, 480)));
    assert!(changed);
    assert_eq!(calls.get(), 1);
    let changed_again = w.set_size(WindowSize::Physical(PhysicalSize::new(640, 480)));
    assert!(!changed_again);
    assert_eq!(calls.get(), 1);
    assert_eq!(w.size(), PhysicalSize::new(640, 480));
}

#[test]
fn window_rendering_notifier_slot() {
    let (mut w, _, _) = test_window();
    assert_eq!(w.set_rendering_notifier(), Ok(()));
    assert_eq!(w.set_rendering_notifier(), Err(SetRenderingNotifierError::AlreadySet));
}

#[test]
fn window_rendering_notifier_unsupported() {
    let calls = Rc::new(Cell::new(0));
    let shown = Rc::new(Cell::new(false));
    let adapter = TestAdapter { set_size_calls: calls, shown };
    let mut w = Window::new(adapter, ScaleFactor::new(65536), false);
    assert_eq!(w.set_rendering_notifier(), Err(SetRenderingNotifierError::Unsupported));
}

#[test]
fn window_close_request_defaults_to_hide() {
    let (mut w, _, _) = test_window();
    assert_eq!(w.close_requested_response(None), CloseRequestResponse::HideWindow);
    w.on_close_requested();
    assert_eq!(
        w.close_requested_response(Some(CloseRequestResponse::KeepWindowShown)),
        CloseRequestResponse::KeepWindowShown
    );
    assert_eq!(CloseRequestResponse::default(), CloseRequestResponse::HideWindow);
}

#[test]
fn window_dispatch_event_maps_variants() {
    let (mut w, _, _) = test_window();
    let pos = LogicalPosition::from_pixels(10, 20);
    let e = w.dispatch_event(WindowEvent::PointerPressed { position: pos, button: PointerEventButton::Left });
    assert_eq!(e, DispatchedEvent::Mouse(MouseEvent::Pressed { position: pos, button: PointerEventButton::Left }));
    let e2 = w.dispatch_event(WindowEvent::PointerExited);
    assert_eq!(e2, DispatchedEvent::Mouse(MouseEvent::Exit));
    let e3 = w.dispatch_event(WindowEvent::KeyPressed { text: String::from("a") });
    match e3 {
        DispatchedEvent::Key(k) => {
            assert_eq!(k.text, "a");
            assert_eq!(k.event_type, KeyEventType::KeyPressed);
        }
        _ => panic!("expected a key event"),
    }
    let e4 = w.dispatch_event(WindowEvent::PointerScrolled { position: pos, delta_x: 7, delta_y: -7 });
    assert_eq!(e4, DispatchedEvent::Mouse(MouseEvent::Wheel { position: pos, delta_x: 7, delta_y: -7 }));
}

#[test]
fn window_position_comes_from_adapter() {
    let (w, _, _) = test_window();
    assert_eq!(w.position(), PhysicalPosition::new(11, 22));
}

/// A platform whose adapters are test adapters.
struct TestPlatform {
    with_loop: bool,
}

impl Platform for TestPlatform {
    type Adapter = TestAdapter;
    fn create_window_adapter(&mut self) -> TestAdapter {
        TestAdapter { set_size_calls: Rc::new(Cell::new(0)), shown: Rc::new(Cell::new(false)) }
    }
    fn has_event_loop_proxy(&self) -> bool {
        self.with_loop
    }
}

#[test]
fn platform_register_is_one_shot() {
    let mut reg: PlatformRegistry<TestPlatform> = PlatformRegistry::new();
    assert!(reg.create_window_adapter().is_none());
    assert_eq!(reg.set_platform(TestPlatform { with_loop: true }), Ok(()));
    // The second registration fails and the first platform stays: its
    // event loop is still reachable afterwards.
    assert_eq!(
        reg.set_platform(TestPlatform { with_loop: false }),
        Err(SetPlatformError::AlreadySet)
    );
    assert!(reg.create_window_adapter().is_some());
    assert_eq!(reg.invoke_from_event_loop(1), Ok(()));
}

#[test]
fn event_loop_proxy_errors() {
    let mut reg: PlatformRegistry<TestPlatform> = PlatformRegistry::new();
    assert_eq!(reg.invoke_from_event_loop(1), Err(EventLoopError::NoEventLoopProvider));
    assert_eq!(reg.quit_event_loop(), Err(EventLoopError::NoEventLoopProvider));
    reg.set_platform(TestPlatform { with_loop: true }).unwrap();
    assert_eq!(reg.invoke_from_event_loop(1), Ok(()));
    assert_eq!(reg.quit_event_loop(), Ok(()));
    assert_eq!(reg.invoke_from_event_loop(2), Err(EventLoopError::EventLoopTerminated));
    // Proxy operations on a terminated loop keep failing, quitting again
    // included.
    assert_eq!(reg.quit_event_loop(), Err(EventLoopError::EventLoopTerminated));
}

#[test]
fn event_loop_tasks_keep_order() {
    let mut reg: PlatformRegistry<TestPlatform> = PlatformRegistry::new();
    reg.set_platform(TestPlatform { with_loop: true }).unwrap();
    reg.invoke_from_event_loop(10).unwrap();
    reg.invoke_from_event_loop(20).unwrap();
    reg.invoke_from_event_loop(30).unwrap();
    assert_eq!(reg.next_queued_task(), Some(10));
    assert_eq!(reg.next_queued_task(), Some(20));
    assert_eq!(reg.next_queued_task(), Some(30));
    assert_eq!(reg.next_queued_task(), None);
}

#[test]
fn timers_fire_in_registration_order() {
    let mut reg: PlatformRegistry<TestPlatform> = PlatformRegistry::new();
    reg.register_timer(2);
    reg.register_timer(1);
    reg.register_timer(2);
    let fired1 = reg.update_timers_and_animations();
    assert_eq!(fired1, vec![1]);
    let fired2 = reg.update_timers_and_animations();
    assert_eq!(fired2, vec![0, 2]);
    let fired3 = reg.update_timers_and_animations();
    assert_eq!(fired3, Vec::<usize>::new());
}

#[test]
fn software_renderer_buffer_ages() {
    for age in 0u32..3 {
        let r = SoftwareRenderer::new(age).unwrap();
        assert_eq!(r.retained_frames(), age);
    }
    assert!(SoftwareRenderer::new(3).is_none());
    assert!(SoftwareRenderer::new(u32::MAX).is_none());
}

#[test]
fn software_renderer_repaint_region() {
    let r0 = SoftwareRenderer::new(0).unwrap();
    let frame = PhysicalSize::new(100, 100);
    let damage = PhysicalSize::new(10, 10);
    assert_eq!(r0.repaint_region(frame, damage), frame);
    let r1 = SoftwareRenderer::new(1).unwrap();
    assert_eq!(r1.repaint_region(frame, damage), damage);
    assert_eq!(r1.repaint_region(frame, PhysicalSize::new(500, 500)), frame);
}

#[test]
fn software_renderer_notifier() {
    let mut r = SoftwareRenderer::new(0).unwrap();
    assert_eq!(r.set_rendering_notifier(), Ok(()));
    assert_eq!(r.set_rendering_notifier(), Err(SetRenderingNotifierError::AlreadySet));
}

#[test]
fn rendering_state_lifecycle_order() {
    let mut t = RenderingStateTracker::new();
    assert!(!t.advance(RenderingState::BeforeRendering));
    assert!(t.advance(RenderingState::RenderingSetup));
    assert!(!t.advance(RenderingState::RenderingSetup));
    assert!(t.advance(RenderingState::BeforeRendering));
    assert!(t.advance(RenderingState::AfterRendering));
    assert!(!t.advance(RenderingState::AfterRendering));
    assert!(t.advance(RenderingState::BeforeRendering));
    assert!(t.advance(RenderingState::RenderingTeardown));
    assert!(!t.advance(RenderingState::BeforeRendering));
}
