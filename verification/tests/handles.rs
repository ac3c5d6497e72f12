use std::rc::Rc;

use ui_core::handles::Weak;
use ui_core::platform::EventLoopError;
use ui_core::platform::Platform;
use ui_core::platform::PlatformRegistry;

#[test]
fn weak_upgrade_same_thread() {
    let strong = Rc::new(42u32);
    let weak = Weak::new(&strong, 7);
    let upgraded = weak.upgrade(7);
    assert_eq!(upgraded.as_deref(), Some(&42));
}

#[test]
fn weak_upgrade_other_thread_is_empty() {
    // A different thread id never upgrades, even while the instance is
    // alive.
    let strong = Rc::new(42u32);
    let weak = Weak::new(&strong, 7);
    assert!(weak.upgrade(8).is_none());
    assert!(weak.upgrade(0).is_none());
    // On the creating thread it still works afterwards.
    assert!(weak.upgrade(7).is_some());
}

#[test]
fn weak_upgrade_after_drop_is_empty() {
    let strong = Rc::new(String::from("gone"));
    let weak = Weak::new(&strong, 3);
    drop(strong);
    assert!(weak.upgrade(3).is_none());
}

#[test]
fn weak_clone_keeps_thread() {
    let strong = Rc::new(5i32);
    let weak = Weak::new(&strong, 9);
    let clone = weak.clone_handle();
    assert!(clone.upgrade(9).is_some());
    assert!(clone.upgrade(10).is_none());
}

struct LoopPlatform;

struct NoAdapter;

impl ui_core::window::WindowAdapter for NoAdapter {
    fn show(&mut self) {}
    fn hide_window(&mut self) {}
    fn request_redraw(&mut self) {}
    fn position(&self) -> ui_core::geometry::PhysicalPosition {
        ui_core::geometry::PhysicalPosition::new(0, 0)
    }
    fn set_position(&mut self, _position: ui_core::geometry::PhysicalPosition) {}
    fn set_size(&mut self, _size: ui_core::geometry::PhysicalSize) {}
    fn is_visible(&self) -> bool {
        false
    }
}

impl Platform for LoopPlatform {
    type Adapter = NoAdapter;
    fn create_window_adapter(&mut self) -> NoAdapter {
        NoAdapter
    }
    fn has_event_loop_proxy(&self) -> bool {
        true
    }
}

#[test]
fn weak_upgrade_in_event_loop_enqueues() {
    let strong = Rc::new(1u8);
    let weak = Weak::new(&strong, 1);
    let mut reg: PlatformRegistry<LoopPlatform> = PlatformRegistry::new();
    assert_eq!(weak.upgrade_in_event_loop(&mut reg, 5), Err(EventLoopError::NoEventLoopProvider));
    reg.set_platform(LoopPlatform).unwrap();
    assert_eq!(weak.upgrade_in_event_loop(&mut reg, 5), Ok(()));
    assert_eq!(reg.next_queued_task(), Some(5));
}
