//! Weak handles to component instances, with the single-thread upgrade
//! invariant.
//!
//! A weak handle records the thread that created the instance; upgrading
//! returns a strong handle only on that thread — from any other thread it
//! returns nothing, whatever the instance's state.  This makes weak
//! handles the one value safe to send across threads.

use vstd::prelude::*;
use crate::platform::EventLoopError;
use crate::platform::Platform;
use crate::platform::PlatformRegistry;

verus! {

/// std's `rc::Weak`, held opaquely.  The type itself cannot be declared
/// to the verifier (its allocator parameter is unstable), so this struct
/// hides it whole and the wrappers below are the only operations.
#[verifier::external_body]
#[verifier::reject_recursive_types(T)]
struct WeakRef<T> {
    inner: std::rc::Weak<T>,
}

/// Relies on std's `Rc::downgrade`: a non-owning handle to the same
/// allocation.
#[verifier::external_body]
fn rc_downgrade<T>(rc: &std::rc::Rc<T>) -> WeakRef<T> {
    WeakRef { inner: std::rc::Rc::downgrade(rc) }
}

/// Relies on std's `rc::Weak::upgrade`: a strong handle when the value is
/// still alive, nothing after it was dropped.
#[verifier::external_body]
fn rc_weak_upgrade<T>(weak: &WeakRef<T>) -> Option<std::rc::Rc<T>> {
    weak.inner.upgrade()
}

/// Relies on std's `rc::Weak::clone`: another handle to the same
/// allocation.
#[verifier::external_body]
fn rc_weak_clone<T>(weak: &WeakRef<T>) -> WeakRef<T> {
    WeakRef { inner: weak.inner.clone() }
}

/// A weak handle to a component instance: a non-owning reference and the
/// id of the thread that created the instance.  Cheap to clone and safe
/// to send to other threads; only the creating thread can upgrade it.
#[verifier::reject_recursive_types(T)]
pub struct Weak<T> {
    inner: WeakRef<T>,
    thread: u64,
}

impl<T> Weak<T> {
    /// The id of the thread that created the instance.
    pub closed spec fn spec_thread(&self) -> u64 {
        self.thread
    }

    /// Create a weak handle from a strong one.  `thread_id` names the
    /// calling thread; the host supplies it, as thread identity is a
    /// property of the running process.
    pub fn new(rc: &std::rc::Rc<T>, thread_id: u64) -> (r: Self)
        ensures
            r.spec_thread() == thread_id,
    {
        Weak { inner: rc_downgrade(rc), thread: thread_id }
    }

    /// Another handle to the same instance, keeping the creator thread.
    pub fn clone_handle(&self) -> (r: Self)
        ensures
            r.spec_thread() == self.spec_thread(),
    {
        Weak { inner: rc_weak_clone(&self.inner), thread: self.thread }
    }

    /// Upgrade to a strong handle.  Returns the instance only when some
    /// strong handle still exists *and* the calling thread (named by
    /// `current_thread`) is the creating thread: on every other thread
    /// the result is empty, whatever the instance's state.
    pub fn upgrade(&self, current_thread: u64) -> (r: Option<std::rc::Rc<T>>)
        ensures
            current_thread != self.spec_thread() ==> r is None,
    {
        if current_thread != self.thread {
            return None;
        }
        rc_weak_upgrade(&self.inner)
    }

    /// Queue an upgrade on the event-loop thread: the task is enqueued
    /// through the event-loop proxy and, once the event-loop thread runs
    /// it, the host upgrades there and invokes its closure only when the
    /// upgrade succeeds.  The enqueue fails exactly as
    /// `invoke_from_event_loop` does.
    pub fn upgrade_in_event_loop<P: Platform>(
        &self,
        registry: &mut PlatformRegistry<P>,
        task: u64,
    ) -> (r: Result<(), EventLoopError>)
        ensures
            final(registry).spec_platform_set() == old(registry).spec_platform_set(),
            final(registry).spec_terminated() == old(registry).spec_terminated(),
            !old(registry).spec_platform_set() ==> r == Result::<(), EventLoopError>::Err(
                EventLoopError::NoEventLoopProvider,
            ),
            r is Err ==> final(registry).spec_queued() == old(registry).spec_queued(),
            r is Ok ==> final(registry).spec_queued() == old(registry).spec_queued().push(task)
                && !old(registry).spec_terminated(),
            old(registry).spec_terminated() ==> r is Err,
            r == Result::<(), EventLoopError>::Err(EventLoopError::EventLoopTerminated) ==> old(
                registry,
            ).spec_terminated(),
    {
        registry.invoke_from_event_loop(task)
    }
}

/// Access to a global singleton exported by a component: implementations
/// hand out a view tied to the component's lifetime.
pub trait Global<'a, Component>: Sized {
    /// The singleton, borrowed from the component.
    fn get(component: &'a Component) -> Self;
}

} // verus!
