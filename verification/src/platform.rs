//! The platform registry: the process-wide platform slot, the event-loop
//! proxy and the timer tick.
//!
//! A host installs exactly one platform; a second registration fails and
//! leaves the first installed.  The event-loop proxy accepts tasks from
//! any thread and runs them on the event-loop thread in enqueue order;
//! the timer tick advances all timers at once, firing the elapsed ones in
//! registration order.

use vstd::prelude::*;
use crate::window::WindowAdapter;

verus! {

/// Errors of the event-loop proxy operations.
#[derive(Clone, Copy, PartialEq, Eq, Structural, Debug)]
pub enum EventLoopError {
    /// The event loop was already terminated.
    EventLoopTerminated,
    /// No platform with an event loop is installed.
    NoEventLoopProvider,
}

/// Registering a platform failed.
#[derive(Clone, Copy, PartialEq, Eq, Structural, Debug)]
pub enum SetPlatformError {
    /// A platform is already installed.
    AlreadySet,
}

/// The capability set of a platform: it creates window adapters on
/// demand and says whether it supplies an event loop.  Hosts implement
/// this.
pub trait Platform {
    /// The adapter type this platform creates.
    type Adapter: WindowAdapter;

    /// Create a window adapter for a new window.
    fn create_window_adapter(&mut self) -> Self::Adapter;

    /// Whether this platform drives an event loop that the proxy can
    /// reach.
    fn has_event_loop_proxy(&self) -> bool;
}

/// The tick after `t`: the clock saturates at its maximum rather than
/// wrap.
pub open spec fn spec_next_tick(t: u64) -> u64 {
    if t == 0xffff_ffff_ffff_ffff {
        t
    } else {
        (t + 1) as u64
    }
}

/// One registered timer: when it is due, and whether it has fired.
#[derive(Clone, Copy, PartialEq, Eq, Structural, Debug)]
pub struct TimerEntry {
    /// The tick at which the timer elapses.
    pub due_tick: u64,
    /// Whether the timer has fired already.
    pub fired: bool,
}

/// The process-wide platform slot with the event-loop proxy state and the
/// timer table.  Registration is one-shot.
pub struct PlatformRegistry<P: Platform> {
    platform: Option<P>,
    proxy_terminated: bool,
    queued_tasks: Vec<u64>,
    timers: Vec<TimerEntry>,
    tick: u64,
}

impl<P: Platform> PlatformRegistry<P> {
    /// Whether a platform is installed.
    pub closed spec fn spec_platform_set(&self) -> bool {
        self.platform is Some
    }

    /// Whether the event loop has been told to terminate.
    pub closed spec fn spec_terminated(&self) -> bool {
        self.proxy_terminated
    }

    /// The tasks queued for the event-loop thread, in enqueue order.
    pub closed spec fn spec_queued(&self) -> Seq<u64> {
        self.queued_tasks@
    }

    /// The registered timers, in registration order.
    pub closed spec fn spec_timers(&self) -> Seq<TimerEntry> {
        self.timers@
    }

    /// The current tick of the timer clock.
    pub closed spec fn spec_tick(&self) -> u64 {
        self.tick
    }

    /// An empty registry: no platform, nothing queued, no timers.
    pub fn new() -> (r: Self)
        ensures
            !r.spec_platform_set(),
            !r.spec_terminated(),
            r.spec_queued().len() == 0,
            r.spec_timers().len() == 0,
            r.spec_tick() == 0,
    {
        PlatformRegistry {
            platform: None,
            proxy_terminated: false,
            queued_tasks: Vec::new(),
            timers: Vec::new(),
            tick: 0,
        }
    }

    /// Install the process-wide platform.  The slot is one-shot: a second
    /// registration fails and the first platform stays installed.
    pub fn set_platform(&mut self, platform: P) -> (r: Result<(), SetPlatformError>)
        ensures
            old(self).spec_platform_set() ==> r == Result::<(), SetPlatformError>::Err(
                SetPlatformError::AlreadySet,
            ) && *final(self) == *old(self),
            !old(self).spec_platform_set() ==> r == Result::<(), SetPlatformError>::Ok(())
                && final(self).spec_platform_set(),
            final(self).spec_queued() == old(self).spec_queued(),
            final(self).spec_terminated() == old(self).spec_terminated(),
            final(self).spec_timers() == old(self).spec_timers(),
            final(self).spec_tick() == old(self).spec_tick(),
    {
        if self.platform.is_some() {
            Err(SetPlatformError::AlreadySet)
        } else {
            self.platform = Some(platform);
            Ok(())
        }
    }

    /// Whether the installed platform supplies an event-loop proxy.
    fn proxy_available(&self) -> (r: bool)
        ensures
            r ==> self.spec_platform_set(),
            !self.spec_platform_set() ==> !r,
    {
        match &self.platform {
            Some(p) => p.has_event_loop_proxy(),
            None => false,
        }
    }

    /// Ask the installed platform for a new window adapter.  `None` when
    /// no platform is installed.
    pub fn create_window_adapter(&mut self) -> (r: Option<P::Adapter>)
        ensures
            r is Some <==> old(self).spec_platform_set(),
            final(self).spec_platform_set() == old(self).spec_platform_set(),
            final(self).spec_queued() == old(self).spec_queued(),
            final(self).spec_terminated() == old(self).spec_terminated(),
            final(self).spec_timers() == old(self).spec_timers(),
            final(self).spec_tick() == old(self).spec_tick(),
    {
        match &mut self.platform {
            Some(p) => Some(p.create_window_adapter()),
            None => None,
        }
    }

    /// Register a timer that elapses at the given tick.
    pub fn register_timer(&mut self, due_tick: u64)
        ensures
            final(self).spec_timers() == old(self).spec_timers().push(
                TimerEntry { due_tick, fired: false },
            ),
            final(self).spec_platform_set() == old(self).spec_platform_set(),
            final(self).spec_queued() == old(self).spec_queued(),
            final(self).spec_terminated() == old(self).spec_terminated(),
            final(self).spec_tick() == old(self).spec_tick(),
    {
        self.timers.push(TimerEntry { due_tick, fired: false });
    }

    /// Advance the timer clock one tick and fire every timer that has
    /// elapsed and not fired yet, in registration order.  Returns the
    /// indices of the timers that fired.  Idempotent in the sense that a
    /// tick with nothing elapsed fires nothing, and safe to call without
    /// any platform or window.
    #[verifier::loop_isolation(false)]
    pub fn update_timers_and_animations(&mut self) -> (r: Vec<usize>)
        ensures
            final(self).spec_tick() == spec_next_tick(old(self).spec_tick()),
            final(self).spec_timers().len() == old(self).spec_timers().len(),
            final(self).spec_platform_set() == old(self).spec_platform_set(),
            final(self).spec_queued() == old(self).spec_queued(),
            final(self).spec_terminated() == old(self).spec_terminated(),
            forall|k: int|
                0 <= k < r@.len() ==> (#[trigger] r@[k]) < old(self).spec_timers().len(),
            forall|k: int, l: int| 0 <= k < l < r@.len() ==> r@[k] < r@[l],
            forall|k: int|
                0 <= k < r@.len() ==> {
                    let t = old(self).spec_timers()[(#[trigger] r@[k]) as int];
                    !t.fired && t.due_tick <= spec_next_tick(old(self).spec_tick())
                },
            forall|i: int|
                0 <= i < old(self).spec_timers().len() ==> {
                    let t = #[trigger] old(self).spec_timers()[i];
                    let t2 = final(self).spec_timers()[i];
                    &&& t2.due_tick == t.due_tick
                    &&& t2.fired == (t.fired || t.due_tick <= spec_next_tick(old(self).spec_tick()))
                    &&& ((!t.fired && t.due_tick <= spec_next_tick(old(self).spec_tick()))
                        <==> r@.contains(i as usize))
                },
    {
        let now = if self.tick == 0xffff_ffff_ffff_ffff {
            self.tick
        } else {
            self.tick + 1
        };
        self.tick = now;
        let n = self.timers.len();
        let mut fired: Vec<usize> = Vec::new();
        let mut i: usize = 0;
        let ghost timers0 = self.timers@;
        while i < n
            invariant
                0 <= i <= n,
                n == timers0.len(),
                self.timers@.len() == timers0.len(),
                self.platform == old(self).platform,
                self.proxy_terminated == old(self).proxy_terminated,
                self.queued_tasks@ == old(self).queued_tasks@,
                self.tick == now,
                forall|j: int| i <= j < n ==> self.timers@[j] == timers0[j],
                forall|k: int| 0 <= k < fired@.len() ==> (#[trigger] fired@[k]) < i,
                forall|k: int, l: int| 0 <= k < l < fired@.len() ==> fired@[k] < fired@[l],
                forall|k: int|
                    0 <= k < fired@.len() ==> {
                        let t = timers0[(#[trigger] fired@[k]) as int];
                        !t.fired && t.due_tick <= now
                    },
                forall|j: int|
                    0 <= j < i ==> {
                        let t = #[trigger] timers0[j];
                        let t2 = self.timers@[j];
                        &&& t2.due_tick == t.due_tick
                        &&& t2.fired == (t.fired || t.due_tick <= now)
                        &&& ((!t.fired && t.due_tick <= now) <==> fired@.contains(j as usize))
                    },
            decreases n - i,
        {
            let ghost fired_prev = fired@;
            let t = self.timers[i];
            if !t.fired && t.due_tick <= now {
                self.timers[i] = TimerEntry { due_tick: t.due_tick, fired: true };
                fired.push(i);
                proof {
                    assert(fired@[fired@.len() - 1] == i);
                    assert forall|j: int|
                        0 <= j < i + 1 implies ((!timers0[j].fired && timers0[j].due_tick <= now)
                        <==> fired@.contains(j as usize)) by {
                        if j < i {
                            if !timers0[j].fired && timers0[j].due_tick <= now {
                                let w = choose|w: int|
                                    0 <= w < fired_prev.len() && fired_prev[w] == j as usize;
                                assert(fired@[w] == j as usize);
                            } else {
                                assert forall|w: int|
                                    0 <= w < fired@.len() implies fired@[w] != j as usize by {
                                    if w < fired@.len() - 1 {
                                        assert(fired@[w] == fired_prev[w]);
                                    }
                                }
                            }
                        } else {
                            assert(fired@[fired@.len() - 1] == i as usize);
                        }
                    }
                }
            } else {
                proof {
                    assert forall|j: int|
                        0 <= j < i + 1 implies ((!timers0[j].fired && timers0[j].due_tick <= now)
                        <==> fired@.contains(j as usize)) by {
                        if j == i {
                            assert forall|w: int|
                                0 <= w < fired@.len() implies fired@[w] != j as usize by {}
                        }
                    }
                }
            }
            i += 1;
        }
        fired
    }

    /// Add a task to the event-loop queue and wake the loop.  Tasks may
    /// come from any thread; the queue keeps enqueue order, and the
    /// event-loop thread runs them in that order.  Fails when no event
    /// loop can be reached, or when the loop was already terminated.
    /// Whether an installed platform actually supplies an event-loop
    /// proxy is the platform's own answer, so with a platform present
    /// the no-provider error remains possible; a terminated loop always
    /// fails, with the terminated error whenever a proxy is there to
    /// report it.
    pub fn invoke_from_event_loop(&mut self, task: u64) -> (r: Result<(), EventLoopError>)
        ensures
            final(self).spec_platform_set() == old(self).spec_platform_set(),
            final(self).spec_timers() == old(self).spec_timers(),
            final(self).spec_tick() == old(self).spec_tick(),
            final(self).spec_terminated() == old(self).spec_terminated(),
            !old(self).spec_platform_set() ==> r == Result::<(), EventLoopError>::Err(
                EventLoopError::NoEventLoopProvider,
            ),
            r is Err ==> final(self).spec_queued() == old(self).spec_queued(),
            r is Ok ==> final(self).spec_queued() == old(self).spec_queued().push(task) && !old(self).spec_terminated(),
            old(self).spec_terminated() ==> r is Err,
            r == Result::<(), EventLoopError>::Err(EventLoopError::EventLoopTerminated) ==> old(self).spec_terminated(),
            !old(self).spec_terminated() && r is Err ==> r == Result::<(), EventLoopError>::Err(
                EventLoopError::NoEventLoopProvider,
            ),
    {
        if !self.proxy_available() {
            return Err(EventLoopError::NoEventLoopProvider);
        }
        if self.proxy_terminated {
            return Err(EventLoopError::EventLoopTerminated);
        }
        self.queued_tasks.push(task);
        Ok(())
    }

    /// Schedule the event loop for termination.  Fails when no event
    /// loop can be reached, and with the terminated error when the loop
    /// already ended: proxy operations on a terminated loop fail.
    pub fn quit_event_loop(&mut self) -> (r: Result<(), EventLoopError>)
        ensures
            final(self).spec_platform_set() == old(self).spec_platform_set(),
            final(self).spec_queued() == old(self).spec_queued(),
            final(self).spec_timers() == old(self).spec_timers(),
            final(self).spec_tick() == old(self).spec_tick(),
            !old(self).spec_platform_set() ==> r == Result::<(), EventLoopError>::Err(
                EventLoopError::NoEventLoopProvider,
            ),
            r is Ok ==> !old(self).spec_terminated() && final(self).spec_terminated(),
            r is Err ==> final(self).spec_terminated() == old(self).spec_terminated(),
            old(self).spec_terminated() ==> r is Err,
            r == Result::<(), EventLoopError>::Err(EventLoopError::EventLoopTerminated) ==> old(self).spec_terminated(),
            !old(self).spec_terminated() && r is Err ==> r == Result::<(), EventLoopError>::Err(
                EventLoopError::NoEventLoopProvider,
            ),
    {
        if !self.proxy_available() {
            return Err(EventLoopError::NoEventLoopProvider);
        }
        if self.proxy_terminated {
            return Err(EventLoopError::EventLoopTerminated);
        }
        self.proxy_terminated = true;
        Ok(())
    }

    /// Pop the next queued task, in enqueue order; the event-loop thread
    /// calls this once per wake-up.
    pub fn next_queued_task(&mut self) -> (r: Option<u64>)
        ensures
            final(self).spec_platform_set() == old(self).spec_platform_set(),
            final(self).spec_terminated() == old(self).spec_terminated(),
            final(self).spec_timers() == old(self).spec_timers(),
            final(self).spec_tick() == old(self).spec_tick(),
            old(self).spec_queued().len() == 0 ==> r is None && final(self).spec_queued() == old(self).spec_queued(),
            old(self).spec_queued().len() > 0 ==> r == Some(old(self).spec_queued()[0]) && final(self).spec_queued() == old(self).spec_queued().subrange(
                1,
                old(self).spec_queued().len() as int,
            ),
    {
        if self.queued_tasks.len() == 0 {
            None
        } else {
            let t = self.queued_tasks.remove(0);
            Some(t)
        }
    }
}

} // verus!
