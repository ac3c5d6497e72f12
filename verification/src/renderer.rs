//! The renderer contract: the software renderer's buffer-age variants
//! and the notifier slot shared by every backend.
//!
//! A software renderer retains the damage of its last N frames, N being
//! its buffer age: age zero means a full repaint every frame, ages one
//! and two enable partial repaints.  No other age exists; construction
//! dispatches on the value and rejects the rest.

use vstd::prelude::*;
use crate::geometry::PhysicalSize;
use crate::window::RendererNotifierSlot;
use crate::window::SetRenderingNotifierError;

verus! {

/// The buffer age of a software renderer: how many previous frames of
/// damage information it retains.
#[derive(Clone, Copy, PartialEq, Eq, Structural, Debug)]
pub enum BufferAge {
    /// No retained frame: every frame repaints fully.
    Zero,
    /// The previous frame is retained.
    One,
    /// The two previous frames are retained.
    Two,
}

/// A software renderer drawing into caller-supplied pixel buffers.
pub struct SoftwareRenderer {
    buffer_age: BufferAge,
    notifier_slot: RendererNotifierSlot,
}

impl SoftwareRenderer {
    /// The renderer's buffer age.
    pub closed spec fn spec_buffer_age(&self) -> BufferAge {
        self.buffer_age
    }

    /// The renderer's notifier slot.
    pub closed spec fn spec_notifier_slot(&self) -> RendererNotifierSlot {
        self.notifier_slot
    }

    /// Construct a software renderer for a buffer age given as a plain
    /// number, as host bindings pass it: only 0, 1 and 2 are accepted.
    pub fn new(buffer_age: u32) -> (r: Option<Self>)
        ensures
            r is Some <==> buffer_age <= 2,
            match r {
                Some(sr) => {
                    &&& sr.spec_buffer_age() == (if buffer_age == 0 {
                        BufferAge::Zero
                    } else if buffer_age == 1 {
                        BufferAge::One
                    } else {
                        BufferAge::Two
                    })
                    &&& !sr.spec_notifier_slot().installed
                    &&& sr.spec_notifier_slot().supported
                },
                None => buffer_age > 2,
            },
    {
        let age = match buffer_age {
            0 => BufferAge::Zero,
            1 => BufferAge::One,
            2 => BufferAge::Two,
            _ => {
                return None;
            },
        };
        Some(
            SoftwareRenderer {
                buffer_age: age,
                notifier_slot: RendererNotifierSlot { supported: true, installed: false },
            },
        )
    }

    /// How many frames back the renderer may reuse damage information
    /// when repainting into a buffer of the given size: zero means the
    /// whole buffer must be repainted.
    pub fn retained_frames(&self) -> (r: u32)
        ensures
            r == (match self.spec_buffer_age() {
                BufferAge::Zero => 0u32,
                BufferAge::One => 1u32,
                BufferAge::Two => 2u32,
            }),
            r <= 2,
    {
        match self.buffer_age {
            BufferAge::Zero => 0,
            BufferAge::One => 1,
            BufferAge::Two => 2,
        }
    }

    /// Install a rendering notifier on this renderer: one at most, and it
    /// can only be replaced together with a fresh renderer.
    pub fn set_rendering_notifier(&mut self) -> (r: Result<(), SetRenderingNotifierError>)
        ensures
            final(self).spec_buffer_age() == old(self).spec_buffer_age(),
            !old(self).spec_notifier_slot().supported ==> r == Result::<
                (),
                SetRenderingNotifierError,
            >::Err(SetRenderingNotifierError::Unsupported) && final(self).spec_notifier_slot()
                == old(self).spec_notifier_slot(),
            old(self).spec_notifier_slot().supported && old(self).spec_notifier_slot().installed
                ==> r == Result::<(), SetRenderingNotifierError>::Err(
                SetRenderingNotifierError::AlreadySet,
            ) && final(self).spec_notifier_slot() == old(self).spec_notifier_slot(),
            old(self).spec_notifier_slot().supported && !old(self).spec_notifier_slot().installed
                ==> r == Result::<(), SetRenderingNotifierError>::Ok(())
                && final(self).spec_notifier_slot() == (RendererNotifierSlot {
                supported: true,
                installed: true,
            }),
    {
        if !self.notifier_slot.supported {
            Err(SetRenderingNotifierError::Unsupported)
        } else if self.notifier_slot.installed {
            Err(SetRenderingNotifierError::AlreadySet)
        } else {
            self.notifier_slot.installed = true;
            Ok(())
        }
    }

    /// The region that must be repainted for a frame of the given size:
    /// with no retained frame the full size, otherwise the damage the
    /// caller accumulated over the retained frames, capped at the frame
    /// size.
    pub fn repaint_region(&self, frame: PhysicalSize, damage: PhysicalSize) -> (r: PhysicalSize)
        ensures
            self.spec_buffer_age() == BufferAge::Zero ==> r == frame,
            self.spec_buffer_age() != BufferAge::Zero ==> r.width == (if damage.width
                <= frame.width {
                damage.width
            } else {
                frame.width
            }) && r.height == (if damage.height <= frame.height {
                damage.height
            } else {
                frame.height
            }),
    {
        match self.buffer_age {
            BufferAge::Zero => frame,
            _ => PhysicalSize {
                width: if damage.width <= frame.width {
                    damage.width
                } else {
                    frame.width
                },
                height: if damage.height <= frame.height {
                    damage.height
                } else {
                    frame.height
                },
            },
        }
    }
}

} // verus!
