//! Core of a declarative UI toolkit: geometry in logical and physical pixels,
//! a window and platform abstraction, a font cache with coverage-driven
//! fallback, and a multi-line text layout engine.

pub mod geometry;
pub mod textlayout;
pub mod fontcache;
pub mod window;
pub mod platform;
pub mod handles;
pub mod softfonts;
pub mod renderer;
