//! A ray tracer's verified core: the framebuffer and how a traced frame is
//! laid into it, the text syntax of scene files (colors, vectors and section
//! names), which secondary rays a hit spawns under the reflection budget, and
//! the checkerboard's tile parity.

mod color;
mod config;
mod render;
mod screen;
mod shading;
mod text;

pub use color::{is_hex_format, Rgb8};
pub use config::{
    section_kind, sections_of_kind, vector_components, SectionKind, VectorTextError,
};
pub use render::paint_frame;
pub use screen::{Pixel, ScreenContextManager};
pub use shading::{checker_shows_base, secondary_rays, SecondaryRays};
