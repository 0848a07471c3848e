//! The integer core of a Monte Carlo ray tracer: the plain-text image
//! encoding, the renderer's walk over the pixels of an image, and the rules
//! that end a traced light path. The floating-point geometry, materials and
//! sampling drive these from outside.

pub mod decimal;
pub mod path;
pub mod ppm;
pub mod render;

pub use decimal::push_decimal;
pub use path::{PathEnd, PathTracer, TraceEvent};
pub use ppm::{header_text, pixel_text, Rgb};
pub use render::{ConfigError, RenderConfig, RenderStep, Renderer};
