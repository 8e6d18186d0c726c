//! Escape-time rendering of the Mandelbrot set into a packed RGBA buffer.
//!
//! The library holds the integer side of the renderer: the size of the
//! output buffer, the policy that picks a colour for an iteration count, the
//! channel layout of each hue sector, and the row-major packing of pixels.
//! The escape-time recurrence and the HSV interpolation run in floating
//! point and are left to the caller; they hand the library one iteration
//! count per pixel and one colour per count.
pub mod color;
pub mod raster;

pub use color::{sector_layout, shade_of, color_of, Rgb, SectorLayout, Shade, COOL_HUE_DEGREES, MAX_ITERATIONS, WARM_HUE_DEGREES};
pub use raster::{create_array, image_data_size, paint, pixel_offset, RenderError};
