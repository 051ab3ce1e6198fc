//! Hand landmark detection from single camera frames.
//!
//! A frame is classified pixel by pixel into a skin mask, the skin pixels are reduced to a
//! region, and two landmarks, the tips of thumb and index finger, are picked from it. Two
//! strategies pick them: one clusters the topmost skin pixels, the other looks at the
//! convex hull of the region's boundary and falls back on its topmost vertices.

pub mod clustering;
pub mod color;
pub mod detector;
pub mod fallback;
pub mod geometric;
pub mod geometry;
pub mod http;
pub mod landmarks;
pub mod mask;
pub mod polygon;
pub mod region;
pub mod rng;
pub mod sorting;
pub mod target;
pub mod tracker;
pub mod wire;

pub use color::{Hsv, Rgb, SkinThresholds};
pub use detector::HandDetector;
pub use geometry::{Point, Position, Vertex};
pub use landmarks::HandLandmarks;
pub use mask::{Mask, PixelLayout};
pub use rng::SimpleRng;
pub use target::{TargetNotifier, TargetUpdate};
pub use tracker::HandTracker;
