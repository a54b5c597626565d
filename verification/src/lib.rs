//! Integer core of a chaotic-attractor renderer.
//!
//! Orbit points arrive already projected to pixel coordinates; the library
//! keeps the density histogram, the running maximum, the shared control
//! block, the density-to-pixel sweep and the state machine that paces a
//! progressive render. Every function carries a contract that Verus proves.

pub mod color;
pub mod config;
pub mod control;
pub mod density;
pub mod image;
pub mod progressive;

pub use crate::color::{
    background_channel, background_color, get_low_quality_point, pack_rgba, RGB,
};
pub use crate::control::ControlBlock;
pub use crate::density::{accumulate_density, AccumulationContext};
pub use crate::image::{create_image_data, ImageDataCreationContext};
pub use crate::progressive::{Action, LoopController, LoopModel, Phase, RunState};
pub use crate::config::{get_build_number, parse_attractor_kind, AttractorKind, ConfigError, VERSION};
