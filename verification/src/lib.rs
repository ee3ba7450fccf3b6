//! Fixed-point core of an audio-reactive flame effect: a persistent particle
//! simulation per instance, additive rasterisation into a pixel buffer and a
//! mirror-padded box blur.
//!
//! Once per frame the host calls [`flame2_process`] with a pixel buffer, the
//! powers of three frequency bands and an instance identifier. The call
//! looks the instance up in an [`InstanceStore`], ages, moves and culls its
//! particles, spawns new ones, draws every live particle as a soft disc and
//! blurs the result. [`render_particle_blobs_singlethread`] is a second
//! compositor that draws particles as Gaussian blobs.
//!
//! Every quantity is an integer. Real numbers are held in fixed point with
//! sixteen fractional bits ([`Fixed`]), so that each function has an exact
//! contract: what it computes is stated down to the last bit, arithmetic
//! saturates instead of overflowing, and no function panics.

pub mod blob;
pub mod blur;
pub mod buffer;
pub mod color;
pub mod color_laws;
pub mod compositor;
pub mod engine;
pub mod fixed;
pub mod kernel;
pub mod kernel_laws;
pub mod particle;
pub mod power;
pub mod rng;
pub mod simulator;
pub mod state;
pub mod store;
pub mod sums;
pub mod trig;

pub use crate::blob::{render_particle_blobs_singlethread, Particle};
pub use crate::buffer::PixelBuffer;
pub use crate::engine::{flame2_process, flame2_release};
pub use crate::fixed::Fixed;
pub use crate::rng::SimpleRng;
pub use crate::store::InstanceStore;
