//! Real-time core of a mouse-to-joystick mapper: relative pointer motion
//! is collected, smoothed once per millisecond tick and turned into the
//! deflection of a virtual analog stick.
//!
//! All arithmetic is integer fixed point. Filtered motion is held in
//! millionths of a device count, and ratios (decay, sensitivity) in permille.

pub mod fixed;
pub mod decay;
pub mod window;
pub mod smoothing;
pub mod filter_laws;
pub mod mouse;
pub mod virtual_pad;
pub mod config;
pub mod telemetry;
pub mod scheduler;
