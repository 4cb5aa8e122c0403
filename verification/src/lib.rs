//! Control core of an eight-channel lighting dimmer.
//!
//! The crate keeps the shared bank of brightness levels together with its
//! coalescing wake signal, the perceptual duty-cycle table that turns a
//! level into a hardware duty fraction, the serial menu renderer, and the
//! dispatch step that interprets single-byte commands from the serial link.
//! Hardware access (timers, UART, button) stays outside; the functions here
//! compute the exact bytes and duty writes that a driver shell performs.

pub mod dimmer;
pub mod menu;
pub mod pwm;
pub mod dispatch;
