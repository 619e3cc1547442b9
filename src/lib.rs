//! Animated window borders.
//!
//! - `color`: colors and gradients in fixed point, and gradient resampling.
//! - `animations`: the per-tick color fade, gradient fade and rotation.
//! - `border`: the per-border state machine that takes events and ticks.
//! - `timer`: the decisions of a border's animation timer.
//! - `registry`: at most one border per tracked window.
//! - `event_hook`: which border a window-system notification goes to.
//! - `easing`: easing curves, their control points, and reading them.
//! - `color_config`: colors, directions and gradients from their strings.
//! - `config`: configuration choices: file format, window rules, options.
//! - `text`: reading characters, numbers and lists from strings.
pub mod text;
pub mod color;
pub mod animations;
pub mod timer;
pub mod registry;
pub mod easing;
pub mod border;
pub mod event_hook;
pub mod config;
pub mod color_config;
