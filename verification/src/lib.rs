//! Key remapping core.
//!
//! - `event`, `keys`, `action`: the events that come from input devices and
//!   the actions that go to the output device.
//! - `event_handler`: the modmap and keymap rules, multi-purpose keys,
//!   press/release keys, nested remaps with their timeouts, the mark and the
//!   held modifiers; `keymap`, `keymap_table`: the rules it reads.
//! - `operator_handler` with `operator_sim`, `operator_double_tap`,
//!   `operator_oneshot`, `operator_throttle`, `operators`, `emit_handler`,
//!   `config`: the experimental operators (chords, double taps, one-shot and
//!   throttled keys) that run before the event handler.
//! - `multipurpose`, `throttle_emit`, `timeout_manager`, `clock`: timing.
//! - `main_controller`, `control`, `device_filter`, `plugin`: what the program
//!   around the library decides.

pub mod action;
pub mod clock;
pub mod config;
pub mod control;
pub mod device_filter;
pub mod emit_handler;
pub mod event;
pub mod event_handler;
pub mod keymap;
pub mod keymap_table;
pub mod keys;
pub mod main_controller;
pub mod multipurpose;
pub mod operator_double_tap;
pub mod operator_handler;
pub mod operator_oneshot;
pub mod operator_sim;
pub mod operator_throttle;
pub mod operators;
pub mod plugin;
pub mod throttle_emit;
pub mod timeout_manager;
pub mod util;
