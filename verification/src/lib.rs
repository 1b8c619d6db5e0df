//! The logic of the `xpui` gallery firmware for two Pimoroni RP2040 boards,
//! with its behaviour stated and proved.
//!
//! `debounce` turns a switch's raw samples into edges, four agreeing samples
//! to a change, and `debounce_laws` proves what that promises over a whole
//! run. `board` describes a case and resolves a key's label to what it sends;
//! `buttons` joins the two into five switches sampled once a frame. `frame`
//! decides the frame loop: paint once at boot, then begin, poll, tick,
//! present only what was painted, wait, and park when the root finishes.
//! `paced_fill` routes a parallel panel's solid fills onto its per-pixel path
//! and `runtime` reads the heap. `gate`, `workspaces`, `settings` and `text` are the
//! repository's build-and-test script: its checks, the cargo invocations each
//! makes, and the reading of lint configurations.

pub mod board;
pub mod buttons;
pub mod debounce;
pub mod debounce_laws;
pub mod frame;
pub mod gate;
pub mod paced_fill;
pub mod runtime;
pub mod settings;
pub mod text;
pub mod workspaces;
