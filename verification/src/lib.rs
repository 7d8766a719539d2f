//! Core logic of the Glyph8 terminal NES emulator: controller state, frame
//! buffers, the iNES header parser, the halfblock frame encoder, keyboard
//! input mapping, the FPS window, the terminal-size check and the frame
//! digest of headless runs.

pub mod backend;
pub mod cli;
pub mod controller;
pub mod digest;
pub mod error;
pub mod fps;
pub mod frame;
pub mod halfblock;
pub mod ines;
pub mod input;
pub mod render;
pub mod terminal;
pub mod text;

pub use cli::Args;
pub use controller::ControllerState;
pub use error::EmulatorError;
pub use fps::FpsMeter;
pub use frame::{Frame, BPP, FRAME_BYTES, HEIGHT, WIDTH};
pub use halfblock::HalfblockRenderer;
pub use ines::{make_minimal_nrom, parse_header, Mirroring, RomInfo};
pub use input::{Input, PollOutcome};
pub use render::Renderer;
pub use terminal::check_terminal_size;
