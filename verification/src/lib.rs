//! Platform-independent logic of an emulator for Nicai/MStar CBE phone games:
//! archive and resource parsing, executable image parsing, guest memory and
//! file system models, display rotation, input state, frame buffers and
//! frontend helpers.
pub mod audio_engine;
pub mod bytes;
pub mod text;
pub mod cbe;
pub mod gamepad;
pub mod gamepad_overlay;
pub mod machine;
pub mod image_decoder;
pub mod input;
pub mod libretro;
pub mod rotation_profile;
pub mod runtime;
pub mod save_state;
