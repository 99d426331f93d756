//! The logic of a helper for the Windows filter keys: presets of filter key values, hotkeys that
//! apply them, a leader key whose combinations are kept from the game, timers with an alarm, and the
//! registry value that takes the Hanja function from a key.
//!
//! Everything here works on plain values. What the system is asked and what it answers comes in and
//! goes out as arguments and results; the calls themselves are made by the program around this
//! library.
//!
//! - `text`, `bytes` and `wide` are about texts and numbers.
//! - `config` is the configuration, `load` takes over a stored one, and `settings` puts one into
//!   effect.
//! - `keys` reads combinations; `hook` decides over single keys, `hotkeys` over hotkeys.
//! - `filter`, `timer`, `alarm`, `scancode` and `system` are what hotkeys and the user set off.
//! - `error` holds what can go wrong.
//! - `text_laws`, `key_laws`, `hook_laws` and `hotkey_laws` prove what holds of all texts, keys and
//!   configurations; the laws of the other modules stand in them. `call_laws` says what calls give back
//!   and change.

pub mod alarm;
pub mod bytes;
pub mod call_laws;
pub mod config;
pub mod error;
pub mod filter;
pub mod hook;
pub mod hook_laws;
pub mod hotkey_laws;
pub mod hotkeys;
pub mod key_laws;
pub mod keys;
pub mod load;
pub mod scancode;
pub mod settings;
pub mod system;
pub mod text;
pub mod text_laws;
pub mod timer;
pub mod wide;
