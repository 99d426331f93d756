# MapleHelper

Controls the Windows filter keys at once, without a restart: presets of filter key values, hotkeys and
leader key combinations that apply them, timers with an alarm, and a registry entry that takes the
Hanja function from the right control key.

- `src/` is the library. It holds everything the program decides, as functions on plain values, with
  contracts that Verus proves. Laws that span several functions are public proof functions whose names
  begin with `law_`.
- `tests/` runs the library on concrete values.
- `app/` is the program around it: the window and tray icon, the calls into Windows, files, threads,
  and the floating-point samples of the alarm's tone.

What the library takes on trust is small: that `str::to_lowercase` is a function of its text and what
it gives for ASCII texts, and that `global_hotkey`'s `HotKey::from_str` is a function of its text.
