# key_listener

A keyboard listener: it logs every pressed key with a time stamp, counts the
pressed keys in a metric that survives restarts, and reacts to hotkeys
(Escape stops the program, Q+C prints a greeting).

- `src/` is the verified library (Verus): hotkey combinations (`hotkey`),
  the signals between workers (`signals`, `listener`), the key log
  (`logger`, `clock`), the metric and its file format (`metrics`, `text`),
  the termination flag (`safe_term`) and the event handling (`logic`).
- `app/` is the program around it: threads, files, the keyboard hook
  (`rdev`) and the Ctrl-C handler (`ctrlc`).
- `tests/` runs the library on concrete inputs.
