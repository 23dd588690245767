# xremap

A key remapper for Linux: it reads key and mouse events from input devices,
rewrites them by a configuration, and emits the result on a virtual output
device.

The remapping itself is a library whose behaviour is stated in contracts and
proved with Verus:

- `src/event_handler/`: the modmap (key to key, multi-purpose keys,
  press/release keys) and the keymap (key combinations, nested remaps with
  timeouts, modes, the mark, escaping the next key, launching programs),
  together with the tracking of held modifiers and pressed keys.
- `src/operator_handler.rs` and the `operator_*` files: experimental operators
  (chords, double taps, one-shot keys, throttled keys) that run before the
  event handler.
- `src/throttle_emit.rs`: delays between emitted key events for applications
  that miss fast combinations.
- `src/multipurpose.rs`: keys that act differently when tapped and held.

`app/main.rs` is the program around it: command line, devices, timers and the
main loop. `tests/` exercises the library.
