# wayland-display-core

The decisions of a headless Wayland display that feeds a video encoder, written and proved in
Verus.

- `src/` is the verified library. It holds no protocol, GPU or pipeline object: callers hand it
  plain values and carry out what it decides.
  - *Values*: sizes and the fullscreen fit (`geometry`), the UI scale and the logical extent
    (`ui_scale`, `logical`), output modes and their ladder (`output`), windows and their
    configures (`windows`), pixel formats (`formats`), negotiated video (`video`), HDR metadata
    (`hdr`).
  - *The display*: its state (`state`), mode changes (`modes`), surface commits (`commit`,
    `toplevels`, `blockers`, `pointer`), renderer degradation (`health`), HDR switching
    (`hdr_switch`), commands and frames (`session`), start and end (`startup`).
  - *The scaler*: caps (`caps`), the element (`vulkanscale`) and the frames it records
    (`scaler`).
- `app/` connects the library to Wayland, Vulkan and the media pipeline. It holds what needs
  those, and the arithmetic that is done in floating point.
- `tests/` runs the library.

Two conventions run through the contracts. A function that changes something states the whole
new value, fields that stay included. Properties that span several functions are public proof
functions whose names start with `law_`.

Moments are nanoseconds on a clock that never runs backwards; the caller reads the clock. A UI
scale is the bit pattern of a binary64 number, and the logical extent is computed from it with
integers, rounded exactly as a binary64 division rounds.
