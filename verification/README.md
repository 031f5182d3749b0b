# capview

A low-latency viewer for capture cards, with its decisions verified by Verus.

- `src/` is the library. It holds the configuration file, the on-screen menu and
  how it is taken over into the settings, pixel formats, JPEG and PNG files,
  analysis strips, the sound path, frame generation, the passes of the renderer,
  pausing and pacing. Every function has a contract, and every contract is proved.
  Functions whose names begin with `law_` state what holds across functions.
- `tests/` runs the library on concrete values.
- `app/` is the program for Linux: arguments, files, Video4Linux, PulseAudio,
  SDL, OpenGL, Vulkan, the Wayland clipboard, and what is computed in floating
  point.

What the library takes on trust are three functions of the standard library, all
in `src/text.rs`.

FidelityFX scaling needs `ffx_a.h` and `ffx_fsr1.h` beside `capview.conf`; without
them it falls back to bilinear scaling.
