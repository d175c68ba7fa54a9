# cosmic-shot

A screenshot tool for the COSMIC desktop: freeze all outputs, draw a
selection over the frozen frame, then copy it to the clipboard or save it.

The crate is split in two:

- `src/` is the library, verified with Verus:
  - `types` — captured frames and their conversion to RGBA8;
  - `export` — cropping a selection (`export::crop`) and encoding it as
    PNG, JPEG or WebP through the `image` crate;
  - `config` — defaults, the configuration file's location, `~`
    expansion, the screenshot file name and the `--print-shortcut` text;
  - `capture` — the decisions of a Wayland capture: pixel format, buffer
    layout, which outputs to capture, when to stop waiting;
  - `selection` — the overlay's selection state machine.
- `app/` is the program around it: Wayland protocol plumbing, file and
  clipboard I/O, reading `config.toml`, and the iced overlay.
