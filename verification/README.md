# vst3_host

A VST3 plugin host for a digital audio workstation, written in Verus.

- `src/` is the verified library: plugin scanning (`scan`, `paths`),
  the walk over a module's factory, which classes it offers and how they
  are described (`factory`, `plugin_descriptor`, `text`), the decisions
  made while loading a plugin (`plugin`), what the window shows while a
  project loads (`loading`), the decisions of the host's COM objects
  (`com`), plugin errors (`error`), the settings panel (`config_view`), the
  toolbar clock and tabs (`toolbar`), the audio graph's nodes (`graph`),
  stream and sample settings (`stream`, `sample`) and the standard plugin
  folders (`lib.rs`).
- `app/` is the unverified shell around it: loading shared libraries,
  carrying out the factory walk's requests through COM vtables, the COM objects' callbacks, reading the environment
  and carrying out the settings panel's tasks.
- `tests/` exercises the library on concrete values.
