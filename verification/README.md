# openlogi_onboard

Onboard-profile control for HID++ gaming devices, verified with Verus.

A gaming device either runs a profile stored in its own flash ("onboard mode") or
takes its settings from software on the host ("host mode"). This library reads and
changes that state, keeps what was read of each device, decides what the panels of
the application show, and plans the download of device art.

- `src/` is the library. Its functions carry contracts that Verus proves, and public
  proof functions state what holds across functions: that a failed refresh never blanks a
  panel, that a ROM profile is never activated, that a directory reads back as it was
  laid out.
- `tests/` exercises the library from outside.
- `app/` is the ordinary Rust around it: the command line, the device transport,
  the asset download, and what the panels draw.

One call is trusted rather than proved: the delays between attempts to sync assets
come from the `backon` crate (`exponential_delay` in `src/assets.rs`).
