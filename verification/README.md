# Privacy Aperture

A local-first privacy dimmer for laptops. Sensitive applications and websites
are covered with click-through black overlays, and the panel's hardware
brightness can optionally be lowered while they are in front.

The crate is written in Verus. `src/` is the library whose behaviour is stated
in contracts and proved:

- `domain`: the configuration model, its validation (versions, text fields,
  visibility levels, hostnames, duplicate application rules), rule matching
  (website rules by most specific hostname, then application rules, nothing
  while paused) and the admission of browser context messages (frame size,
  content checks, strictly increasing sequence numbers per browser instance).
- `brightness`: the hardware brightness session. Automatic protection,
  manual settings and timed previews share one captured original level; the
  platform operations are passed in as closures and every contract holds for
  whatever they report. Also the per-display choice of interface (IOKit
  first, DisplayServices for built-in panels), which monitors and backlights
  can be controlled at all (a readable, non-empty range), the outcome of reading every
  display, the scaling of a percentage into a display's range, and the
  all-or-nothing level change that puts displays back when one refuses.
- `protection`: one protection pass from the foreground application to the
  hardware level and the status shown to the user.
- `foreground`: the list of running applications offered for new rules
  (only owners of an eligible window, one entry per identifier, sorted).
- `overlay`: the overlay alpha for a visibility level, and which overlay
  windows are shown, reused or hidden, including timed previews; overlays
  beyond a new plan are hidden, and a failed pass hides every overlay it
  touched and keeps them tracked.
- `storage`: which stored configuration versions are read, and the in-memory
  migration of version 1 documents to the current configuration.
- `command_center`: launch-at-login changes, global shortcut registration and
  replacement (with the set of registered shortcuts it leads to), shortcut
  events and the tray's labels.
- `text`: trimming, byte-exact comparison, ASCII case and decimal rendering.

`app/` is the Tauri shell around it: platform backends (CoreGraphics, IOKit,
DisplayServices, Monitor Configuration, Linux backlight), the JSON settings
file and native messages (serde), threads, locks and windows.

`tests/` exercises the library, including simulated brightness panels.
