# LimeLight

A Stream Deck plugin that controls Elgato Key Lights through the local
`keylightd` daemon.

- `src/` is the verified library (Verus): targets and settings, the light
  snapshot and its aggregates, the update queue that merges quick presses,
  the daemon start-up decisions, the registry of action instances and what
  each one shows, the SVG key artwork and its data URIs, and the requests
  of the property inspector.
- `app/` is the plugin program around it: the host connection
  (`openaction`), the HTTP client (`ureq`), the async tasks (`tokio`), the
  JSON forms of the library's types (`serde`), and the colour arithmetic,
  which is floating point.
- `tests/` runs the library on concrete values.

`app` also writes the static icons: `limelight gen-icons [DIR]`.
