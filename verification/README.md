# wecom_launcher

The verified core of a desktop launcher that starts several instances of a
messaging client, one per account slot, paced like a person starting them.

- `src/` — the library; every function carries a proved contract:
  - `text.rs`: whitespace trimming, ASCII case folding, substring search,
    decimal rendering and joining, each against a spec.
  - `models.rs`: account tiers (parsing, names, labels, delay windows), launch
    options, safe-mode user names, and the records returned to the interface.
  - `policy.rs`: launch pacing (first launch immediate, later ones drawn from a
    window), slot-count clamping, the built-in presets.
  - `launch.rs`: a batch launch as a state machine the caller drives.
  - `platform/`: process selection, slot allocation, and the decisions of the
    macOS, Windows and unsupported backends.
- `tests/` — tests on concrete values.
- `app/` — the commands, the JSON records, and the operating-system work
  (process table, files, spawning processes, sleeping).
