# usb_mess

Explains the USB-C ports, partners and cables of a Linux machine from
`/sys/class/typec/` and `/sys/class/power_supply/`.

- `src/` is the library, verified with Verus: decoding of the ID Header and
  Cable VDOs, reading of sysfs attribute values (trimming, active choices,
  integers in the rules of `from_str_radix`), the assembly of a snapshot
  (ports filtered and sorted by name, the live charge on sink ports), the
  text rendering, and the debounce of the watcher.
- `app/` is the program around it: the command line, reading the sysfs
  files, the floating-point figures of a charge, JSON output and the udev
  loop.
- `tests/` runs the library on concrete values.
