# inzone-h9-gen1-headset-status

A tray indicator for the Sony INZONE H9 / H7 (first generation) headsets, which reads the
headset's power, battery and Bluetooth state from the USB receiver and shows it as a
colored icon.

- `src/` is the library, verified: the receiver's frame format (`protocol`), what the tray
  believes and shows (`state`, `text`), the settings file (`settings`), the startup entry
  (`startup`), the command line (`cli`), the poller's and the tray's decisions (`poller`,
  `transport`), and a few small helpers (`chars`, `numfmt`, `icon`, `devices`).
- `app/` is the Windows program around it: the serial port, the registry, the shell, the
  threads and the drawing of the icon.
- `tests/` exercises the library on concrete values.
