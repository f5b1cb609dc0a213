# myisland

The logic of MyIsland, a "dynamic island" for the Windows desktop, as a
library whose behaviour is stated in Verus contracts and proved.

- `src/` is the verified library: LRC lyric parsing and lookup, the lyric
  source plan and result choice, log timestamps and log texts, the plugin C
  ABI values and the checks on a loaded plugin, plugin manifests and package
  listings, the packaging tool's settings, configuration values and the
  settings window's steppers and menus, the translation tables, the water
  reminder, the media session's timeline and session choice, the player's
  labels, cover-art colour buckets and window bookkeeping.
- `tests/` runs the library on concrete values.
- `app/` is the program around it: files, the network, plugin libraries and
  the logger.
