# oyasumi

The decision logic of OyasumiVR's core and overlay sidecar, verified with Verus.

`src/` is the library, verified by Verus. The functions that read the wall
clock (`clock::unix_millis_now`, `clock::get_time`) claim nothing of the time
they read; the others carry contracts that state their results:

- `text`, `decimal`: strings as `Seq<char>`, split into pieces and lines as
  `str::split` and `str::lines` do; unsigned integers printed and read in decimal
  as `{}` and `str::parse` do.
- `system_report`: the graphics adapters named by `glxinfo` or `lspci -nn`, the
  distribution's name, the layout of a log line.
- `clock`: timestamps in milliseconds since the Unix epoch.
- `process`: the tracked VR processes, the cache of their process ids, and the
  signals that quit SteamVR.
- `vrchat`: whether VRChat counts as running, and the events that report it.
- `modes`: the run modes chosen on the command line.
- `openxr`: the side the user lies on, the XR session's status and restarts,
  failed pose queries, the head-shake detection loop, the brightness overlay.
- `sounds`: which files are sounds, their names, the lengths the frontend is
  told, and the library of loaded sounds.
- `session_bus`: the D-Bus connection made once and kept.
- `sidecar`: the sidecar's command line, the watch on the core process, the
  addresses of its pages.

`app/` is the program around it: Tauri, OpenXR, sysinfo, notify, D-Bus, audio
decoding and output (rodio) and the other I/O, which hand plain values to the library and act on what
it returns. `tests/` runs the library on concrete values.
