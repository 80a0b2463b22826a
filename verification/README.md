# GoXLR Volume Wheel

A Windows tray application that puts the volume keys of a keyboard, or the wheel of a headset, on a
fader of a GoXLR mixer.

- `src/` is the verified library: what a keystroke, a message, a click, a timer tick or a report of
  the daemon leads to. Every function there states its result exactly and is proved by Verus.
- `app/` is the application around it: threads, windows, drawing with GDI, files, the registry and
  the WebSocket connection. It performs what the library asks for. Most of it builds on Windows
  only.
- `tests/` runs the library.

## What is proved

- The volumes that are sent stay between 0 and 255, a step up and a step down undo each other away
  from the ends, and the volume that the daemon reported last is the one that the next step starts
  from.
- While the daemon is unreachable no keystroke is taken from Windows; while it is reachable both
  edges of a volume key are.
- Whatever is edited in the settings, something stays visible, the channels keep their order, and
  the startup channel is never a hidden one.
- The cycle hotkey visits the visible channels in order and comes back to the first.
- A combination that is recorded is the one that is written, read back and registered, and the
  hotkey is released exactly while a recording runs.
- In the settings window, whose client area is 460 by 780 pixels, no point belongs to two regions,
  and a click does what is shown under it. The laws hold of other sizes too, but for widths at which
  the star and the eye of a row meet and heights at which the help view's button reaches its tabs.
- After every tick of its timer the tray's menu lists the visible channels, and its check mark and
  tooltip are those of the active one. The connection that it tells of is the present one, unless a
  channel was chosen since the last tick while the connection was another one.
- When the keyboard hook is installed anew, the old one is removed first, and no hook is left behind
  when its thread ends.
- Only a configuration that was written whole takes the place of the old one.

## What is trusted

`serde_json` looks into the daemon's messages and writes strings; the contracts for that stand in
`src/json.rs`. `String::push` of the standard library has its contract in `src/text.rs`.
