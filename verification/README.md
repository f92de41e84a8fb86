# sfx_board

The logic of a sound-effects board: a grid of slots that play sounds, global
hotkeys bound to them, a timeline of placed sound events with playback,
recording of triggers into the timeline, undo and redo, project files,
timeline export, and a small LAN remote-control server.

`src/` is the verified library (Verus). Times are integer microseconds, gains
are thousandths, and moments are seconds and nanoseconds since the Unix
epoch, so that every rule can be stated and proved over integers.

- `models/` — slots, timeline events, recording sessions, projects.
- `timeline/` — the time-sorted event list and the playback clock.
- `undo/` — bounded undo and redo histories, with their laws.
- `recording/` — the recording state machine and the global shortcut
  manager (bindings, conflicts, hotkey lookup).
- `commands/` — the board's operations on its state: slots, timeline edits,
  playback steps, undo and redo, recording, shortcuts, projects.
- `export.rs` — the timeline export description and time formatting.
- `remote/` — request parsing, routing, the LAN check and the event stream.
- `audio/` — format checks of decoded audio and gain sharing.

`app/` is the desktop shell around the library: Tauri commands, audio
decoding and output, file I/O, the TCP server and the floating-point mixing
of exports.
