# jutsu_audio

The project model and file handling of a small audio editor, with the
decisions its editor, command line and live-session server make, verified
with Verus.

## Layout

- `src/` is the verified library.
  - `model/`: projects, their IDs, validation, bus routing, resolved notes
    and the tempo map.
  - `paths.rs`, `text.rs`, `order.rs`: portable paths and sidecar names,
    decimal and hexadecimal spelling, and the ordering of text.
  - `store.rs`, `assets.rs`, `autosave.rs`, `report.rs`, `bundle.rs`,
    `presets.rs`: what is checked before a project is written, how audio is
    imported and checked, parked work, diagnostic reports, bundles and
    relinking, and the preset library.
  - `session/`: the wire protocol, the write lock, the published session
    descriptor, the client's decisions and the server's screening and replay
    history.
  - `editor/`: what the editor and the command line decide apart from
    drawing: keyboard navigation, the decode cache, labels, finished
    background jobs, change events, the session host,
    preset commands, batches and the MCP routing.
- `app/` is the `jutsu-audio-cli` program around the library: files,
  sockets, threads, JSON, WAV samples and everything else that is
  floating point.
- `tests/` runs the library on concrete values.

Hashing (`sha2`), UUIDs (`uuid`), reading a WAV header (`hound`) and reading
a JSON field (`serde_json`) are called from the library through small trusted
wrappers whose contracts say what those crates document.
