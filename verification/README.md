# rust_rdp

A remote desktop client (Microsoft RDP and VNC) whose core is verified with
Verus. The library decides; the desktop application around it draws the
window, reads and writes files and runs the network sessions.

## Layout

- `src/` — the verified library.
  - `text`, `numbers`: character and number handling the parsers build on.
  - `config`, `session_file`, `round_trip`: connection forms, `.rdp` / `.vnc`
    connection files, the multi-tab session file, and the proofs that a saved
    file opens as what was saved.
  - `keys`, `input`, `remote_input`, `capture`: the keyboard model, RDP and VNC
    input events, what the remote view forwards (pointer, modifiers, keys,
    menu key combinations) and the keyboard-capture gate.
  - `session`: the registry of live sessions and the routing of input to the
    active one.
  - `connection`, `bitmap_codec`, `progressive`, `pixels`, `frame`, `der`,
    `server_key`: connection attempts and status texts, decoding and drawing of
    bitmap, surface and RemoteFX progressive updates (with the codecs of
    `ironrdp_graphics`), framebuffers, and the server key CredSSP binds to
    (with `picky`).
  - `desktop`, `tabs`, `callback`: tab titles, shortcuts, window titles, the tab
    strip and its effects, and the session callbacks.
  - `debug_target`: the connection target that the diagnostic connection mode
    (`--debug-conn <file.rdp>`) reads from an `.rdp` file.
- `tests/` — tests of the library on concrete values.
- `app/` — the desktop program: the egui window, file dialogs and files, the
  tokio runtime with the RDP (IronRDP) and VNC connection tasks, native
  keyboard capture, the C and JNI entry points, and the diagnostic connection
  mode.
