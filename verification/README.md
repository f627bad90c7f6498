# Twitch Voice Reader

Reads the chat of one or more Twitch channels aloud, with Piper, a local
and offline speech engine.

- `src/` is the verified library (Verus): IRC line parsing, content
  filters, anti-spam, the central decision on each message, voice choice
  and the text handed to Piper, decoding of Piper's output, installation
  decisions, the device-flow authentication decisions, the per-channel
  reconnection supervisor and the channel status board, session
  statistics. Each public function states what it returns in its
  contract; the `law_*` proof functions state the properties that span
  several calls.
- `tests/` runs the library on concrete values.
- `app/` is the desktop application around it (Tauri): settings file,
  SQLite history, keychain, network and WebSocket I/O, the Piper process,
  audio output, the overlay server and the interface commands.
