# clipboard_caoguo

Clipboard history with synchronisation between paired devices on the local
network.

- `src/` is the library, verified with Verus: the sync message protocol and
  its content hash, the trusted-device and pairing tables, the device
  identity, the echo-suppressing hash cache of the clipboard monitor, and the
  decisions of the sync server (sync tallies, file-transfer admission, file
  name cleaning, the free-port search, image and file payloads). Calls into
  outside crates (SHA-256, hex, base64, UUID, the clock, random numbers, PNG
  encoding and image decoding) stand behind small trusted wrappers whose
  contracts are stated in their doc comments. The `law_*` proof functions state
  properties that hold across operations.
- `tests/` runs the library on concrete values.
- `app/` is the desktop application around the library: Tauri commands, the
  HTTP server and client, mDNS discovery, the clipboard polling loop, and the
  files and database on disk.
