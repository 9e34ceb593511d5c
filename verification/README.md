# dropair

The verified core of DropAir, a desktop file shelf for macOS and Windows
that collects files, folders and text and sends them to other DropAir
devices on the LAN.

- `src/` — the library, verified with Verus:
  - `shelf.rs`: the shelf (ids never reused, no duplicate or blank paths).
  - `settings.rs`: settings normalisation and save-or-roll-back updates;
    the shelf frame's `f64` rules stated on IEEE-754 bit patterns.
  - `windows_shelf.rs`: the shake detector on whole pixels, its
    sensitivity thresholds, and one step of the mouse-watching loop.
  - `shake_shelf.rs`: monitor status, counters, and the shake window and
    trigger cooldown rules.
  - `transfer.rs`: the discovery datagram and transfer handshake (with
    round-trip laws), the peer list, received-file naming and what goes out
    for each shelf item.
  - `text.rs`: character-level helpers (trim, split, `u16` parsing,
    decimal and hex printing).
- `tests/` — tests of the library on concrete values.
- `app/` — the Tauri shell: commands, file/network/window I/O, and the macOS
  pointer code, which works on `f64` positions.
