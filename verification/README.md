# ultimate64_manager

A library for managing Ultimate 64 / Ultimate II+ devices (Commodore 64
FPGA boards), written in Verus: its behaviour is stated in `requires` /
`ensures` contracts and proved.

## Layout

- `src/` — the verified library.
  - `text.rs` — strings: whitespace trimming, case folding, searching,
    decimal and hexadecimal rendering, joining.
  - `petscii.rs` — PETSCII to Unicode text.
  - `mod_info.rs` — name, author and play time of ProTracker MOD files.
  - `file_types.rs`, `sorting.rs` — file kinds by extension; stable sorts by
    keys, with their order laws.
  - `port64.rs` — the port-64 socket protocol: packets, payloads and the
    decoding of replies.
  - `net_utils.rs` — REST timeouts, HTTP status errors, blocking calls under
    a timeout.
  - `profiles.rs` — connection profiles and the active one.
  - `profile_api.rs`, `profile_repo.rs` — applying device profiles (steps,
    mounts, cartridge programs) and the profile repository's decisions.
  - `remote_browser.rs` — the device file browser: listing order, favorites,
    transfers, deletes, renames and Game Mode, as state transitions that name
    the outside work they need.
  - `music_player.rs`, `music_ops.rs` — playlist, queue order, shuffle,
    subsongs, song length database, local music browsing.
  - `memory_editor.rs` — the memory editor: search, byte editing with undo,
    bookmarks, dumps, flash inspection, the hex view's texts and the
    chunking of writes.
  - `config_tree.rs` — a device configuration (categories of settings) as
    association lists seen as maps, with its read/write laws.
  - `profile_manager.rs` — the device profile editor: editing settings,
    tags, mounts and launch flags, loading/saving/applying profiles, and the
    remote file picker for path settings.
  - `pdf_preview.rs` — previews of PDF files (first embedded image, else
    text).
- `tests/` — tests of the library.
- `app/` — a command-line program around the library: files, sockets,
  JSON settings, git and directory walks.
