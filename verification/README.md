# kasugai_box

A local API sidecar for KASUGAI: it lists the images of Box folders, reads the latitude,
longitude and date of each from the metadata that Box extracts (or from the file's own EXIF
data), and writes CSV and GeoJSON files. It also offers a small Box chat, an MCP server and
client, and the OAuth login to Box.

## Layout

- `src/` — the library, verified with Verus. Each module holds the decisions of one part of
  the program with their contracts, and the laws that relate them:
  - `text`, `charclass`, `json` — text helpers, the `\w` and `\d` classes of `regex`, and a
    JSON value with lookups;
  - `coordinate`, `metadata` — reading coordinates and dates out of Box's embedded metadata;
  - `geotag` — the same from a file's EXIF data (through `kamadak-exif`), and the GeoPackage
    point of a photo;
  - `box_api`, `photos`, `scan`, `representation` — Box's answers, the photo job's texts and
    records, the depth-first folder scan, and the polling of the metadata representation;
  - `config`, `auth`, `jobs`, `server` — settings and their updates, token decisions and the
    OAuth addresses, the job table, and the server endpoints' decisions;
  - `chat`, `mcp`, `desktop` — the chat commands, the MCP protocol and tools, and the desktop
    shell's variant of the settings and chat.
- `tests/` — tests of the library on concrete values.
- `app/` — the program around it: the axum server, the HTTP requests to Box, the keyring,
  files, the command-line flow, and the floating-point arithmetic of coordinates.
