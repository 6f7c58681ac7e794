# LumiFlow

LumiFlow is a self-hosted photo album for local and NAS photo libraries. It serves
folder albums (one per first-level directory) or timeline albums (photos indexed
recursively into SQLite and grouped per first-level folder and local day), cached WebP
thumbnails, original files with HTTP Range support, EXIF metadata, and optional album
descriptions written from a contact sheet by an OpenAI-compatible Responses API.

## Layout

- `src/` is the library, verified with Verus. Every function states what it returns in
  its contract, and the laws of the library are proved there:
  - `config`: the `LUMIFLOW_*` settings, their defaults and errors.
  - `scanner`: folder albums, the difference between two scans, and the watcher's
    decisions.
  - `timeline`: capture-time resolution, daily grouping and naming, holidays, places,
    contact sheets, description inputs and fingerprints, scan status and scheduling.
  - `exif`, `thumbnail`, `server`, `api`, `auth`: EXIF record building, cache paths,
    HTTP helpers, paging and session tokens.
  - `text`, `num`, `digest`, `order`, `paths`, `pattern`, `endpoint`: the string,
    number, hashing, ordering, path, regular-expression and URL pieces the rest builds on.
- `app/` is the program around the library: environment, HTTP server, SQLite store,
  file-system walks and watchers, image decoding and encoding, and network clients.
- `tests/` exercises the library on concrete values.

## Running

Set `LUMIFLOW_PHOTOS_PATH` and `LUMIFLOW_DATA_PATH` and start the binary; it listens on
port 4320 by default. `LUMIFLOW_ALBUM_MODE=timeline` selects timeline albums.
