# tidal_rs

A small client for the TIDAL music service: it searches the catalogue, lets
the user pick a track in a terminal menu and downloads its lossless stream.

- `src/` is the library, verified with Verus: URL and file-name sanitising
  (`util`), an insertion-ordered map of query parameters (`query`), the
  request endpoints, bearer headers and the decoding of playback manifests
  (`api`), and the data types of the API (`structs`, `user`). `json` holds
  parsed JSON documents, viewed as their compact JSON text, with trusted
  lookups into `serde_json`; `external` holds the other trusted
  specifications (URL building, base64, UTF-8, the clock).
- `app/` is the program around it: command-line arguments, the HTTP
  requests and authentication flows, the terminal menu and the download.
- `tests/` exercises the library on concrete values.
