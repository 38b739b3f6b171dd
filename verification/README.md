# netease_cloud_music_linux

The verified core of a NetEase Cloud Music desktop client, written in Verus.

- `src/` is the library. Every function in it is verified: lyric parsing
  (LRC timestamps, translations, the lyric cache), the comment feed of the
  "Now Playing" page as a state machine, the song list's chunked rendering,
  the web API's request encoding (`weapi`) and response checks, the cookie
  header, playlist completion order, the main window's navigation rules, and
  the step function that turns each event into the next state and the outside
  work to do.
  Calls into `openssl`, `base64`, `hex`, `urlqstring`, `regex` and
  `serde_json` stand behind small trusted wrappers whose contracts are stated
  next to them.
- `app/` is a command-line front end: HTTP requests with `isahc`, the cookie
  store on disk, the lyric cache files, and the conversion of `serde_json`
  documents into the library's JSON model.
- `tests/` runs the library on concrete values, including round trips
  through the real cryptographic crates.
