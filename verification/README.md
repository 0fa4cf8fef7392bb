# ncspot core

The logic of a terminal Spotify client, written in Verus: each function
states what it does in `requires`/`ensures` and the verifier proves it.

- `src/` is the verified library: command parsing and printing, key
  bindings, the playback queue, the user's library, playlist sorting, lyrics
  handling, Spotify URIs and links, tokens, media-control requests, the
  equalizer's bands and presets, configuration and the main loop's decisions.
  Calls into other crates (URL parsing, lower-casing, duration parsing,
  random numbers, percent-encoding, JSON) go through small trusted wrappers
  whose contracts name or state what those crates do.
- `tests/` runs the library on concrete values.
- `app/` is the program around it: command-line arguments, the login
  helper's free port, and the equalizer's floating-point filters.
