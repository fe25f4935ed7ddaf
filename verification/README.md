# tuun

A music player that drives mpv. It shows what is playing, keeps Discord and Last.fm informed, and
plays from playlists and from a queue.

- `src/` is the logic, with contracts that Verus proves. Texts are modelled by their characters, JSON
  values and ID3 tags by plain data, and the player by its state and the actions that each report of
  mpv asks for. The proof functions whose names begin with `law_` state what holds of several
  functions together.
- `app/` is the program around it: sockets, files, processes, the terminal, and everything that is
  counted in fractions of seconds.
- `tests/` runs the library on concrete values.

What the proofs rest on without proof is marked where it stands: the declarations of outside types
and the small functions that call `serde_json`, `id3`, `urlencoding` and a few functions of the
standard library.
