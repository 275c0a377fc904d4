# Grape

Grape is a music player for a library laid out as folders
(`Artist/Year - Album/NN - Title.ext`, or albums and tracks directly under the
library root).

- `src/` is the verified core, written in Verus: the library model (catalog,
  artists, albums, tracks), the rules that turn folder and file names into
  albums and tracks, the scan cache and its index, online album metadata and
  the user's edits of it, playlists, the player's state, search and the UI
  state machine, and the text panels of the interface. Every public function
  states what it returns in its contract; the laws that span several
  functions (a playlist read back from its saved form, a reorder undone, a
  read of the cache index after a write, a user edit that online metadata
  never overrides, …) are proof functions.
- `app/` is the program around it: it reads the folders, the tags (lofty),
  the cache and preference files (serde), asks Last.fm (reqwest), and prints
  the library through the panels of `src/`. It has no graphical window and
  no audio output: the window toolkit (iced) and the folder dialog (rfd) are
  not among its dependencies, and the audio crate (rodio) needs the ALSA
  system library to build, so the program shows the library as text and
  leaves playback out. Logging goes to standard error, without a logging
  crate.
- `tests/` runs the library on concrete values.
