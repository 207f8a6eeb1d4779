# spotify_tui

A terminal Spotify controller. The library (`src/`) holds its logic, verified with Verus:

- `model`: the player snapshot (`NowPlaying`), its locally advanced progress, and the
  playback commands.
- `auth`: the login page's address (percent-encoded with the `urlencoding` crate), the
  token request's form, and reading the authorization code out of the callback address.
- `json`: a JSON document as the response handling reads it, and member lookup.
- `spotify`: turning a "currently playing" response into a snapshot, and the album art's
  dominant color (decoded with the `image` crate).
- `poller`: the polling decisions, as a step from state and event to state and action.
- `ui`: key handling, queue selection, the visualizer's bar count, labels and theme.
- `text`: number formatting, joining and comparing text.
- `app`: the state of the simple polling program.

`app/` is the program around it: the browser login, the HTTP requests, the polling loop
and the terminal drawing.
