# Subtidal

Subtidal exposes a Tidal library through the OpenSubsonic API, so that any Subsonic client can
browse, search and stream it.

- `src/` is the library: the rules, parsers, state and arithmetic of the server, verified with
  Verus. Each function states in its contract what it returns or changes. Laws that span several
  functions are proof functions whose names begin with `law_`.
- `app/` is the server around it: sockets, HTTP, files, the clock, and the documents that are sent.
- `tests/` runs the library on concrete values.

Calls into other crates that only compute (MD5, base 64, form decoding, dates, QR codes, random
order, caching) stand in the library behind small functions whose contracts are taken on trust;
the comment above each says what it claims.

Numbers with a fraction stay outside the library: a gain, a playback rate or a replay gain is
carried as the bits of its float, and times are whole milliseconds.
