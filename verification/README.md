# spotuify

The rules of a music daemon and its clients as a verified library: resource
identifiers, media and provider types, the playback clock, the queue, playlists,
sign-ins, analytics events and the doctor's report.

- `src/` is the library. Every function states what it returns over plain
  mathematical values, and Verus proves it. Laws that relate several functions
  are public proof functions, at the end of the module that they speak of.
- `tests/` runs the library on concrete values.
- `app/` is what stands around it: the formats on the wire, floating point, the
  traits of provider adapters, and the loops that talk to them.

The library calls a few functions of other crates (dates, SHA-256, URLs,
Base64). Each stands behind a small function whose comment says what is taken on
trust.
