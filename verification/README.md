# haki-dl

A downloader for HLS, DASH and Smooth Streaming presentations, written in Verus: the library under
`src/` states in contracts what it does, and Verus proves it.

- `src/` holds everything that is decided or computed: the command line, manifests and playlists,
  keys and decryption, byte ranges, retries, live refreshes, merging and muxing plans, messages,
  metadata and what a terminal shows. What is done elsewhere (files, the network, the clock of a
  terminal) is asked for by values: a task such as `StreamTask`, `SegmentTask`, `KeyLoad` or
  `PlaylistFetch` says what to do next and takes what came of it.
- `src/outside.rs`, `src/xml.rs` and `src/datetime.rs` hold the calls into other crates that the
  library believes: ciphers, digests, decompression, regular expressions, URLs, XML and the clock.
- `app/` is the program around the library: arguments, files, requests, the terminal, and floating
  point numbers.
- `tests/` runs the library on examples.

Every public proof function whose name begins with `law_` states something that holds of several
functions together, such as that a round trip gives back what went in, or that nothing is fetched
twice.
