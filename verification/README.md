# picast

The verified core of a media-casting receiver. It decides how a submitted URL
becomes something playable, what a playback session may do next, and what is
kept of both; proofs of these decisions are checked by Verus.

- `src/` is the library. `classifier`, `resolver` and `cache` take a URL from
  submission to result; `custom`, `media`, `voe`, `doodstream` and `youtube`
  read hosting sites; `deobfuscation` and `provider` do the same from
  configuration; `ytdlp` and `socks` speak to a subprocess and a proxy;
  `state_machine`, `session` and `manager` govern playback; `config` merges
  settings. `text`, `codec`, `json`, `links`, `markup`, `patterns` and `clock`
  are what these rest on.
- `app/` runs the library: network, subprocess, SQLite, files and signals.
- `tests/` exercises the library from outside.

Functions that depend on the clock or on random identifiers come in two forms:
one that takes the moment (`..._at`), with an exact contract, and one that asks
for it.
