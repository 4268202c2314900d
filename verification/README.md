# PlayOnAir

Chromecast devices as AirPlay 2 speakers on the local network: discover Cast devices,
advertise each as an AirPlay receiver, and bridge its audio to the matching Chromecast
as a lossless stream.

- `src/` is the library: the rules, parsers, state machines and encoders, with
  contracts that Verus proves. It does no I/O. Time is passed in as nanoseconds, and
  what the system found out (interfaces, looked-up names, answers of a device) comes in
  as plain values.
- `app/` is the program around it: sockets, mDNS, the media HTTP server, the Cast
  client and the AirPlay stack. It performs what the library decides and reports back.
- `tests/` run the library from outside.

| Module | Subject |
| --- | --- |
| `audio` | PCM ring, WAV and FLAC encoding |
| `media` | live bodies, pacing, answers to GET and HEAD, the laws of the way from ring to body |
| `cast` | media requests, ownership policy, the worker behind each control connection |
| `bridge` | session start, pause, re-LOAD and teardown |
| `airplay` | receiver identity, pause detection, advertised receivers |
| `discover` | `dns-sd` and avahi output, TXT records, mDNS events |
| `registry` | known devices and their leaves |
| `net` | local address ranking, connect sources, relay, socket kicks |
| `config`, `names` | optional renames and hides |
| `app` | maintenance, restarts, order of startup and shutdown |
| `text`, `table`, `clock`, `error` | shared ground |

Four outside things are trusted, each behind a declared contract: the FLAC encoder
(`flacenc`), the standard hasher's hash of a string, `String::push` and
`str::to_lowercase`.
