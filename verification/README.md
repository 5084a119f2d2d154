# soundsync

A Bluetooth A2DP receiver with a web UI, a 10-band EQ, and AirPlay,
Chromecast and WebRTC outputs.

- `src/` is the verified library (Verus): A2DP codec negotiation, device
  classification and the device state machine, the device registry, the
  adapter manager's scan state machine and poll decisions, AVRCP tracking,
  the parsers for `pactl`, `pw-cli`, `pw-dump`, `wpctl`, `avahi-browse` and
  `hcitool` output, the AirPlay and Chromecast device directories, the
  WebSocket event routing, the RTP clock of the WebRTC stream, preset names
  and configuration merging. `src/text.rs` holds the string model
  (trimming, splitting, searching, number parsing) the parsers are proved
  against.
- `app/` is the service around it: D-Bus, subprocesses, HTTP/WebSocket,
  audio encoding and the floating-point DSP.
- `tests/` runs the library on concrete inputs.

The device registry and the AirPlay and Chromecast directories keep their
entries in a `Vec` with the invariant that no key (address, name, id) occurs
twice, rather than in a `HashMap<String, _>`: with `String` keys Verus's
specification of `HashMap` does not let a lookup after an insert be proved,
so the directories' contracts (what a lookup gives back after an insert,
that other entries stay) could not be stated over a map keyed that way.
