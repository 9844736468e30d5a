# lan-mouse

Shares one mouse, keyboard and clipboard between machines on a network. The library decides;
what it decides is stated in contracts and proved with Verus.

- `src/input_event.rs`: pointer, keyboard and clipboard events, their equality, and how they
  are shown. Doubles are held as their bit patterns.
- `src/proto.rs`: the datagrams. Decoding gives back what was encoded, whatever follows it;
  a clipboard data event without a valid byte is refused.
- `src/wire.rs`, `src/text.rs`: big-endian fields; decimal numbers, trimming, UTF-8.
- `src/libei/`: replaying events on a desktop, as state machines that take in what the desktop
  reported and say what to ask of it next. `clipboard.rs` handles the clipboard of a peer,
  `devices.rs` and `emulation.rs` input events and errors, `portal.rs` the conversation that
  asks for permission, `tasks.rs` the signals of the clipboard portal, and `token.rs` the file
  in which a permission is remembered.
- `app/`: carries out the requests with the desktop portal, libei and the file system.

What is trusted and not proved: `text::from_utf8`, which calls `String::from_utf8`.
