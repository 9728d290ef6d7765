# wave-link-rpc

An unofficial, community-maintained Rust SDK for Wave Link's loopback RPC
interface, verified with Verus. It is not affiliated with or endorsed by Elgato
or Corsair.

It targets Wave Link interface revision 2. Unknown revisions are write-locked;
the legacy revision 1 is unsupported.

## Layout

- `src/` is the library. It decides everything and performs no I/O: validated
  values, the mixer model and its JSON forms, the JSON-RPC exchange, the
  compatibility gate, batches, fades, the connection lifecycle and the live
  validation. Verus proves its contracts.
- `src/json_codec.rs` holds the boundary to `serde_json`; what is believed of it
  is stated there.
- `app/` is the program around the library: the socket, the clock, the metadata
  file and the floating-point arithmetic of fades.
- `tests/` runs the library.

Levels are held as the bits of single-precision numbers, so that rounding can be
stated over the integers (`src/float_bits.rs`).

## Live validation

The program reads a snapshot and prints how many channels, mixes and devices it
found. With `WAVE_LINK_LIVE_MODE=bounded-write` it also changes the first channel
and the first mix, one property at a time, levels by a step of 0.02 in single
precision, and asks for every change and the fade to be undone at once, whether or
not they succeeded. Restoration is not transactional.
