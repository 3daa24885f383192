# rust_player

A media player whose decisions and data handling are written in Verus and
proved against their contracts: MP4 sample tables and keyframe seeking, H.264,
H.265 and AV1 bitstream framing, I420 frame packing, the audio ring buffer and
playback clock, audio/video synchronisation, SRT subtitles, HLS playlists,
command-line parsing, the player's state machine and the interface strings.

## Layout

- `src/` is the verified library. Each module states its model with spec
  functions and views; public proof functions named `law_*` state the
  properties that span several calls (ring buffer order, clock behaviour,
  subtitle ordering, seek results, bitstream round trips, and so on).
- `tests/` runs the library on concrete inputs.
- `app/` is the program around it: windowing and rendering, audio output,
  network downloads, the decoder threads and the calls into C decoders. It
  makes the outside calls and hands plain values to the library, which
  decides what happens next.

## Trusted assumptions

Verus proves the library against the contracts of a few calls into other
code, which it takes on trust:

- `std::string::String::push` appends one character (`text::push_char`).
- `std::io::Error` is carried through as an opaque value.
- From `rust_h265`: `Decoder::new` builds a decoder; `parse_annex_b` splits
  an Annex B stream into a number of NAL units that depends on the bytes
  alone; `Decoder::decode_nal` and `Decoder::flush` are called with nothing
  claimed of what they return.
- Nothing shows that `rust_h265`'s `Decoder::decode_nal` and `Decoder::flush`
  never panic on malformed input (the crate is fuzzed, and its changelog
  lists panics fixed in the past). `H265Decoder::decode` and
  `H265Decoder::flush` do not panic only as far as that holds.
