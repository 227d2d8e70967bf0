# media_bridge

The media layer of a telephone exchange: it bridges WebRTC and RTP legs, plays and records audio,
mixes conferences, and maps codecs, payload types and telephone events from one leg to another.

- `src/` is the library: the rules of the media layer as Verus code with contracts. It holds packets
  and codecs as plain values, the forwarding loop, file playback, the egress track, the mixer, the
  session and the processor registry. Properties that span functions are public proof functions
  whose names begin with `law_`.
- `tests/` runs the library, with the codec and hashing crates it calls.
- `app/` performs what the library decides: sockets, files, tasks, clocks, websockets, the native
  Opus codec, and the filters that work on floating-point samples.

What the proofs rest on beside Verus stands in the functions and types marked as external: the
voice codecs and the resampler of `audio-codec`, the RTP writer of `rustrtc`, SHA-256 and hex, the
URL parser, and random numbers. Each says in its doc comment what is claimed of the call.
