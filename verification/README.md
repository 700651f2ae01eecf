# audio_chain

A PCM effects chain (delay, reverb, compressor, clippers, gain, fade) that
reads a WAV file, runs it through the chain and writes the result followed by
a tail of silence fed through the effects.

- `src/` is the verified library: sample ranges of a bit depth, peak
  detection, the delay and reverb lines (fixed-length FIFOs, generic over the
  sample type), the routing of per-channel parameter requests, the frame
  position of an interleaved stream, and the schedule of the rendered tail.
- `app/` is the program around it: WAV input and output through `hound`, and
  the floating-point effects themselves.
- `tests/` exercises the library.
