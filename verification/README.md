# moq_video

Hardware video for a live broadcast, with the decisions verified by
[Verus](https://github.com/verus-lang/verus).

The drivers this talks to answer in their own way: a V4L2 codec picks its own raw
layout, holds frames for as long as it likes, and may refuse half of what it is
asked. The library decides what to do next whatever they answer, and never touches
a device itself. It asks for one step at a time and is told what came of it, so
what it does is a function of what it was told, and that function is what its
contracts state.

- `src/` is the library.
  - `v4l2` is what both codec backends share: formats, plane layout, copying
    pictures in and out of mapped buffers, buffer pools, and finding a node.
  - `encode` and `decode` are the H.264 encoder and decoder on top of it, and the
    Android MediaCodec decoder.
  - `capture` chooses PipeWire cameras, and `render` imports DMA-BUFs.
  - Properties that span functions are the proof functions named `law_*`.
- `tests/` runs the library against scripted drivers.
- `app/` performs the steps: ioctls, PipeWire, the NDK, and wgpu. The V4L2,
  PipeWire, and Android parts are behind the `v4l2` and `pipewire` features and the
  Android target, since each needs its platform to build.
