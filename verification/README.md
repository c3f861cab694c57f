# harletty

Decoding logic for immersive audio: TrueHD blocks, E-AC-3 with joint object
coding, DTS-HD with its extensions, and Auro-3D carriers, with the bridge that
feeds them from a host's packets and hands frames to a renderer.

`src/` is the library, written in Verus. Each function states what it returns
and what it changes, and each statement is proved but for what is believed of
outside code: four calls into `abi_stable`'s vector and the parsing of a level
by `log`, each behind a small function whose comment says what is claimed.

- `truehd`: bit reading, block headers, block data, timing, and the hand-over of
  blocks to the decoder.
- `eac3`: core frames and their channel extensions, the mixing parameters of
  objects, filter bank windows, the object decoder's history, and the pairing of
  access units.
- `auro`: speaker layouts and channel configurations.
- `bridge`: codec detection and routing, E-AC-3 presentations, DTS
  demultiplexing and frames, objects and their announcements, Auro carriers,
  labels and logging.

Samples are moved, never computed with, so most of `eac3` is generic over the
sample type. Gains are kept as quantizer steps. Readers of bitstream syntax and
the decoders behind them are handed in, with the history that they carry from
unit to unit.

`app/` is the ordinary Rust around the library: floating-point synthesis, the
decoder thread, configuration files, the logger, and the loops that drive the
library's state machines with the bitstream decoders of an embedding program.
