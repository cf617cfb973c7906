# dlss5oneclick

Installs DLSS 5 neural rendering into a game, takes it out again, says from a
session's logs why it is or is not running, and bundles what a bug report needs.

- `src/` is the library: what an install decides, computes and writes, stated in
  contracts and proved with Verus. It touches neither the network nor the disk:
  it takes what was read as plain values and hands back what is to be written.
  Laws that span several functions are the proof functions named `law_*`.
  What is believed of code from outside stands in `src/outside.rs` and
  `src/archive.rs`.
- `tests/` runs the library with the real outside crates.
- `app/` is the program round it: downloads, files, the registry. The rest of a
  program supplies the trait `Host`.
