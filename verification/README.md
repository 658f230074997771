# ochd

A generator for a Minecraft texture pack, written in Verus. Each texture is described as a
tree of image tasks (SVG images painted, stacked, made semitransparent, animated and
upscaled); the library builds those trees for the materials, simplifies them, predicts which
colors each image can hold, picks the smallest PNG storage that keeps those colors, and
encodes the pixels.

Layout:

- `src/` — the verified library.
  - `color*.rs`, `make_semitransparent.rs`: colors, their order, sorted color sets, alpha
    arithmetic, and descriptions of the colors an image may hold.
  - `task_*.rs`, `stack*.rs`: the task trees, their order and text form, and the
    simplifications applied when layers are stacked.
  - `raster.rs`, `compose.rs`: pixel operations on masks and images.
  - `png_mode.rs`, `png_encode.rs`, `bit_pack.rs`, `png_output.rs`: storage choice, pixel
    encoding, bit packing and the call into the PNG optimizer.
  - `texture.rs`, `items.rs`, `crops.rs`, `command_blocks.rs`, `ores.rs`, `blocks.rs`,
    `wood.rs`: the materials and their output files.
- `tests/` — tests run against the compiled library.
- `app/` — the program: it renders SVG images, runs the task graph with caching, and writes
  the ZIP file.
