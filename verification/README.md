# cenote

The scene core of a path tracer, verified with Verus: scene descriptions and the
edits that change them, what an edit leaves to rebuild, and everything between a
description and the tables that a device renders from.

## Layout

`src/` is the library. Every function in it has a contract, which Verus proves of
all but those named at the end.

| Modules | What they hold |
|---|---|
| `bits`, `value`, `text`, `path`, `table` | Numbers by their bits, equality and copies, decimal text, file paths, ordered tables |
| `description`, `changeset`, `validate`, `error` | Objects, edits, the rules that a scene keeps, and the words for breaking them |
| `laws`, `replay`, `coverage` | What holds of edits as a whole |
| `texture`, `texels`, `dds`, `codec` | Texture preparation, and its cache |
| `curves`, `mesh`, `geometry`, `shapes`, `surface` | Curves to tubes, meshes, solids, and that solids have no gaps |
| `formula`, `material`, `media`, `lower` | Objects as the renderer holds them |
| `host`, `prep`, `scene`, `buffers`, `rounds` | Rounds of work: what is read, what becomes resident, the tables; and that updates land where fresh builds do |
| `demo`, `many_lights` | The scenes that are built in |
| `stats`, `runs` | Measurements, and what holds of a whole run of them |
| `shaders`, `tables` | Kernels, the closure's tables |

`app/` is ordinary Rust around it: floating point, files, clocks, the shader
compiler and the text formats. `tests/` runs the library.

## Numbers

The library holds a floating-point number by its bits, and compares and clamps it
as such. What has to be computed from numbers it asks for: `formula::Formula` says
what, and the caller answers. The proofs hold for every arithmetic that answers
the same question the same way.

## What is trusted

`codec` calls the image decoders and the block compressors, `buffers` reads words
as bytes, and `value` shares a reference count. Each such function says what it
claims of the function that it calls.
