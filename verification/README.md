# worldgen

Terrain generation in the style of a well known block game, verified with
Verus where the logic is integer arithmetic and kept as plain Rust where it is
floating point noise.

## Layout

- `src/` — the verified library.
  - `layer/lcg.rs`: the position-seeded generator `LayerLCG` (two's
    complement mixing, `next_int`, random choice).
  - `layer/`: the `GenLayer` trait and the layers that build a land mask:
    islands, zooming (majority or fuzzy), reducing open ocean, and layers
    made of functions. Each layer's output is specified cell by cell.
  - `rnd/`: `RngBuilder`, which mixes numbers into the seed of a
    `rand::XorShiftRng`.
  - `gen/unit.rs`: `GenUnit`, a two or three dimensional grid with its index
    arithmetic.
  - `generators/vanilla/`: chunk indexing, the land mask stack, the walk down
    each chunk column that lays bedrock and topsoil, and the integer parts of
    cave carving (scanning for water, clamping the carving box, carving a
    block).
- `tests/`: tests of the library on concrete values.
- `app/`: the floating point stages (simplex noise octaves, the height field,
  its interpolation, the biome map, cave paths) and the chunk pipeline that
  calls the library.
