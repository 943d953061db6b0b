# lane_lunacy (verified core)

The deterministic, integer-valued decision logic of the Lane Lunacy
lane-racing game, written in Verus with its contracts proved.

Layout:

- `src/` — the verified library.
  - `shaders.rs`: SPIR-V word decoding and the post-composite flag bits.
  - `render/`: the world-chunk window plan and the sliding chunk cache that
    follows it (`frame_builder`), background
    chunk-builder books (`chunk_cache`), ray-tracing pool layout, chunk slots,
    repack and instance plans (`raytrace`), texture baking (`bake`, `cloud`,
    `flare`, `particles`), world-atlas packing (`scene`), bloom and reflection
    extents and scheduling (`post`, `reflection`), pipeline states, the headless
    driving script (`drive`), the swapchain recreate bookkeeping
    (`swapchain`), and the presenter's per-frame choices (post flags,
    capture, present mode, debug views) in `mod.rs`.
  - `surface.rs`, `world.rs`: surface materials, asphalt variants and the
    integer core of the roadside scenery rolls.
  - `ui/`: alignment vocabulary, hit results, the button press state machine
    and the UI engine handle.
- `tests/` — scenario and edge-case tests run against the compiled library.
- `app/` — ordinary Rust around the library: the single-precision texture
  shading, world placements in metres, UI geometry, and environment, clock and
  readback plumbing.

Floating-point shading and geometry stay in `app/`; the library bakes the
texel layouts around them and holds the integer decisions that can be parted
from the GPU, window and thread calls, which are not part of this crate.
