# hexworld

The rules of a small turn-based hex strategy game, written in Verus and
proved against their contracts, with the windowed game around them.

- `src/` is the verified library.
  - `world`: the byte-packed `Tile`, packed `OffsetTile` positions, the
    world camera, cube/offset hexagon coordinates and distances, which world
    tile each screen hexagon shows (`draw_functions`), and world generation
    with `rand` (`generation`).
  - `entities`: units and their entity data, the `EntityHandler` that
    places, selects and moves units while keeping tile occupation in step,
    and which render-buffer slot each new unit takes (`entity_vertex_buffer`).
  - `improvements`, `player`: resources and per-player resource counters.
  - `input`: what a click on the map selects, highlights and moves.
  - `rendering`: fixed-width number text and default triangle indices.
- `tests/` runs the library on concrete cases.
- `app/` is the game itself: window and event loop (`winit`, `glium`),
  floating-point camera and hexagon layout (`glam`), textures (`image`) and
  the GPU buffers.
