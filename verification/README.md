# rustfest

A vector-graphics viewer: it loads an SVG document, tessellates its paths and
draws them on the GPU, with keyboard zoom, scroll and display switches.

- `src/` is the verified library (Verus):
  - `paint.rs`: the colour a fill or stroke paint is drawn with;
  - `scene.rs`: the scene, the layer (z-index) of every fill and stroke when a
    document is loaded, and the render plan (primitives and tessellations);
  - `layering.rs`: laws that tie the layers of a loaded document to the plan;
  - `input.rs`: what each window event asks of the viewer, and the display
    switches.
- `app/` is the program around it: SVG parsing (resvg), path conversion and
  tessellation (lyon), the window (glutin) and the GPU (gfx), and every
  floating-point computation.
- `tests/` runs the library on concrete scenes and event sequences.
