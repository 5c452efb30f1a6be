# fractol

A Mandelbrot explorer whose decision logic is verified with Verus.

- `src/progressive.rs`: the interlaced row schedule of a render (seven passes
  in three stages) and the cursor that walks it; proofs that every stage draws
  every row exactly once and that the last stage draws the rows top to bottom.
- `src/canvas.rs`: the RGBA8 buffer a render fills row by row; read-after-write
  proof.
- `src/app.rs`: the explorer's per-frame state machine (window and preview
  sizes, preview/HQ switching, iteration count, palette selection, screenshot
  requests, render jobs), with its invariant and laws.
- `src/screenshot.rs`: screenshot file names.
- `app/`: the macroquad window, input, floating-point geometry and colouring,
  and the rayon workers; it performs what the library decides.
