# horn_shunck_rs

Optical flow by the Horn-Schunck energy functional: Gauss-Seidel (plain and
pyramidal) and gradient descent (L1 and L2 norms), for whole videos from
Python, and a live camera display that computes the flow on the GPU.

Layout:

- `src/` — the verified library: the row-major `Grid`, pixel neighbourhoods
  (`stencil`), resolution changes by three (`scale`), resolution pyramids
  (`pyramid`), frame pairing (`video`), camera frames and their upload checks
  (`camera`), and the decisions of the live display (`display`).
- `app/` — the Python module, the solvers' floating-point arithmetic, the
  camera thread and the GPU/window code, all calling the library for indices,
  shapes, pairings and display decisions. The GPU program needs a WGSL source
  with the `vertex_main`, `fragment_main` and `compute_main` entry points,
  handed to `Application::new`.
- `tests/` — tests of the library on concrete values.

Why `Grid` and not `ndarray::Array2`: the images and fields of this project
are arrays of `f64`. Keeping `ndarray` behind trusted declarations would need a
name for an array's contents, and such a name can be neither generic over the
element type nor speak of floating-point values. The library therefore keeps
its own row-major `Grid<T>`, generic over the element type, whose contents
Verus sees; `app/` converts between NumPy/`ndarray` arrays and grids at the
Python boundary.
