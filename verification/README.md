# cellular_automata

Cellular automata on square grids of `i32` cell states, held in
`array2d::Array2D<i32>`: Conway's Game of Life, Life without Death, Seeds
and Brian's Brain. The library is verified with Verus.

- `src/grid.rs`: the grid type, the name `grid_rows` for what a grid holds,
  and the trusted wrappers of `Array2D::filled_with`, `get` and `set`.
- `src/common.rs`: the live-neighbour count, the random starting grid
  (drawn samples turned into cells by `grid_from_samples`), the console glyph
  of a cell.
- `src/generation.rs`: the per-cell rules, births and deaths, and the
  verified generation loop shared by all rulesets.
- `src/counting.rs`: sums over the square of cells and their lemmas.
- `src/rulesets/`: one public generation function per ruleset with the laws
  it keeps (stability, population balance, state cycles), and the Brian's
  Brain starting grid.
- `src/symmetry.rs`: a generation commutes with transposing and mirroring
  a square grid.
- `src/render.rs`: which tile the renderer draws for a cell.
- `app/`: the program: a simulation thread, the console output, the float
  scaling of the Brian's Brain start, and the winit/vello window.
