# mesh

Turns a small language of signed distance fields into a triangle mesh.

A scene is written as a program (`example.sdf`): top-level `let` bindings,
`def` functions and a `return` of a distance field built from primitives
(`sphere`, `box`, `torus`, ...), transforms, boolean and smooth boolean
operations and vector math. The program is parsed, checked and turned into a
field, the field is meshed with adaptive marching cubes over an octree, and
the mesh is simplified and written as STL.

## Layout

- `src/` is the verified library (Verus):
  - `sdf/lexer.rs`, `sdf/parser.rs`: the grammar as spec functions over
    tokens, and a tokenizer and recursive-descent parser proved to follow
    it.
  - `sdf/ast.rs`: the syntax tree and its mathematical model.
  - `sdf/eval.rs`: the meaning of a program as a scene plan, each step an
    operation on earlier steps with the kind of its value, and the evaluator
    that builds it; errors are those of the language.
  - `sdf/laws.rs`: what holds of every program: the outcome does not depend
    on the evaluation budget, plans are well typed, resolved built-ins fit
    their arguments, number literals are numerals.
  - `marching_cubes/table.rs`: cell patterns, the triangle table and the
    proof that every triangle lies on edges where the field changes sign,
    and that every such edge is used.
  - `marching_cubes/refine.rs`: the octree search, level by level: which
    cells are dropped, kept or split, and the shape of each level.
- `app/` is the program around it: reading the scene, running a plan in
  floating point, sampling the field, placing vertices, optimising the mesh
  (meshopt) and writing files (stl_io).
- `tests/` runs the library on concrete inputs.
