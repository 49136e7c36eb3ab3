# gjk

A collision-distance library built around the Nesterov-accelerated GJK algorithm.

The library (`src/`, verified with Verus) holds everything of the algorithm that is not
floating-point arithmetic:

- `simplex` – a simplex of at most four vertices in fixed slots, with the moves that
  reduce it to the part closest to the origin.
- `regions` – the decision trees that pick the part of a segment, triangle or
  tetrahedron closest to the origin from the outcomes of the comparisons, and the
  reductions of the simplex that follow; with their laws.
- `control` – the control flow of one distance query as a state machine: the caller
  reports comparison outcomes and support points, the controller answers with the next
  step, keeps the simplex and says when and why the query ends; with its laws
  (the simplex never overflows, acceleration never resumes, every query ends).
- `text` – white space, decimal indices and floating-point literals as the standard
  library reads them.
- `obj` – the reader of OBJ mesh text (vertex and face lines).
- `collider` – the kinds of colliders and their names.

`app/` holds what needs floating point, `glam`, `serde_json` or `rand`: the colliders and
their support mappings, the vector arithmetic of the query that drives the controller,
and the loading of test files.
