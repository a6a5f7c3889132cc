# pin-project

Safe pin projections: the expansion logic of the `#[pin_project]` family of
procedural macros, verified with Verus.

- `src/` is the library. It works on plain values: the syntax the macros
  read (`model`, `tokens`, and the shapes declared next to each expansion)
  and the text they write. Every function there carries a contract, and
  `laws` holds the properties that span several of them.
- `app/` reads tokens with `syn`, hands the library those plain values, and
  turns its answers back into tokens; it also holds the runtime traits that
  need `unsafe`.
- `tests/` runs the library on concrete inputs.

Modules of `src/`:

| module | what it decides |
| --- | --- |
| `args` | the arguments of `#[pin_project(..)]` and of the `#[pin(..)]` handed to the derive |
| `attribute` | `#[pin_project]`: checks the item, marks it for the derive, writes the `Drop` impl |
| `derive` | the projected types, projection methods, `Unpin` impl, `Drop` guard, packed check |
| `project_fields` | the projection of each field |
| `pinned_drop` | `#[pinned_drop]`: the checks of the impl block and of its `drop` method |
| `project`, `project_fn`, `project_items` | `#[project]`, `#[project_ref]`, `#[project_replace]` |
| `pin_projectable`, `unsafe_project`, `project_stmt`, `project_args` | `#[pin_projectable]`, `pin_project! { .. }`, `#[unsafe_project]`, `#[unsafe_fields]`, `#[unsafe_variants]`, the statement form of `#[project]`, `#[pin_project(a, ..)]` on functions |
| `names`, `generics`, `attrs`, `tokens`, `text`, `validate` | names, parameter lists, attributes, token streams, text |
