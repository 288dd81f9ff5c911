# panmesh

Reading and writing meshes in the VTK data model, with the mesh logic proved
correct by Verus.

A mesh holds points, blocks of cells that share a cell type, and named point,
cell and field data. Reading takes the first piece of an unstructured grid or
of poly data and groups its cells into blocks by type name; writing produces
one unstructured grid piece in the legacy cell layout.

## Layout

- `src/` — the verified library.
  - `model.rs`: the VTK data model (data sets, pieces, cell topology,
    attributes) with values of a generic scalar type, and its views.
  - `cell_types.rs`: the names of cell types and their inverse.
  - `topology.rs`: decoding legacy and offset-based cell lists, splitting
    triangle strips, reordering voxels and pixels.
  - `grouping.rs`: grouping labelled cells into blocks.
  - `assoc.rs`: named values kept as a list of entries with distinct names.
  - `mesh.rs`: meshes and cell blocks.
  - `read.rs`, `write.rs`: reading a mesh from a data set and writing one.
  - `round_trip.rs`: what reading the written data set gives back.
  - `text.rs`: string helpers.
- `tests/` — tests of the library on hand-built data sets.
- `app/` — the Python module: file import and export with `vtkio`, the
  conversion of stored numbers to `f64`, and the `pyo3` classes.
