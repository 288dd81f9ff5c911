//! Meshes: points, blocks of cells of one type, and named point, cell and
//! field data.
use crate::assoc::{entries_view, keys_distinct};
use crate::text::{decimal_text, usize_text};
use vstd::prelude::*;

verus! {

broadcast use vstd::string::group_string_axioms;

/// A block of cells of the same type: the type's name and the point numbers
/// of each cell.
#[derive(Debug)]
pub struct CellBlock {
    pub cell_type: String,
    pub data: Vec<Vec<usize>>,
}

/// A mesh with coordinates of type `T`: its points, its cell blocks, and named
/// data per point, per cell (one array per block) and for the whole mesh.
#[derive(Debug)]
pub struct Mesh<T> {
    pub points: Vec<[T; 3]>,
    pub cells: Vec<CellBlock>,
    pub point_data: Vec<(String, Vec<T>)>,
    pub cell_data: Vec<(String, Vec<Vec<T>>)>,
    pub field_data: Vec<(String, Vec<T>)>,
}

/// The mathematical content of a mesh.
pub struct MeshView<T> {
    pub points: Seq<[T; 3]>,
    pub cells: Seq<(Seq<char>, Seq<Seq<usize>>)>,
    pub point_data: Seq<(Seq<char>, Seq<T>)>,
    pub cell_data: Seq<(Seq<char>, Seq<Seq<T>>)>,
    pub field_data: Seq<(Seq<char>, Seq<T>)>,
}

/// The name and cells of a block.
pub open spec fn block_view(b: CellBlock) -> (Seq<char>, Seq<Seq<usize>>) {
    (b.cell_type@, b.data.deep_view())
}

/// The names and cells of blocks.
pub open spec fn blocks_view(s: Seq<CellBlock>) -> Seq<(Seq<char>, Seq<Seq<usize>>)> {
    s.map_values(|b: CellBlock| block_view(b))
}

/// The contents of an array.
pub open spec fn vec_view_fn<T>() -> spec_fn(Vec<T>) -> Seq<T> {
    |v: Vec<T>| v@
}

/// The contents of arrays of arrays.
pub open spec fn nested_view<T>(s: Seq<Vec<T>>) -> Seq<Seq<T>> {
    s.map_values(|v: Vec<T>| v@)
}

/// The contents of an array of arrays.
pub open spec fn nested_view_fn<T>() -> spec_fn(Vec<Vec<T>>) -> Seq<Seq<T>> {
    |v: Vec<Vec<T>>| nested_view(v@)
}

/// The names and values of named arrays.
pub open spec fn arrays_view<T>(s: Seq<(String, Vec<T>)>) -> Seq<(Seq<char>, Seq<T>)> {
    entries_view(s, vec_view_fn::<T>())
}

/// The names and values of named arrays of per-block arrays.
pub open spec fn block_arrays_view<T>(s: Seq<(String, Vec<Vec<T>>)>) -> Seq<
    (Seq<char>, Seq<Seq<T>>),
> {
    entries_view(s, nested_view_fn::<T>())
}

impl<T> View for Mesh<T> {
    type V = MeshView<T>;

    open spec fn view(&self) -> MeshView<T> {
        MeshView {
            points: self.points@,
            cells: blocks_view(self.cells@),
            point_data: arrays_view(self.point_data@),
            cell_data: block_arrays_view(self.cell_data@),
            field_data: arrays_view(self.field_data@),
        }
    }
}

/// The names of point data, of cell data and of field data each occur once,
/// as in a map from names to values.
pub open spec fn data_names_distinct<T>(m: MeshView<T>) -> bool {
    &&& keys_distinct(m.point_data)
    &&& keys_distinct(m.cell_data)
    &&& keys_distinct(m.field_data)
}

impl<T> Mesh<T> {
    /// A mesh is well formed when each of its data names every array once.
    pub open spec fn wf(&self) -> bool {
        data_names_distinct(self@)
    }

    /// A mesh from its points and cells; absent data is empty.
    pub fn new(
        points: Vec<[T; 3]>,
        cells: Vec<CellBlock>,
        point_data: Option<Vec<(String, Vec<T>)>>,
        cell_data: Option<Vec<(String, Vec<Vec<T>>)>>,
        field_data: Option<Vec<(String, Vec<T>)>>,
    ) -> (m: Self)
        requires
            point_data matches Some(d) ==> keys_distinct(arrays_view(d@)),
            cell_data matches Some(d) ==> keys_distinct(block_arrays_view(d@)),
            field_data matches Some(d) ==> keys_distinct(arrays_view(d@)),
        ensures
            m.wf(),
            m.points == points,
            m.cells == cells,
            m.point_data@ == (match point_data {
                Some(d) => d@,
                None => seq![],
            }),
            m.cell_data@ == (match cell_data {
                Some(d) => d@,
                None => seq![],
            }),
            m.field_data@ == (match field_data {
                Some(d) => d@,
                None => seq![],
            }),
    {
        Mesh {
            points,
            cells,
            point_data: match point_data {
                Some(d) => d,
                None => Vec::new(),
            },
            cell_data: match cell_data {
                Some(d) => d,
                None => Vec::new(),
            },
            field_data: match field_data {
                Some(d) => d,
                None => Vec::new(),
            },
        }
    }

    /// A short description: the numbers of points and of cell blocks.
    pub fn __repr__(&self) -> (r: String)
        ensures
            r@ == "Mesh(points="@ + decimal_text(self.points@.len()) + ", cells="@
                + decimal_text(self.cells@.len()) + ")"@,
    {
        let mut r = String::from_str("Mesh(points=");
        let n_points = usize_text(self.points.len());
        r.append(n_points.as_str());
        r.append(", cells=");
        let n_blocks = usize_text(self.cells.len());
        r.append(n_blocks.as_str());
        r.append(")");
        r
    }
}

impl CellBlock {
    /// A block of cells of the named type.
    pub fn new(cell_type: String, data: Vec<Vec<usize>>) -> (b: Self)
        ensures
            b.cell_type == cell_type,
            b.data == data,
    {
        CellBlock { cell_type, data }
    }

    /// A short description: the type's name and the number of cells.
    pub fn __repr__(&self) -> (r: String)
        ensures
            r@ == "CellBlock(type="@ + self.cell_type@ + ", n_cells="@ + decimal_text(
                self.data@.len(),
            ) + ")"@,
    {
        let mut r = String::from_str("CellBlock(type=");
        r.append(self.cell_type.as_str());
        r.append(", n_cells=");
        let n_cells = usize_text(self.data.len());
        r.append(n_cells.as_str());
        r.append(")");
        r
    }
}

} // verus!
