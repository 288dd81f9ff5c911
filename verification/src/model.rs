//! The VTK data model as the library reads and writes it.
//!
//! These types mirror the legacy VTK file model: a data set made of pieces,
//! each holding points, cell topology and attributes. Scalar values are of a
//! generic type `T`; the numeric conversions of stored buffers happen before a
//! value of this model is built.
use vstd::prelude::*;

verus! {

/// The kind of a cell in an unstructured grid.
///
/// The named variants are the linear and quadratic cells that meshes use;
/// every other VTK cell kind is carried as `Other` with its numeric VTK code.
#[derive(Clone, Copy, Debug, PartialEq, Eq, Structural)]
pub enum CellType {
    Vertex,
    PolyVertex,
    Line,
    PolyLine,
    Triangle,
    TriangleStrip,
    Polygon,
    Pixel,
    Quad,
    Tetra,
    Voxel,
    Hexahedron,
    Wedge,
    Pyramid,
    QuadraticEdge,
    QuadraticTriangle,
    QuadraticQuad,
    QuadraticTetra,
    QuadraticHexahedron,
    QuadraticWedge,
    QuadraticPyramid,
    Other(u8),
}

/// What an attribute's elements represent, and so how many components each has.
#[derive(Debug)]
pub enum ElementType {
    ColorScalars(u32),
    LookupTable,
    Scalars { num_comp: u32, lookup_table: Option<String> },
    Vectors,
    Normals,
    TCoords(u32),
    Tensors,
    Generic(u32),
}

impl ElementType {
    /// Number of components per element: colours and texture coordinates and
    /// generic elements carry their own count, a lookup table has four,
    /// vectors and normals three, tensors nine.
    pub fn num_comp(&self) -> (n: u32)
        ensures
            n == elem_num_comp(self@),
    {
        match self {
            ElementType::ColorScalars(n) => *n,
            ElementType::LookupTable => 4,
            ElementType::Scalars { num_comp, .. } => *num_comp,
            ElementType::Vectors => 3,
            ElementType::Normals => 3,
            ElementType::TCoords(n) => *n,
            ElementType::Tensors => 9,
            ElementType::Generic(n) => *n,
        }
    }
}

/// Point numbers of a sequence of cells.
///
/// `Legacy` lists each cell as its vertex count followed by its vertex numbers;
/// `Xml` lists all vertex numbers contiguously, with `offsets[k]` the end of
/// cell `k` in `connectivity`.
#[derive(Debug)]
pub enum VertexNumbers {
    Legacy { num_cells: u32, vertices: Vec<u32> },
    Xml { connectivity: Vec<u64>, offsets: Vec<u64> },
}

/// A named array whose elements are described by an element type.
#[derive(Debug)]
pub struct DataArray<T> {
    pub name: String,
    pub elem: ElementType,
    pub data: Vec<T>,
}

/// A named array of a field attribute, with its number of components.
#[derive(Debug)]
pub struct FieldArray<T> {
    pub name: String,
    pub elem: u32,
    pub data: Vec<T>,
}

/// A point or cell attribute: a single data array, or a named field of arrays.
#[derive(Debug)]
pub enum Attribute<T> {
    DataArray(DataArray<T>),
    Field { name: String, data_array: Vec<FieldArray<T>> },
}

/// The point attributes and the cell attributes of a piece.
#[derive(Debug)]
pub struct Attributes<T> {
    pub point: Vec<Attribute<T>>,
    pub cell: Vec<Attribute<T>>,
}

/// The cells of an unstructured grid: their point numbers and their kinds.
#[derive(Debug)]
pub struct Cells {
    pub cell_verts: VertexNumbers,
    pub types: Vec<CellType>,
}

/// A piece of an unstructured grid: flat point coordinates (x, y, z per point),
/// cells and attributes.
#[derive(Debug)]
pub struct UnstructuredGridPiece<T> {
    pub points: Vec<T>,
    pub cells: Cells,
    pub data: Attributes<T>,
}

/// A piece of poly data: flat point coordinates and up to four topologies.
#[derive(Debug)]
pub struct PolyDataPiece<T> {
    pub points: Vec<T>,
    pub verts: Option<VertexNumbers>,
    pub lines: Option<VertexNumbers>,
    pub polys: Option<VertexNumbers>,
    pub strips: Option<VertexNumbers>,
    pub data: Attributes<T>,
}

/// A piece of a data set.
///
/// `Source` refers to a piece stored in another file that was not loaded;
/// `Loaded` is a piece loaded from another file together with the outcome of
/// converting it to the data set's piece type (the error text on failure);
/// `Inline` is piece data stored in the file itself.
#[derive(Debug)]
pub enum Piece<P> {
    Source(String),
    Loaded(Result<P, String>),
    Inline(P),
}

/// The data set of a VTK file. Kinds that meshes are not read from are kept as
/// `Other`, with a textual description of their contents.
#[derive(Debug)]
pub enum DataSet<T> {
    UnstructuredGrid { pieces: Vec<Piece<UnstructuredGridPiece<T>>> },
    PolyData { pieces: Vec<Piece<PolyDataPiece<T>>> },
    Other { description: String },
}

/// A VTK file: format version (major, minor), title and data set.
#[derive(Debug)]
pub struct VtkFile<T> {
    pub version_major: u8,
    pub version_minor: u8,
    pub title: String,
    pub data: DataSet<T>,
}

/// The content of an element type.
pub enum ElementView {
    ColorScalars(u32),
    LookupTable,
    Scalars { num_comp: u32, lookup_table: Option<Seq<char>> },
    Vectors,
    Normals,
    TCoords(u32),
    Tensors,
    Generic(u32),
}

impl View for ElementType {
    type V = ElementView;

    open spec fn view(&self) -> ElementView {
        match *self {
            ElementType::ColorScalars(n) => ElementView::ColorScalars(n),
            ElementType::LookupTable => ElementView::LookupTable,
            ElementType::Scalars { num_comp, lookup_table } => ElementView::Scalars {
                num_comp,
                lookup_table: match lookup_table {
                    Some(t) => Some(t@),
                    None => None,
                },
            },
            ElementType::Vectors => ElementView::Vectors,
            ElementType::Normals => ElementView::Normals,
            ElementType::TCoords(n) => ElementView::TCoords(n),
            ElementType::Tensors => ElementView::Tensors,
            ElementType::Generic(n) => ElementView::Generic(n),
        }
    }
}

/// Number of components per element of an element type.
pub open spec fn elem_num_comp(et: ElementView) -> u32 {
    match et {
        ElementView::ColorScalars(n) => n,
        ElementView::LookupTable => 4,
        ElementView::Scalars { num_comp, .. } => num_comp,
        ElementView::Vectors => 3,
        ElementView::Normals => 3,
        ElementView::TCoords(n) => n,
        ElementView::Tensors => 9,
        ElementView::Generic(n) => n,
    }
}

/// The content of vertex numbers.
pub enum VertexNumbersView {
    Legacy { num_cells: u32, vertices: Seq<u32> },
    Xml { connectivity: Seq<u64>, offsets: Seq<u64> },
}

impl View for VertexNumbers {
    type V = VertexNumbersView;

    open spec fn view(&self) -> VertexNumbersView {
        match *self {
            VertexNumbers::Legacy { num_cells, vertices } => VertexNumbersView::Legacy {
                num_cells,
                vertices: vertices@,
            },
            VertexNumbers::Xml { connectivity, offsets } => VertexNumbersView::Xml {
                connectivity: connectivity@,
                offsets: offsets@,
            },
        }
    }
}

/// The content of an optional topology.
pub open spec fn optional_vertex_numbers(o: Option<VertexNumbers>) -> Option<VertexNumbersView> {
    match o {
        Some(v) => Some(v@),
        None => None,
    }
}

/// The content of an array of a field: its name, number of components and values.
pub type FieldArrayView<T> = (Seq<char>, u32, Seq<T>);

/// The content of an attribute.
pub enum AttributeView<T> {
    DataArray { name: Seq<char>, elem: ElementView, data: Seq<T> },
    Field { name: Seq<char>, data_array: Seq<FieldArrayView<T>> },
}

/// The content of an array of a field.
pub open spec fn field_array_view<T>(fa: FieldArray<T>) -> FieldArrayView<T> {
    (fa.name@, fa.elem, fa.data@)
}

impl<T> View for Attribute<T> {
    type V = AttributeView<T>;

    open spec fn view(&self) -> AttributeView<T> {
        match *self {
            Attribute::DataArray(da) => AttributeView::DataArray {
                name: da.name@,
                elem: da.elem@,
                data: da.data@,
            },
            Attribute::Field { name, data_array } => AttributeView::Field {
                name: name@,
                data_array: data_array@.map_values(|fa: FieldArray<T>| field_array_view(fa)),
            },
        }
    }
}

/// The contents of a list of attributes.
pub open spec fn attributes_view<T>(s: Seq<Attribute<T>>) -> Seq<AttributeView<T>> {
    s.map_values(|a: Attribute<T>| a@)
}

/// The content of point and cell attributes.
pub struct AttributesView<T> {
    pub point: Seq<AttributeView<T>>,
    pub cell: Seq<AttributeView<T>>,
}

impl<T> View for Attributes<T> {
    type V = AttributesView<T>;

    open spec fn view(&self) -> AttributesView<T> {
        AttributesView { point: attributes_view(self.point@), cell: attributes_view(self.cell@) }
    }
}

/// The content of an unstructured grid piece.
pub struct UnstructuredGridPieceView<T> {
    pub points: Seq<T>,
    pub cell_verts: VertexNumbersView,
    pub types: Seq<CellType>,
    pub data: AttributesView<T>,
}

impl<T> View for UnstructuredGridPiece<T> {
    type V = UnstructuredGridPieceView<T>;

    open spec fn view(&self) -> UnstructuredGridPieceView<T> {
        UnstructuredGridPieceView {
            points: self.points@,
            cell_verts: self.cells.cell_verts@,
            types: self.cells.types@,
            data: self.data@,
        }
    }
}

/// The content of a piece of poly data.
pub struct PolyDataPieceView<T> {
    pub points: Seq<T>,
    pub verts: Option<VertexNumbersView>,
    pub lines: Option<VertexNumbersView>,
    pub polys: Option<VertexNumbersView>,
    pub strips: Option<VertexNumbersView>,
    pub data: AttributesView<T>,
}

impl<T> View for PolyDataPiece<T> {
    type V = PolyDataPieceView<T>;

    open spec fn view(&self) -> PolyDataPieceView<T> {
        PolyDataPieceView {
            points: self.points@,
            verts: optional_vertex_numbers(self.verts),
            lines: optional_vertex_numbers(self.lines),
            polys: optional_vertex_numbers(self.polys),
            strips: optional_vertex_numbers(self.strips),
            data: self.data@,
        }
    }
}

/// The content of a piece.
pub enum PieceView<V> {
    Source(Seq<char>),
    Loaded(Result<V, Seq<char>>),
    Inline(V),
}

impl<P: View> View for Piece<P> {
    type V = PieceView<P::V>;

    open spec fn view(&self) -> PieceView<P::V> {
        match *self {
            Piece::Source(s) => PieceView::Source(s@),
            Piece::Loaded(Ok(p)) => PieceView::Loaded(Ok(p@)),
            Piece::Loaded(Err(e)) => PieceView::Loaded(Err(e@)),
            Piece::Inline(p) => PieceView::Inline(p@),
        }
    }
}

/// The contents of a list of pieces.
pub open spec fn pieces_view<P: View>(s: Seq<Piece<P>>) -> Seq<PieceView<P::V>> {
    s.map_values(|p: Piece<P>| p@)
}

/// The content of a data set.
pub enum DataSetView<T> {
    UnstructuredGrid { pieces: Seq<PieceView<UnstructuredGridPieceView<T>>> },
    PolyData { pieces: Seq<PieceView<PolyDataPieceView<T>>> },
    Other { description: Seq<char> },
}

impl<T> View for DataSet<T> {
    type V = DataSetView<T>;

    open spec fn view(&self) -> DataSetView<T> {
        match *self {
            DataSet::UnstructuredGrid { pieces } => DataSetView::UnstructuredGrid {
                pieces: pieces_view(pieces@),
            },
            DataSet::PolyData { pieces } => DataSetView::PolyData { pieces: pieces_view(pieces@) },
            DataSet::Other { description } => DataSetView::Other { description: description@ },
        }
    }
}

/// The content of a VTK file.
pub struct VtkFileView<T> {
    pub version_major: u8,
    pub version_minor: u8,
    pub title: Seq<char>,
    pub data: DataSetView<T>,
}

impl<T> View for VtkFile<T> {
    type V = VtkFileView<T>;

    open spec fn view(&self) -> VtkFileView<T> {
        VtkFileView {
            version_major: self.version_major,
            version_minor: self.version_minor,
            title: self.title@,
            data: self.data@,
        }
    }
}

} // verus!
