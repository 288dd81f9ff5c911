//! Writing a mesh as a VTK unstructured grid.
use crate::cell_types::{cell_type_of_name, string_to_cell_type};
use crate::mesh::{Mesh, MeshView, nested_view};
use crate::model::{
    attributes_view, Attribute, AttributeView, Attributes, CellType, Cells, DataArray, DataSet,
    DataSetView, ElementType, ElementView, FieldArray, Piece, PieceView, UnstructuredGridPiece,
    UnstructuredGridPieceView, VertexNumbers, VertexNumbersView, VtkFile, VtkFileView,
};
use crate::read::copy_vec;
use crate::text::join_text;
use vstd::prelude::*;

verus! {

broadcast use vstd::string::group_string_axioms;

/// The cells of blocks, block after block.
pub open spec fn block_cells(blocks: Seq<(Seq<char>, Seq<Seq<usize>>)>) -> Seq<Seq<usize>>
    decreases blocks.len(),
{
    if blocks.len() == 0 {
        seq![]
    } else {
        block_cells(blocks.drop_last()) + blocks.last().1
    }
}

/// The VTK cell type of each cell of blocks: the type named by its block.
pub open spec fn block_types(blocks: Seq<(Seq<char>, Seq<Seq<usize>>)>) -> Seq<CellType>
    decreases blocks.len(),
{
    if blocks.len() == 0 {
        seq![]
    } else {
        block_types(blocks.drop_last()) + Seq::new(
            blocks.last().1.len(),
            |i: int| cell_type_of_name(blocks.last().0).unwrap(),
        )
    }
}

/// The name of the first block whose name is not a cell type name, if any.
pub open spec fn first_unknown(blocks: Seq<(Seq<char>, Seq<Seq<usize>>)>) -> Option<Seq<char>>
    decreases blocks.len(),
{
    if blocks.len() == 0 {
        None
    } else {
        let p = first_unknown(blocks.drop_last());
        if p is Some {
            p
        } else if cell_type_of_name(blocks.last().0) is None {
            Some(blocks.last().0)
        } else {
            None
        }
    }
}

/// One cell in the legacy layout: its point count, then its point numbers,
/// each as a 32-bit number.
pub open spec fn legacy_cell(cell: Seq<usize>) -> Seq<u32> {
    seq![cell.len() as u32] + cell.map_values(|v: usize| v as u32)
}

/// Cells in the legacy layout, one after the other.
pub open spec fn legacy_encode(cells: Seq<Seq<usize>>) -> Seq<u32>
    decreases cells.len(),
{
    if cells.len() == 0 {
        seq![]
    } else {
        legacy_encode(cells.drop_last()) + legacy_cell(cells.last())
    }
}

/// The coordinates of points, point after point.
pub open spec fn flat_points<T>(points: Seq<[T; 3]>) -> Seq<T> {
    Seq::new(3 * points.len(), |i: int| points[i / 3][i % 3])
}

/// The element type written for `nc` components: scalars with the default
/// lookup table.
pub open spec fn scalars_elem(nc: u32) -> ElementView {
    ElementView::Scalars { num_comp: nc, lookup_table: Some("default"@) }
}

/// Components per element of `len` values over `count` elements: the whole
/// quotient, at least one, truncated to 32 bits; one when there are no elements.
pub open spec fn components_per_element(len: nat, count: nat) -> u32 {
    if count == 0 {
        1
    } else {
        let v = len / count;
        (if v > 1 {
            v
        } else {
            1
        }) as u32
    }
}

/// The point attributes written for point data over `num_points` points.
pub open spec fn point_attribute_views<T>(data: Seq<(Seq<char>, Seq<T>)>, num_points: nat) -> Seq<
    AttributeView<T>,
> {
    data.map_values(
        |e: (Seq<char>, Seq<T>)|
            AttributeView::DataArray {
                name: e.0,
                elem: scalars_elem(components_per_element(e.1.len(), num_points)),
                data: e.1,
            },
    )
}

/// The values of all blocks, block after block.
pub open spec fn flatten_blocks<T>(per_block: Seq<Seq<T>>) -> Seq<T>
    decreases per_block.len(),
{
    if per_block.len() == 0 {
        seq![]
    } else {
        flatten_blocks(per_block.drop_last()) + per_block.last()
    }
}

/// The cell attributes written for cell data over `num_cells` cells: the
/// values of all blocks in one array.
pub open spec fn cell_attribute_views<T>(
    data: Seq<(Seq<char>, Seq<Seq<T>>)>,
    num_cells: nat,
) -> Seq<AttributeView<T>> {
    data.map_values(
        |e: (Seq<char>, Seq<Seq<T>>)|
            AttributeView::DataArray {
                name: e.0,
                elem: scalars_elem(components_per_element(flatten_blocks(e.1).len(), num_cells)),
                data: flatten_blocks(e.1),
            },
    )
}

/// The name of the field that carries field data.
pub open spec fn field_name() -> Seq<char> {
    "panmesh_field"@
}

/// The attributes written for field data: none when there is none, otherwise
/// one field holding every array with one component per element.
pub open spec fn field_attribute_views<T>(data: Seq<(Seq<char>, Seq<T>)>) -> Seq<AttributeView<T>> {
    if data.len() == 0 {
        seq![]
    } else {
        seq![
            AttributeView::Field {
                name: field_name(),
                data_array: data.map_values(|e: (Seq<char>, Seq<T>)| (e.0, 1u32, e.1)),
            },
        ]
    }
}

/// The unstructured grid piece written for a mesh.
pub open spec fn written_piece<T>(m: MeshView<T>) -> UnstructuredGridPieceView<T> {
    let cells = block_cells(m.cells);
    UnstructuredGridPieceView {
        points: flat_points(m.points),
        cell_verts: VertexNumbersView::Legacy {
            num_cells: cells.len() as u32,
            vertices: legacy_encode(cells),
        },
        types: block_types(m.cells),
        data: crate::model::AttributesView {
            point: point_attribute_views(m.point_data, m.points.len()) + field_attribute_views(
                m.field_data,
            ),
            cell: cell_attribute_views(m.cell_data, cells.len()),
        },
    }
}

/// What writing a mesh gives: an error naming the first block whose type name
/// is unknown, otherwise a file of version 4.2 titled `panmesh` holding one
/// inline unstructured grid piece.
pub open spec fn write_vtk_result<T>(m: MeshView<T>) -> Result<VtkFileView<T>, Seq<char>> {
    match first_unknown(m.cells) {
        Some(name) => Err("Unknown cell type: "@ + name),
        None => Ok(
            VtkFileView {
                version_major: 4,
                version_minor: 2,
                title: "panmesh"@,
                data: DataSetView::UnstructuredGrid { pieces: seq![PieceView::Inline(written_piece(m))] },
            },
        ),
    }
}

/// The content of a write result.
pub open spec fn write_result_view<T>(r: Result<VtkFile<T>, String>) -> Result<
    VtkFileView<T>,
    Seq<char>,
> {
    match r {
        Ok(f) => Ok(f@),
        Err(e) => Err(e@),
    }
}

/// The coordinates of points, point after point.
fn flatten_points<T: Copy>(points: &Vec<[T; 3]>) -> (flat: Vec<T>)
    ensures
        flat@ == flat_points(points@),
{
    let mut flat: Vec<T> = Vec::new();
    let mut k: usize = 0;
    while k < points.len()
        invariant
            k <= points.len(),
            flat@ =~= flat_points(points@.take(k as int)),
        decreases points.len() - k,
    {
        let p = points[k];
        flat.push(p[0]);
        flat.push(p[1]);
        flat.push(p[2]);
        assert(flat@ =~= flat_points(points@.take(k + 1)));
        k = k + 1;
    }
    assert(points@.take(points.len() as int) =~= points@);
    flat
}

/// Once some block has an unknown name, the first such block stays the first.
pub proof fn lemma_first_unknown_prefix(s: Seq<(Seq<char>, Seq<Seq<usize>>)>, n: int)
    requires
        0 <= n <= s.len(),
        first_unknown(s.take(n)) is Some,
    ensures
        first_unknown(s) == first_unknown(s.take(n)),
    decreases s.len() - n,
{
    if n < s.len() {
        assert(s.drop_last().take(n) =~= s.take(n));
        lemma_first_unknown_prefix(s.drop_last(), n);
    } else {
        assert(s.take(n) =~= s);
    }
}

/// Appends one cell in the legacy layout.
fn encode_cell(vertices: &mut Vec<u32>, cell: &Vec<usize>)
    ensures
        final(vertices)@ == old(vertices)@ + legacy_cell(cell@),
{
    let ghost start = vertices@;
    vertices.push(cell.len() as u32);
    let mut j: usize = 0;
    while j < cell.len()
        invariant
            j <= cell.len(),
            vertices@ =~= start + seq![cell@.len() as u32] + cell@.take(j as int).map_values(
                |v: usize| v as u32,
            ),
        decreases cell.len() - j,
    {
        vertices.push(#[verifier::truncate] (cell[j] as u32));
        j = j + 1;
    }
    assert(cell@.take(cell.len() as int) =~= cell@);
}

/// The legacy vertex list, the cell types and the number of cells of blocks,
/// or the error for the first block whose name is not a cell type name.
#[verifier::spinoff_prover]
fn encode_blocks(blocks: &Vec<crate::mesh::CellBlock>) -> (r: Result<
    (Vec<u32>, Vec<CellType>, usize),
    String,
>)
    ensures
        match r {
            Ok((vertices, types, total)) => {
                &&& first_unknown(crate::mesh::blocks_view(blocks@)) is None
                &&& vertices@ == legacy_encode(block_cells(crate::mesh::blocks_view(blocks@)))
                &&& types@ == block_types(crate::mesh::blocks_view(blocks@))
                &&& total == block_cells(crate::mesh::blocks_view(blocks@)).len()
            },
            Err(e) => first_unknown(crate::mesh::blocks_view(blocks@)) matches Some(name) && e@
                == "Unknown cell type: "@ + name,
        },
{
    let ghost bv = crate::mesh::blocks_view(blocks@);
    let mut vertices: Vec<u32> = Vec::new();
    let mut types: Vec<CellType> = Vec::new();
    let mut total: usize = 0;
    let mut b: usize = 0;
    while b < blocks.len()
        invariant
            bv == crate::mesh::blocks_view(blocks@),
            b <= blocks.len(),
            first_unknown(bv.take(b as int)) is None,
            vertices@ == legacy_encode(block_cells(bv.take(b as int))),
            types@ == block_types(bv.take(b as int)),
            total == block_cells(bv.take(b as int)).len(),
            total <= vertices@.len(),
        decreases blocks.len() - b,
    {
        let block = &blocks[b];
        assert(bv[b as int] == (block.cell_type@, block.data.deep_view()));
        assert(bv.take(b + 1).drop_last() =~= bv.take(b as int));
        assert(bv.take(b + 1).last() == bv[b as int]);
        let ct = match string_to_cell_type(block.cell_type.as_str()) {
            Some(ct) => ct,
            None => {
                proof {
                    lemma_first_unknown_prefix(bv, b + 1);
                }
                return Err(join_text("Unknown cell type: ", block.cell_type.as_str()));
            },
        };
        let ghost cells0 = block_cells(bv.take(b as int));
        let ghost types0 = types@;
        let ghost data = block.data.deep_view();
        let mut c: usize = 0;
        while c < block.data.len()
            invariant
                data == block.data.deep_view(),
                c <= block.data.len(),
                vertices@ == legacy_encode(cells0 + data.take(c as int)),
                types@ == types0 + Seq::new(c as nat, |i: int| ct),
                total == cells0.len() + c,
                total <= vertices@.len(),
            decreases block.data.len() - c,
        {
            let cell = &block.data[c];
            assert(data[c as int] =~= cell@);
            assert((cells0 + data.take(c + 1)).drop_last() =~= cells0 + data.take(c as int));
            encode_cell(&mut vertices, cell);
            let n_vertices = vertices.len();
            assert(total < n_vertices);
            types.push(ct);
            assert(types@ =~= types0 + Seq::new((c + 1) as nat, |i: int| ct));
            total = total + 1;
            c = c + 1;
        }
        assert(data.take(block.data.len() as int) =~= data);
        assert(block_types(bv.take(b + 1)) =~= types@);
        b = b + 1;
    }
    assert(bv.take(blocks.len() as int) =~= bv);
    Ok((vertices, types, total))
}

/// Components per element of `len` values over `count` elements.
fn num_comp_for(len: usize, count: usize) -> (nc: u32)
    ensures
        nc == components_per_element(len as nat, count as nat),
{
    if count == 0 {
        1
    } else {
        let v = len / count;
        let v = if v > 1 {
            v
        } else {
            1
        };
        #[verifier::truncate]
        (v as u32)
    }
}

/// The scalars element type with the default lookup table.
fn default_scalars(nc: u32) -> (e: ElementType)
    ensures
        e@ == scalars_elem(nc),
{
    ElementType::Scalars { num_comp: nc, lookup_table: Some(String::from_str("default")) }
}

/// Point attributes for point data: each array as scalars whose component
/// count is its length over the number of points (at least one).
pub fn build_point_attributes<T: Copy>(point_data: &Vec<(String, Vec<T>)>, num_points: usize) -> (attrs:
    Vec<Attribute<T>>)
    ensures
        attributes_view(attrs@) == point_attribute_views(
            crate::mesh::arrays_view(point_data@),
            num_points as nat,
        ),
{
    let ghost pd = crate::mesh::arrays_view(point_data@);
    let mut attrs: Vec<Attribute<T>> = Vec::new();
    let mut k: usize = 0;
    while k < point_data.len()
        invariant
            pd == crate::mesh::arrays_view(point_data@),
            k <= point_data.len(),
            attributes_view(attrs@) =~= point_attribute_views(pd, num_points as nat).take(k as int),
        decreases point_data.len() - k,
    {
        let (name, data) = &point_data[k];
        assert(pd[k as int] == (name@, data@));
        let nc = num_comp_for(data.len(), num_points);
        let a = Attribute::DataArray(
            DataArray { name: name.clone(), elem: default_scalars(nc), data: copy_vec(data) },
        );
        let ghost before = attributes_view(attrs@);
        attrs.push(a);
        assert(attributes_view(attrs@) =~= before.push(a@));
        k = k + 1;
    }
    attrs
}

/// The values of all blocks in one array.
fn flatten_per_block<T: Copy>(per_block: &Vec<Vec<T>>) -> (flat: Vec<T>)
    ensures
        flat@ == flatten_blocks(nested_view(per_block@)),
{
    let ghost nv = nested_view(per_block@);
    let mut flat: Vec<T> = Vec::new();
    let mut b: usize = 0;
    while b < per_block.len()
        invariant
            nv == nested_view(per_block@),
            b <= per_block.len(),
            flat@ == flatten_blocks(nv.take(b as int)),
        decreases per_block.len() - b,
    {
        let block = &per_block[b];
        let ghost before = flat@;
        let mut j: usize = 0;
        while j < block.len()
            invariant
                j <= block.len(),
                flat@ =~= before + block@.take(j as int),
            decreases block.len() - j,
        {
            flat.push(block[j]);
            j = j + 1;
        }
        assert(block@.take(block.len() as int) =~= block@);
        assert(nv.take(b + 1).drop_last() =~= nv.take(b as int));
        assert(nv[b as int] == block@);
        b = b + 1;
    }
    assert(nv.take(per_block.len() as int) =~= nv);
    flat
}

/// Cell attributes for cell data: the values of all blocks of each array in
/// one array of scalars, whose component count is its length over the number
/// of cells (at least one).
pub fn build_cell_attributes<T: Copy>(cell_data: &Vec<(String, Vec<Vec<T>>)>, total_cells: usize) -> (attrs:
    Vec<Attribute<T>>)
    ensures
        attributes_view(attrs@) == cell_attribute_views(
            crate::mesh::block_arrays_view(cell_data@),
            total_cells as nat,
        ),
{
    let ghost cd = crate::mesh::block_arrays_view(cell_data@);
    let mut attrs: Vec<Attribute<T>> = Vec::new();
    let mut k: usize = 0;
    while k < cell_data.len()
        invariant
            cd == crate::mesh::block_arrays_view(cell_data@),
            k <= cell_data.len(),
            attributes_view(attrs@) =~= cell_attribute_views(cd, total_cells as nat).take(k as int),
        decreases cell_data.len() - k,
    {
        let (name, per_block) = &cell_data[k];
        assert(cd[k as int] == (name@, nested_view(per_block@)));
        let flat = flatten_per_block(per_block);
        let nc = num_comp_for(flat.len(), total_cells);
        let a = Attribute::DataArray(
            DataArray { name: name.clone(), elem: default_scalars(nc), data: flat },
        );
        let ghost before = attributes_view(attrs@);
        attrs.push(a);
        assert(attributes_view(attrs@) =~= before.push(a@));
        k = k + 1;
    }
    attrs
}

/// The field attribute for field data: none for no data, otherwise one field
/// named `panmesh_field` holding every array with one component per element.
pub fn build_field_attributes<T: Copy>(field_data: &Vec<(String, Vec<T>)>) -> (attrs: Vec<Attribute<T>>)
    ensures
        attributes_view(attrs@) == field_attribute_views(crate::mesh::arrays_view(field_data@)),
{
    let ghost fd = crate::mesh::arrays_view(field_data@);
    let mut data_array: Vec<FieldArray<T>> = Vec::new();
    let mut k: usize = 0;
    while k < field_data.len()
        invariant
            fd == crate::mesh::arrays_view(field_data@),
            k <= field_data.len(),
            data_array.len() == k,
            forall|i: int|
                0 <= i < k ==> #[trigger] crate::model::field_array_view(data_array@[i]) == (
                    fd[i].0,
                    1u32,
                    fd[i].1,
                ),
        decreases field_data.len() - k,
    {
        let (name, data) = &field_data[k];
        assert(fd[k as int] == (name@, data@));
        let fa = FieldArray { name: name.clone(), elem: 1, data: copy_vec(data) };
        assert(crate::model::field_array_view(fa) == (name@, 1u32, data@));
        data_array.push(fa);
        k = k + 1;
    }
    assert(data_array@.map_values(|fa: FieldArray<T>| crate::model::field_array_view(fa))
        =~= fd.map_values(|e: (Seq<char>, Seq<T>)| (e.0, 1u32, e.1)));
    let mut attrs: Vec<Attribute<T>> = Vec::new();
    if data_array.len() == 0 {
        assert(attributes_view(attrs@) =~= field_attribute_views(fd));
    } else {
        let a = Attribute::Field { name: String::from_str("panmesh_field"), data_array };
        attrs.push(a);
        assert(attributes_view(attrs@) =~= field_attribute_views(fd));
    }
    attrs
}

/// Writes a mesh as a VTK file holding one unstructured grid piece: the points'
/// coordinates in one array, the cells of all blocks in the legacy layout with
/// the cell type named by their block, point and cell data as scalars, and
/// field data as one field among the point attributes. A block whose type name
/// is not a cell type name is an error.
#[verifier::spinoff_prover]
pub fn write_vtk<T: Copy>(mesh: &Mesh<T>) -> (r: Result<VtkFile<T>, String>)
    ensures
        write_result_view(r) == write_vtk_result(mesh@),
{
    let flat_points = flatten_points(&mesh.points);
    let num_points = mesh.points.len();
    let (vertices, cell_types, total_cells) = match encode_blocks(&mesh.cells) {
        Ok(encoded) => encoded,
        Err(e) => return Err(e),
    };
    let point_attrs = build_point_attributes(&mesh.point_data, num_points);
    let cell_attrs = build_cell_attributes(&mesh.cell_data, total_cells);
    let field_attrs = build_field_attributes(&mesh.field_data);
    let mut all_point_attrs = point_attrs;
    let mut field_attrs = field_attrs;
    let ghost pa = all_point_attrs@;
    let ghost fa = field_attrs@;
    all_point_attrs.append(&mut field_attrs);
    assert(all_point_attrs@ == pa + fa);
    assert(attributes_view(all_point_attrs@) =~= attributes_view(pa) + attributes_view(fa));
    let piece = UnstructuredGridPiece {
        points: flat_points,
        cells: Cells {
            cell_verts: VertexNumbers::Legacy {
                num_cells: #[verifier::truncate] (total_cells as u32),
                vertices,
            },
            types: cell_types,
        },
        data: Attributes { point: all_point_attrs, cell: cell_attrs },
    };
    assert(piece@ == written_piece(mesh@));
    let mut pieces: Vec<Piece<UnstructuredGridPiece<T>>> = Vec::new();
    pieces.push(Piece::Inline(piece));
    assert(crate::model::pieces_view(pieces@) =~= seq![PieceView::Inline(written_piece(mesh@))]);
    let file = VtkFile {
        version_major: 4,
        version_minor: 2,
        title: String::from_str("panmesh"),
        data: DataSet::UnstructuredGrid { pieces },
    };
    assert(file@.data == write_vtk_result(mesh@)->Ok_0.data);
    Ok(file)
}

} // verus!
