//! Reading a mesh from a VTK data set: points, cell blocks, and point, cell and
//! field data.
use crate::assoc::{
    assoc_from_pairs, assoc_insert_all, assoc_store, lemma_from_pairs_distinct,
    lemma_insert_all_concat, lemma_insert_all_push,
};
use crate::cell_types::{cell_type_name, cell_type_to_string};
use crate::grouping::{
    first_labels, group_by_label, grouped_blocks, grouped_positions, items_of,
    lemma_grouped_blocks_separate, lemma_positions_of, positions_of, texts,
};
use crate::mesh::{
    arrays_view, block_arrays_view, data_names_distinct, nested_view, nested_view_fn, vec_view_fn,
    Mesh, MeshView,
};
use crate::model::{
    attributes_view, elem_num_comp, field_array_view, optional_vertex_numbers, Attribute,
    AttributeView, Attributes, AttributesView, CellType, DataSet, DataSetView, FieldArray,
    FieldArrayView, Piece, PieceView, PolyDataPiece, PolyDataPieceView, UnstructuredGridPiece,
    UnstructuredGridPieceView, VertexNumbers,
};
use crate::text::{decimal_text, join_text, usize_text};
use crate::topology::{
    expand_triangle_strip, optional_topology_cells, optional_topology_well_formed, pixel_as_quad,
    pixel_to_quad_reorder, polydata_topology_to_cells, strip_triangles, topology_cells,
    topology_well_formed, vertex_numbers_to_cells, vertex_numbers_well_formed, voxel_as_hexahedron,
    voxel_to_hex_reorder,
};
use vstd::prelude::*;

verus! {

broadcast use vstd::string::group_string_axioms;

/// A copy of an array of values.
pub fn copy_vec<T: Copy>(v: &Vec<T>) -> (r: Vec<T>)
    ensures
        r@ == v@,
{
    let mut r: Vec<T> = Vec::new();
    let mut i: usize = 0;
    while i < v.len()
        invariant
            i <= v.len(),
            r@ =~= v@.take(i as int),
        decreases v.len() - i,
    {
        r.push(v[i]);
        i = i + 1;
    }
    r
}

/// Points from flat coordinates: point `k` is the coordinates `3k`, `3k + 1`
/// and `3k + 2`.
pub open spec fn points_of<T>(flat: Seq<T>) -> Seq<[T; 3]> {
    Seq::new(flat.len() / 3, |k: int| [flat[3 * k], flat[3 * k + 1], flat[3 * k + 2]])
}

/// Groups flat coordinates into points of three.
pub fn extract_points<T: Copy>(flat: &Vec<T>) -> (points: Vec<[T; 3]>)
    requires
        flat.len() % 3 == 0,
    ensures
        points@ == points_of(flat@),
{
    let mut points: Vec<[T; 3]> = Vec::new();
    let n = flat.len() / 3;
    let mut k: usize = 0;
    while k < n
        invariant
            n == flat.len() / 3,
            flat.len() % 3 == 0,
            k <= n,
            points@ =~= points_of(flat@).take(k as int),
        decreases n - k,
    {
        points.push([flat[3 * k], flat[3 * k + 1], flat[3 * k + 2]]);
        k = k + 1;
    }
    points
}

/// The name of an array of a field: the field's name, a dot, the array's name.
pub open spec fn field_array_name(field: Seq<char>, array: Seq<char>) -> Seq<char> {
    field + "."@ + array
}

/// The named values that one point attribute contributes: a data array under
/// its own name, each array of a field under the field's name joined to its own.
pub open spec fn point_attribute_pairs<T>(a: AttributeView<T>) -> Seq<(Seq<char>, Seq<T>)> {
    match a {
        AttributeView::DataArray { name, data, .. } => seq![(name, data)],
        AttributeView::Field { name, data_array } => data_array.map_values(
            |fa: FieldArrayView<T>| (field_array_name(name, fa.0), fa.2),
        ),
    }
}

/// The named values of point attributes, in order.
pub open spec fn point_pairs<T>(attrs: Seq<AttributeView<T>>) -> Seq<(Seq<char>, Seq<T>)>
    decreases attrs.len(),
{
    if attrs.len() == 0 {
        seq![]
    } else {
        point_pairs(attrs.drop_last()) + point_attribute_pairs(attrs.last())
    }
}

/// Point data from point attributes: every data array under its name, and every
/// array of a field under the field's name and its own; a later value replaces
/// an earlier one of the same name.
pub fn extract_point_attributes<T: Copy>(attrs: &Vec<Attribute<T>>) -> (map: Vec<(String, Vec<T>)>)
    ensures
        arrays_view(map@) == assoc_from_pairs(point_pairs(attributes_view(attrs@))),
{
    let mut map: Vec<(String, Vec<T>)> = Vec::new();
    let ghost av = attributes_view(attrs@);
    let mut i: usize = 0;
    while i < attrs.len()
        invariant
            i <= attrs.len(),
            av == attributes_view(attrs@),
            arrays_view(map@) == assoc_from_pairs(point_pairs(av.take(i as int))),
        decreases attrs.len() - i,
    {
        let ghost before = arrays_view(map@);
        let ghost q = point_attribute_pairs(av[i as int]);
        proof {
            assert(av.take(i + 1).drop_last() =~= av.take(i as int));
            assert(av.take(i + 1).last() == av[i as int]);
            assert(av[i as int] == attrs@[i as int]@);
            lemma_insert_all_concat(seq![], point_pairs(av.take(i as int)), q);
        }
        match &attrs[i] {
            Attribute::DataArray(da) => {
                let data = copy_vec(&da.data);
                assoc_store::<Vec<T>, Seq<T>>(&mut map, da.name.clone(), data, Ghost(vec_view_fn::<T>()));
                proof {
                    lemma_insert_all_push(before, seq![], q[0]);
                    assert(seq![].push(q[0]) =~= q);
                }
            },
            Attribute::Field { name, data_array } => {
                assert(q =~= data_array@.map_values(
                    |fa: FieldArray<T>| (field_array_name(name@, fa.name@), fa.data@),
                ));
                let mut k: usize = 0;
                while k < data_array.len()
                    invariant
                        k <= data_array.len(),
                        q == data_array@.map_values(
                            |fa: FieldArray<T>| (field_array_name(name@, fa.name@), fa.data@),
                        ),
                        arrays_view(map@) == assoc_insert_all(before, q.take(k as int)),
                    decreases data_array.len() - k,
                {
                    let fa = &data_array[k];
                    let mut key = String::from_str(name.as_str());
                    key.append(".");
                    key.append(fa.name.as_str());
                    let data = copy_vec(&fa.data);
                    let ghost mid = arrays_view(map@);
                    assoc_store::<Vec<T>, Seq<T>>(&mut map, key, data, Ghost(vec_view_fn::<T>()));
                    proof {
                        assert(q.take(k + 1) =~= q.take(k as int).push(q[k as int]));
                        lemma_insert_all_push(before, q.take(k as int), q[k as int]);
                    }
                    k = k + 1;
                }
                assert(q.take(data_array.len() as int) =~= q);
            },
        }
        i = i + 1;
    }
    assert(av.take(attrs.len() as int) =~= av);
    map
}

/// The components of cell `idx` in data with `nc` components per cell, or
/// nothing when the data ends before them.
pub open spec fn cell_chunk<T>(data: Seq<T>, nc: int, idx: int) -> Seq<T> {
    if idx * nc + nc <= data.len() {
        data.subrange(idx * nc, idx * nc + nc)
    } else {
        seq![]
    }
}

/// The components of the cells `indices`, one after the other.
pub open spec fn gather_cells<T>(data: Seq<T>, nc: int, indices: Seq<usize>) -> Seq<T>
    decreases indices.len(),
{
    if indices.len() == 0 {
        seq![]
    } else {
        gather_cells(data, nc, indices.drop_last()) + cell_chunk(data, nc, indices.last() as int)
    }
}

/// The named per-block values of cell attributes: each data array gives, for
/// each block, the components of the block's cells; fields give nothing.
pub open spec fn cell_pairs<T>(attrs: Seq<AttributeView<T>>, blocks: Seq<Seq<usize>>) -> Seq<
    (Seq<char>, Seq<Seq<T>>),
>
    decreases attrs.len(),
{
    if attrs.len() == 0 {
        seq![]
    } else {
        cell_pairs(attrs.drop_last(), blocks) + match attrs.last() {
            AttributeView::DataArray { name, elem, data } => seq![
                (
                    name,
                    blocks.map_values(
                        |b: Seq<usize>| gather_cells(data, elem_num_comp(elem) as int, b),
                    ),
                ),
            ],
            AttributeView::Field { .. } => seq![],
        }
    }
}

/// The components of the cells `indices` of `data`.
#[verifier::spinoff_prover]
fn gather_block<T: Copy>(data: &Vec<T>, nc: usize, indices: &Vec<usize>) -> (r: Vec<T>)
    ensures
        r@ == gather_cells(data@, nc as int, indices@),
{
    let mut r: Vec<T> = Vec::new();
    let mut k: usize = 0;
    while k < indices.len()
        invariant
            k <= indices.len(),
            r@ == gather_cells(data@, nc as int, indices@.take(k as int)),
        decreases indices.len() - k,
    {
        let idx = indices[k];
        let ghost before = r@;
        let ghost chunk = cell_chunk(data@, nc as int, idx as int);
        proof {
            assert(indices@.take(k + 1).drop_last() =~= indices@.take(k as int));
            assert(indices@.take(k + 1).last() == idx);
            assert(gather_cells(data@, nc as int, indices@.take(k + 1)) == before + chunk);
        }
        match idx.checked_mul(nc) {
            Some(start) => match start.checked_add(nc) {
                Some(end) => {
                    if end <= data.len() {
                        let mut j = start;
                        while j < end
                            invariant
                                start <= j <= end <= data.len(),
                                start == idx * nc,
                                end == start + nc,
                                r@ =~= before + data@.subrange(start as int, j as int),
                            decreases end - j,
                        {
                            r.push(data[j]);
                            j = j + 1;
                        }
                        assert(chunk =~= data@.subrange(start as int, end as int));
                    } else {
                        assert(chunk =~= Seq::<T>::empty());
                    }
                },
                None => {
                    assert(start == idx * nc);
                    assert(idx * nc + nc > data.len());
                    assert(chunk =~= Seq::<T>::empty());
                },
            },
            None => {
                assert(idx * nc + nc > data.len()) by (nonlinear_arith)
                    requires
                        idx * nc > usize::MAX,
                        data.len() <= usize::MAX,
                        nc >= 0,
                ;
                assert(chunk =~= Seq::<T>::empty());
            },
        }
        assert(r@ =~= before + chunk);
        k = k + 1;
    }
    assert(indices@.take(indices.len() as int) =~= indices@);
    r
}

/// Cell data from cell attributes: for each data array, and for each block,
/// the components of the block's cells in the block's order, where `nc` is
/// the number of components of the array's elements; a cell whose components
/// run past the end of the array contributes none. Fields are skipped.
#[verifier::spinoff_prover]
pub fn extract_cell_attributes<T: Copy>(
    attrs: &Vec<Attribute<T>>,
    cell_indices_per_block: &Vec<Vec<usize>>,
) -> (map: Vec<(String, Vec<Vec<T>>)>)
    ensures
        block_arrays_view(map@) == assoc_from_pairs(
            cell_pairs(attributes_view(attrs@), cell_indices_per_block.deep_view()),
        ),
{
    let ghost blocks = cell_indices_per_block.deep_view();
    let mut map: Vec<(String, Vec<Vec<T>>)> = Vec::new();
    let ghost av = attributes_view(attrs@);
    let mut i: usize = 0;
    while i < attrs.len()
        invariant
            i <= attrs.len(),
            av == attributes_view(attrs@),
            blocks == cell_indices_per_block.deep_view(),
            block_arrays_view(map@) == assoc_from_pairs(cell_pairs(av.take(i as int), blocks)),
        decreases attrs.len() - i,
    {
        let ghost before = block_arrays_view(map@);
        proof {
            assert(av.take(i + 1).drop_last() =~= av.take(i as int));
            assert(av.take(i + 1).last() == av[i as int]);
            assert(av[i as int] == attrs@[i as int]@);
        }
        match &attrs[i] {
            Attribute::DataArray(da) => {
                let nc = da.elem.num_comp() as usize;
                let mut per_block: Vec<Vec<T>> = Vec::new();
                let mut b: usize = 0;
                while b < cell_indices_per_block.len()
                    invariant
                        b <= cell_indices_per_block.len(),
                        blocks == cell_indices_per_block.deep_view(),
                        nc == elem_num_comp(da.elem@),
                        nested_view(per_block@) =~= blocks.take(b as int).map_values(
                            |bl: Seq<usize>| gather_cells(da.data@, nc as int, bl),
                        ),
                    decreases cell_indices_per_block.len() - b,
                {
                    let block = gather_block(&da.data, nc, &cell_indices_per_block[b]);
                    assert(blocks[b as int] =~= cell_indices_per_block@[b as int]@);
                    let ghost prev = nested_view(per_block@);
                    per_block.push(block);
                    assert(nested_view(per_block@) =~= prev.push(block@));
                    assert(blocks.take(b + 1) =~= blocks.take(b as int).push(blocks[b as int]));
                    b = b + 1;
                }
                assert(blocks.take(blocks.len() as int) =~= blocks);
                let ghost q = cell_pairs(av.take(i + 1), blocks);
                assoc_store::<Vec<Vec<T>>, Seq<Seq<T>>>(
                    &mut map,
                    da.name.clone(),
                    per_block,
                    Ghost(nested_view_fn::<T>()),
                );
                proof {
                    let p = cell_pairs(av.take(i as int), blocks);
                    let last = q.last();
                    assert(q =~= p.push(last));
                    lemma_insert_all_push(seq![], p, last);
                }
            },
            Attribute::Field { .. } => {
                assert(cell_pairs(av.take(i + 1), blocks) =~= cell_pairs(
                    av.take(i as int),
                    blocks,
                ));
            },
        }
        i = i + 1;
    }
    assert(av.take(attrs.len() as int) =~= av);
    map
}

/// The named values of the fields among attributes: each array of a field under
/// its own name.
pub open spec fn field_pairs<T>(attrs: Seq<AttributeView<T>>) -> Seq<(Seq<char>, Seq<T>)>
    decreases attrs.len(),
{
    if attrs.len() == 0 {
        seq![]
    } else {
        field_pairs(attrs.drop_last()) + match attrs.last() {
            AttributeView::DataArray { .. } => seq![],
            AttributeView::Field { data_array, .. } => data_array.map_values(
                |fa: FieldArrayView<T>| (fa.0, fa.2),
            ),
        }
    }
}

/// Stores the arrays of the fields among `attrs` into `map`.
fn store_field_arrays<T: Copy>(map: &mut Vec<(String, Vec<T>)>, attrs: &Vec<Attribute<T>>)
    ensures
        arrays_view(final(map)@) == assoc_insert_all(arrays_view(old(map)@), field_pairs(attributes_view(attrs@))),
{
    let ghost start = arrays_view(map@);
    let ghost av = attributes_view(attrs@);
    let mut i: usize = 0;
    while i < attrs.len()
        invariant
            i <= attrs.len(),
            av == attributes_view(attrs@),
            arrays_view(map@) == assoc_insert_all(start, field_pairs(av.take(i as int))),
        decreases attrs.len() - i,
    {
        let ghost before = arrays_view(map@);
        proof {
            assert(av.take(i + 1).drop_last() =~= av.take(i as int));
            assert(av.take(i + 1).last() == av[i as int]);
            assert(av[i as int] == attrs@[i as int]@);
        }
        match &attrs[i] {
            Attribute::DataArray(_) => {
                assert(field_pairs(av.take(i + 1)) =~= field_pairs(av.take(i as int)));
            },
            Attribute::Field { data_array, .. } => {
                let ghost q = data_array@.map_values(|fa: FieldArray<T>| (fa.name@, fa.data@));
                assert(q =~= data_array@.map_values(|fa: FieldArray<T>| field_array_view(fa)).map_values(
                    |fa: FieldArrayView<T>| (fa.0, fa.2),
                ));
                proof {
                    lemma_insert_all_concat(start, field_pairs(av.take(i as int)), q);
                }
                let mut k: usize = 0;
                while k < data_array.len()
                    invariant
                        k <= data_array.len(),
                        q == data_array@.map_values(|fa: FieldArray<T>| (fa.name@, fa.data@)),
                        arrays_view(map@) == assoc_insert_all(before, q.take(k as int)),
                    decreases data_array.len() - k,
                {
                    let fa = &data_array[k];
                    let data = copy_vec(&fa.data);
                    assoc_store::<Vec<T>, Seq<T>>(
                        map,
                        fa.name.clone(),
                        data,
                        Ghost(vec_view_fn::<T>()),
                    );
                    proof {
                        assert(q.take(k + 1) =~= q.take(k as int).push(q[k as int]));
                        lemma_insert_all_push(before, q.take(k as int), q[k as int]);
                    }
                    k = k + 1;
                }
                assert(q.take(data_array.len() as int) =~= q);
            },
        }
        i = i + 1;
    }
    assert(av.take(attrs.len() as int) =~= av);
}

/// Field data from the fields among the point attributes and then the cell
/// attributes: each array of a field under its own name, a later value
/// replacing an earlier one of the same name.
pub fn extract_field_attributes<T: Copy>(
    point_attrs: &Vec<Attribute<T>>,
    cell_attrs: &Vec<Attribute<T>>,
) -> (map: Vec<(String, Vec<T>)>)
    ensures
        arrays_view(map@) == assoc_from_pairs(
            field_pairs(attributes_view(point_attrs@) + attributes_view(cell_attrs@)),
        ),
{
    let mut map: Vec<(String, Vec<T>)> = Vec::new();
    assert(arrays_view(map@) =~= Seq::<(Seq<char>, Seq<T>)>::empty());
    store_field_arrays(&mut map, point_attrs);
    store_field_arrays(&mut map, cell_attrs);
    proof {
        lemma_field_pairs_concat(attributes_view(point_attrs@), attributes_view(cell_attrs@));
        lemma_insert_all_concat(
            seq![],
            field_pairs(attributes_view(point_attrs@)),
            field_pairs(attributes_view(cell_attrs@)),
        );
    }
    map
}

/// The field pairs of two runs of attributes are those of each, one after the other.
pub proof fn lemma_field_pairs_concat<T>(a: Seq<AttributeView<T>>, b: Seq<AttributeView<T>>)
    ensures
        field_pairs(a + b) == field_pairs(a) + field_pairs(b),
    decreases b.len(),
{
    if b.len() == 0 {
        assert(a + b =~= a);
        assert(field_pairs(a) + field_pairs(b) =~= field_pairs(a));
    } else {
        lemma_field_pairs_concat(a, b.drop_last());
        assert((a + b).drop_last() =~= a + b.drop_last());
        assert((a + b).last() == b.last());
    }
}

/// A cell as read: voxels and pixels are brought into hexahedron and quad
/// point order, other cells are kept.
pub open spec fn reordered_cell(ct: CellType, cell: Seq<usize>) -> Seq<usize> {
    match ct {
        CellType::Voxel => voxel_as_hexahedron(cell),
        CellType::Pixel => pixel_as_quad(cell),
        _ => cell,
    }
}

/// The block names of cells of the given types.
pub open spec fn grid_labels(types: Seq<CellType>) -> Seq<Seq<char>> {
    types.map_values(|t: CellType| cell_type_name(t))
}

/// The cells of an unstructured grid as read, in order.
pub open spec fn grid_items(raw: Seq<Seq<usize>>, types: Seq<CellType>) -> Seq<Seq<usize>> {
    Seq::new(types.len(), |i: int| reordered_cell(types[i], raw[i]))
}

/// The mesh read from flat points, labelled cells and attributes: the cells are
/// grouped into blocks by label, and the cell data of each block follows the
/// positions of its cells.
pub open spec fn mesh_from_cells<T>(
    points: Seq<T>,
    labels: Seq<Seq<char>>,
    items: Seq<Seq<usize>>,
    attrs: AttributesView<T>,
) -> MeshView<T> {
    MeshView {
        points: points_of(points),
        cells: grouped_blocks(labels, items),
        point_data: assoc_from_pairs(point_pairs(attrs.point)),
        cell_data: assoc_from_pairs(cell_pairs(attrs.cell, grouped_positions(labels))),
        field_data: assoc_from_pairs(field_pairs(attrs.point + attrs.cell)),
    }
}

/// The message for a cell list and a type list of different lengths.
pub open spec fn count_mismatch_message(cells: nat, types: nat) -> Seq<char> {
    "Cell count mismatch: "@ + decimal_text(cells) + " cells vs "@ + decimal_text(types)
        + " cell types"@
}

/// What reading an unstructured grid piece gives: an error when the cells and
/// their types differ in number, the mesh of its cells otherwise.
pub open spec fn unstructured_grid_result<T>(piece: UnstructuredGridPieceView<T>) -> Result<
    MeshView<T>,
    Seq<char>,
> {
    let raw = topology_cells(piece.cell_verts);
    let types = piece.types;
    if raw.len() != types.len() {
        Err(count_mismatch_message(raw.len(), types.len()))
    } else {
        Ok(mesh_from_cells(piece.points, grid_labels(types), grid_items(raw, types), piece.data))
    }
}

/// Whether an unstructured grid piece can be read: whole points, and cells
/// that can be decoded.
pub open spec fn unstructured_grid_readable<T>(piece: UnstructuredGridPieceView<T>) -> bool {
    &&& piece.points.len() % 3 == 0
    &&& topology_well_formed(piece.cell_verts)
}

/// The content of a read result.
pub open spec fn result_view<T>(r: Result<Mesh<T>, String>) -> Result<MeshView<T>, Seq<char>> {
    match r {
        Ok(m) => Ok(m@),
        Err(e) => Err(e@),
    }
}

/// Builds a mesh from flat points, labelled cells and attributes.
fn assemble_mesh<T: Copy>(
    points: &Vec<T>,
    labels: &Vec<String>,
    items: &Vec<Vec<usize>>,
    data: &Attributes<T>,
) -> (m: Mesh<T>)
    requires
        points@.len() % 3 == 0,
        labels.len() == items.len(),
    ensures
        m@ == mesh_from_cells(points@, texts(labels@), items.deep_view(), data@),
{
    let pts = extract_points(points);
    let (cells, cell_indices_per_block) = group_by_label(labels, items);
    let point_data = extract_point_attributes(&data.point);
    let cell_data = extract_cell_attributes(&data.cell, &cell_indices_per_block);
    let field_data = extract_field_attributes(&data.point, &data.cell);
    Mesh { points: pts, cells, point_data, cell_data, field_data }
}

/// Reads a mesh from a piece of an unstructured grid: the cells are grouped
/// into blocks by type name in order of first occurrence, voxels and pixels
/// are reordered as hexahedra and quads, and the data follows.
#[verifier::spinoff_prover]
pub fn process_unstructured_grid<T: Copy>(piece: &UnstructuredGridPiece<T>) -> (r: Result<
    Mesh<T>,
    String,
>)
    requires
        unstructured_grid_readable(piece@),
    ensures
        result_view(r) == unstructured_grid_result(piece@),
{
    let raw_cells = vertex_numbers_to_cells(&piece.cells.cell_verts);
    let cell_types = &piece.cells.types;
    if raw_cells.len() != cell_types.len() {
        let mut msg = String::from_str("Cell count mismatch: ");
        let n_cells = usize_text(raw_cells.len());
        msg.append(n_cells.as_str());
        msg.append(" cells vs ");
        let n_types = usize_text(cell_types.len());
        msg.append(n_types.as_str());
        msg.append(" cell types");
        return Err(msg);
    }
    let ghost raw = raw_cells.deep_view();
    let mut labels: Vec<String> = Vec::new();
    let mut items: Vec<Vec<usize>> = Vec::new();
    let mut i: usize = 0;
    while i < cell_types.len()
        invariant
            raw == raw_cells.deep_view(),
            raw_cells.len() == cell_types.len(),
            i <= cell_types.len(),
            texts(labels@) =~= grid_labels(cell_types@).take(i as int),
            items.deep_view() =~= grid_items(raw, cell_types@).take(i as int),
        decreases cell_types.len() - i,
    {
        let ct = &cell_types[i];
        let cell = &raw_cells[i];
        assert(cell.deep_view() =~= cell@);
        let reordered = match ct {
            CellType::Voxel => voxel_to_hex_reorder(cell.as_slice()),
            CellType::Pixel => pixel_to_quad_reorder(cell.as_slice()),
            _ => copy_vec(cell),
        };
        assert(reordered.deep_view() =~= reordered@);
        let label = String::from_str(cell_type_to_string(ct));
        let ghost labels_before = texts(labels@);
        labels.push(label);
        assert(texts(labels@) =~= labels_before.push(label@));
        let ghost before = items.deep_view();
        items.push(reordered);
        assert(items.deep_view() =~= before.push(reordered@));
        i = i + 1;
    }
    assert(grid_labels(cell_types@).take(cell_types.len() as int) =~= grid_labels(cell_types@));
    assert(grid_items(raw, cell_types@).take(cell_types.len() as int) =~= grid_items(
        raw,
        cell_types@,
    ));
    Ok(assemble_mesh(&piece.points, &labels, &items, &piece.data))
}

/// The block name of a polygon: triangles and quads by their point count,
/// other polygons as polygons.
pub open spec fn poly_label(cell: Seq<usize>) -> Seq<char> {
    if cell.len() == 3 {
        "triangle"@
    } else if cell.len() == 4 {
        "quad"@
    } else {
        "polygon"@
    }
}

/// The triangles of triangle strips, strip after strip.
pub open spec fn strip_cells(strips: Seq<Seq<usize>>) -> Seq<Seq<usize>>
    decreases strips.len(),
{
    if strips.len() == 0 {
        seq![]
    } else {
        strip_cells(strips.drop_last()) + strip_triangles(strips.last())
    }
}

/// `n` copies of a label.
pub open spec fn repeat_label(l: Seq<char>, n: nat) -> Seq<Seq<char>> {
    Seq::new(n, |i: int| l)
}

/// The cells of poly data in reading order: vertices, lines, polygons, then the
/// triangles of the strips.
pub open spec fn polydata_items<T>(piece: PolyDataPieceView<T>) -> Seq<Seq<usize>> {
    optional_topology_cells(piece.verts) + optional_topology_cells(piece.lines)
        + optional_topology_cells(piece.polys) + strip_cells(
        optional_topology_cells(piece.strips),
    )
}

/// The block names of the cells of poly data: vertices are `vertex`, lines
/// `line`, polygons by their point count, strip triangles `triangle`.
pub open spec fn polydata_labels<T>(piece: PolyDataPieceView<T>) -> Seq<Seq<char>> {
    repeat_label("vertex"@, optional_topology_cells(piece.verts).len()) + repeat_label(
        "line"@,
        optional_topology_cells(piece.lines).len(),
    ) + optional_topology_cells(piece.polys).map_values(|c: Seq<usize>| poly_label(c))
        + repeat_label("triangle"@, strip_cells(optional_topology_cells(piece.strips)).len())
}

/// What reading a piece of poly data gives.
pub open spec fn polydata_result<T>(piece: PolyDataPieceView<T>) -> MeshView<T> {
    mesh_from_cells(piece.points, polydata_labels(piece), polydata_items(piece), piece.data)
}

/// Whether a piece of poly data can be read: whole points, and topologies that
/// can be decoded.
pub open spec fn polydata_readable<T>(piece: PolyDataPieceView<T>) -> bool {
    &&& piece.points.len() % 3 == 0
    &&& optional_topology_well_formed(piece.verts)
    &&& optional_topology_well_formed(piece.lines)
    &&& optional_topology_well_formed(piece.polys)
    &&& optional_topology_well_formed(piece.strips)
}

/// Appends cells that all carry one label.
fn append_labelled(
    labels: &mut Vec<String>,
    items: &mut Vec<Vec<usize>>,
    cells: &Vec<Vec<usize>>,
    label: &str,
)
    ensures
        texts(final(labels)@) == texts(old(labels)@) + repeat_label(label@, cells@.len()),
        final(items).deep_view() == old(items).deep_view() + cells.deep_view(),
{
    let ghost labels0 = texts(labels@);
    let ghost items0 = items.deep_view();
    let mut k: usize = 0;
    while k < cells.len()
        invariant
            k <= cells.len(),
            texts(labels@) =~= labels0 + repeat_label(label@, k as nat),
            items.deep_view() =~= items0 + cells.deep_view().take(k as int),
        decreases cells.len() - k,
    {
        let l = String::from_str(label);
        let ghost lb = texts(labels@);
        labels.push(l);
        assert(texts(labels@) =~= lb.push(l@));
        let c = copy_vec(&cells[k]);
        assert(c.deep_view() =~= cells.deep_view()[k as int]);
        let ghost ib = items.deep_view();
        items.push(c);
        assert(items.deep_view() =~= ib.push(c.deep_view()));
        k = k + 1;
    }
    assert(cells.deep_view().take(cells.len() as int) =~= cells.deep_view());
}

/// Appends polygons, each labelled by its point count.
fn append_polygons(labels: &mut Vec<String>, items: &mut Vec<Vec<usize>>, polys: &Vec<Vec<usize>>)
    ensures
        texts(final(labels)@) == texts(old(labels)@) + polys.deep_view().map_values(
            |c: Seq<usize>| poly_label(c),
        ),
        final(items).deep_view() == old(items).deep_view() + polys.deep_view(),
{
    let ghost labels1 = texts(labels@);
    let ghost items1 = items.deep_view();
    let mut k: usize = 0;
    while k < polys.len()
        invariant
            k <= polys.len(),
            texts(labels@) =~= labels1 + polys.deep_view().take(k as int).map_values(
                |c: Seq<usize>| poly_label(c),
            ),
            items.deep_view() =~= items1 + polys.deep_view().take(k as int),
        decreases polys.len() - k,
    {
        let cell = &polys[k];
        assert(cell.deep_view() =~= cell@);
        assert(polys.deep_view()[k as int] == cell.deep_view());
        let type_str = if cell.len() == 3 {
            "triangle"
        } else if cell.len() == 4 {
            "quad"
        } else {
            "polygon"
        };
        let l = String::from_str(type_str);
        let ghost lb = texts(labels@);
        labels.push(l);
        assert(texts(labels@) =~= lb.push(l@));
        let c = copy_vec(cell);
        let ghost ib = items.deep_view();
        items.push(c);
        assert(items.deep_view() =~= ib.push(c.deep_view()));
        assert(polys.deep_view().take(k + 1) =~= polys.deep_view().take(k as int).push(
            polys.deep_view()[k as int],
        ));
        k = k + 1;
    }
    assert(polys.deep_view().take(polys.len() as int) =~= polys.deep_view());
}

/// Appends the triangles of triangle strips, labelled as triangles.
fn append_strips(labels: &mut Vec<String>, items: &mut Vec<Vec<usize>>, strips: &Vec<Vec<usize>>)
    ensures
        texts(final(labels)@) == texts(old(labels)@) + repeat_label(
            "triangle"@,
            strip_cells(strips.deep_view()).len(),
        ),
        final(items).deep_view() == old(items).deep_view() + strip_cells(strips.deep_view()),
{
    let ghost labels2 = texts(labels@);
    let ghost items2 = items.deep_view();
    let mut s: usize = 0;
    while s < strips.len()
        invariant
            s <= strips.len(),
            texts(labels@) =~= labels2 + repeat_label(
                "triangle"@,
                strip_cells(strips.deep_view().take(s as int)).len(),
            ),
            items.deep_view() =~= items2 + strip_cells(strips.deep_view().take(s as int)),
        decreases strips.len() - s,
    {
        let strip = &strips[s];
        assert(strips.deep_view()[s as int] =~= strip@);
        let tris = expand_triangle_strip(strip.as_slice());
        append_labelled(labels, items, &tris, "triangle");
        assert(strips.deep_view().take(s + 1).drop_last() =~= strips.deep_view().take(s as int));
        s = s + 1;
    }
    assert(strips.deep_view().take(strips.len() as int) =~= strips.deep_view());
}

/// The labelled cells of a piece of poly data, in reading order.
fn polydata_cells<T>(piece: &PolyDataPiece<T>) -> (r: (Vec<String>, Vec<Vec<usize>>))
    requires
        polydata_readable(piece@),
    ensures
        texts(r.0@) == polydata_labels(piece@),
        r.1.deep_view() == polydata_items(piece@),
        r.0.len() == r.1.len(),
{
    let mut labels: Vec<String> = Vec::new();
    let mut items: Vec<Vec<usize>> = Vec::new();
    assert(texts(labels@) =~= Seq::<Seq<char>>::empty());
    assert(items.deep_view() =~= Seq::<Seq<usize>>::empty());
    let verts = polydata_topology_to_cells(&piece.verts);
    append_labelled(&mut labels, &mut items, &verts, "vertex");
    let lines = polydata_topology_to_cells(&piece.lines);
    append_labelled(&mut labels, &mut items, &lines, "line");
    let polys = polydata_topology_to_cells(&piece.polys);
    append_polygons(&mut labels, &mut items, &polys);
    let strips = polydata_topology_to_cells(&piece.strips);
    append_strips(&mut labels, &mut items, &strips);
    assert(texts(labels@) =~= polydata_labels(piece@));
    assert(items.deep_view() =~= polydata_items(piece@));
    (labels, items)
}

/// Reads a mesh from a piece of poly data: vertices, lines, polygons (named by
/// their point count) and the triangles of strips become cells, grouped into
/// blocks by name in order of first occurrence.
pub fn process_polydata<T: Copy>(piece: &PolyDataPiece<T>) -> (m: Mesh<T>)
    requires
        polydata_readable(piece@),
    ensures
        m@ == polydata_result(piece@),
{
    let (labels, items) = polydata_cells(piece);
    assemble_mesh(&piece.points, &labels, &items, &piece.data)
}

/// The message for a piece that refers to another file.
pub open spec fn not_loaded_message() -> Seq<char> {
    "Referenced piece not loaded. Use load_all_pieces() first."@
}

/// What reading the first piece of an unstructured grid gives.
pub open spec fn unstructured_piece_result<T>(piece: PieceView<UnstructuredGridPieceView<T>>) -> Result<
    MeshView<T>,
    Seq<char>,
> {
    match piece {
        PieceView::Inline(p) => unstructured_grid_result(p),
        PieceView::Loaded(Ok(p)) => unstructured_grid_result(p),
        PieceView::Loaded(Err(e)) => Err("Failed to convert loaded piece: "@ + e),
        PieceView::Source(_) => Err(not_loaded_message()),
    }
}

/// What reading the first piece of poly data gives.
pub open spec fn polydata_piece_result<T>(piece: PieceView<PolyDataPieceView<T>>) -> Result<
    MeshView<T>,
    Seq<char>,
> {
    match piece {
        PieceView::Inline(p) => Ok(polydata_result(p)),
        PieceView::Loaded(Ok(p)) => Ok(polydata_result(p)),
        PieceView::Loaded(Err(e)) => Err("Failed to convert loaded piece: "@ + e),
        PieceView::Source(_) => Err(not_loaded_message()),
    }
}

/// What reading a data set gives: the mesh of the first piece of an
/// unstructured grid or of poly data, or an error for a data set without
/// pieces, a piece that failed to load or was not loaded, or another kind of
/// data set.
pub open spec fn read_vtk_result<T>(data: DataSetView<T>) -> Result<MeshView<T>, Seq<char>> {
    match data {
        DataSetView::UnstructuredGrid { pieces } => if pieces.len() == 0 {
            Err("No pieces in UnstructuredGrid"@)
        } else {
            unstructured_piece_result(pieces[0])
        },
        DataSetView::PolyData { pieces } => if pieces.len() == 0 {
            Err("No pieces in PolyData"@)
        } else {
            polydata_piece_result(pieces[0])
        },
        DataSetView::Other { description } => Err("Unsupported dataset type: "@ + description),
    }
}

/// Whether the piece that reading a data set uses, if any, can be read.
pub open spec fn vtk_readable<T>(data: DataSetView<T>) -> bool {
    match data {
        DataSetView::UnstructuredGrid { pieces } => pieces.len() > 0 ==> match pieces[0] {
            PieceView::Inline(p) => unstructured_grid_readable(p),
            PieceView::Loaded(Ok(p)) => unstructured_grid_readable(p),
            _ => true,
        },
        DataSetView::PolyData { pieces } => pieces.len() > 0 ==> match pieces[0] {
            PieceView::Inline(p) => polydata_readable(p),
            PieceView::Loaded(Ok(p)) => polydata_readable(p),
            _ => true,
        },
        DataSetView::Other { .. } => true,
    }
}

/// Whether an unstructured grid piece can be read.
fn unstructured_grid_check<T>(piece: &UnstructuredGridPiece<T>) -> (r: bool)
    ensures
        r == unstructured_grid_readable(piece@),
{
    piece.points.len() % 3 == 0 && vertex_numbers_well_formed(&piece.cells.cell_verts)
}

/// Whether an optional topology can be decoded.
fn optional_topology_check(vn: &Option<VertexNumbers>) -> (r: bool)
    ensures
        r == optional_topology_well_formed(optional_vertex_numbers(*vn)),
{
    match vn {
        Some(v) => vertex_numbers_well_formed(v),
        None => true,
    }
}

/// Whether a piece of poly data can be read.
fn polydata_check<T>(piece: &PolyDataPiece<T>) -> (r: bool)
    ensures
        r == polydata_readable(piece@),
{
    piece.points.len() % 3 == 0 && optional_topology_check(&piece.verts) && optional_topology_check(
        &piece.lines,
    ) && optional_topology_check(&piece.polys) && optional_topology_check(&piece.strips)
}

/// Whether `read_vtk` can read a data set: the piece it reads, if any, has
/// whole points (three coordinates each) and cell lists that can be decoded.
pub fn vtk_readable_check<T>(data: &DataSet<T>) -> (r: bool)
    ensures
        r == vtk_readable(data@),
{
    match data {
        DataSet::UnstructuredGrid { pieces } => {
            if pieces.len() == 0 {
                true
            } else {
                match &pieces[0] {
                    Piece::Inline(p) => unstructured_grid_check(p),
                    Piece::Loaded(Ok(p)) => unstructured_grid_check(p),
                    _ => true,
                }
            }
        },
        DataSet::PolyData { pieces } => {
            if pieces.len() == 0 {
                true
            } else {
                match &pieces[0] {
                    Piece::Inline(p) => polydata_check(p),
                    Piece::Loaded(Ok(p)) => polydata_check(p),
                    _ => true,
                }
            }
        },
        DataSet::Other { .. } => true,
    }
}

/// Reads a mesh from a VTK data set: the first piece of an unstructured grid or
/// of poly data.
pub fn read_vtk<T: Copy>(data: &DataSet<T>) -> (r: Result<Mesh<T>, String>)
    requires
        vtk_readable(data@),
    ensures
        result_view(r) == read_vtk_result(data@),
        r matches Ok(m) ==> m.wf(),
{
    proof {
        lemma_read_mesh_separate(data@);
    }
    match data {
        DataSet::UnstructuredGrid { pieces } => {
            if pieces.len() == 0 {
                return Err(String::from_str("No pieces in UnstructuredGrid"));
            }
            match &pieces[0] {
                Piece::Inline(p) => process_unstructured_grid(p),
                Piece::Loaded(Ok(p)) => process_unstructured_grid(p),
                Piece::Loaded(Err(e)) => Err(join_text("Failed to convert loaded piece: ", e.as_str())),
                Piece::Source(_) => Err(
                    String::from_str("Referenced piece not loaded. Use load_all_pieces() first."),
                ),
            }
        },
        DataSet::PolyData { pieces } => {
            if pieces.len() == 0 {
                return Err(String::from_str("No pieces in PolyData"));
            }
            match &pieces[0] {
                Piece::Inline(p) => Ok(process_polydata(p)),
                Piece::Loaded(Ok(p)) => Ok(process_polydata(p)),
                Piece::Loaded(Err(e)) => Err(join_text("Failed to convert loaded piece: ", e.as_str())),
                Piece::Source(_) => Err(
                    String::from_str("Referenced piece not loaded. Use load_all_pieces() first."),
                ),
            }
        },
        DataSet::Other { description } => Err(
            join_text("Unsupported dataset type: ", description.as_str()),
        ),
    }
}

/// What a read mesh always is: its point, cell and field data each name every
/// array once, and its blocks have distinct names and none is empty.
pub open spec fn read_mesh_separate<T>(m: MeshView<T>) -> bool {
    &&& data_names_distinct(m)
    &&& forall|i: int, j: int| 0 <= i < j < m.cells.len() ==> m.cells[i].0 != m.cells[j].0
    &&& forall|i: int| 0 <= i < m.cells.len() ==> #[trigger] m.cells[i].1.len() > 0
}

proof fn lemma_mesh_from_cells_separate<T>(
    points: Seq<T>,
    labels: Seq<Seq<char>>,
    items: Seq<Seq<usize>>,
    attrs: AttributesView<T>,
)
    ensures
        read_mesh_separate(mesh_from_cells(points, labels, items, attrs)),
{
    lemma_from_pairs_distinct(point_pairs(attrs.point));
    lemma_from_pairs_distinct(cell_pairs(attrs.cell, grouped_positions(labels)));
    lemma_from_pairs_distinct(field_pairs(attrs.point + attrs.cell));
    lemma_grouped_blocks_separate(labels, items);
}

/// Every mesh that reading gives names each point, cell and field array once,
/// and holds blocks with distinct names of which none is empty.
pub proof fn lemma_read_mesh_separate<T>(data: DataSetView<T>)
    ensures
        read_vtk_result(data) matches Ok(m) ==> read_mesh_separate(m),
{
    match data {
        DataSetView::UnstructuredGrid { pieces } => {
            if pieces.len() > 0 {
                let p = match pieces[0] {
                    PieceView::Inline(p) => Some(p),
                    PieceView::Loaded(Ok(p)) => Some(p),
                    _ => None,
                };
                if let Some(p) = p {
                    let raw = topology_cells(p.cell_verts);
                    lemma_mesh_from_cells_separate(
                        p.points,
                        grid_labels(p.types),
                        grid_items(raw, p.types),
                        p.data,
                    );
                }
            }
        },
        DataSetView::PolyData { pieces } => {
            if pieces.len() > 0 {
                let p = match pieces[0] {
                    PieceView::Inline(p) => Some(p),
                    PieceView::Loaded(Ok(p)) => Some(p),
                    _ => None,
                };
                if let Some(p) = p {
                    lemma_mesh_from_cells_separate(
                        p.points,
                        polydata_labels(p),
                        polydata_items(p),
                        p.data,
                    );
                }
            }
        },
        DataSetView::Other { .. } => {},
    }
}

/// Strip triangles are read strip by strip in file order: the triangles of
/// strips one after another are those of the first strips followed by those of
/// the later ones, and one strip gives its own triangles.
pub proof fn lemma_strip_cells_in_order(a: Seq<Seq<usize>>, b: Seq<Seq<usize>>, strip: Seq<usize>)
    ensures
        strip_cells(a + b) == strip_cells(a) + strip_cells(b),
        strip_cells(seq![strip]) == strip_triangles(strip),
    decreases b.len(),
{
    if b.len() == 0 {
        assert(a + b =~= a);
        assert(strip_cells(a) + strip_cells(b) =~= strip_cells(a));
    } else {
        lemma_strip_cells_in_order(a, b.drop_last(), strip);
        assert((a + b).drop_last() =~= a + b.drop_last());
        assert((a + b).last() == b.last());
        assert(strip_cells(a) + strip_cells(b) =~= strip_cells(a) + strip_cells(b.drop_last())
            + strip_triangles(b.last()));
    }
    assert(seq![strip].drop_last() =~= Seq::<Seq<usize>>::empty());
    assert(seq![strip].last() == strip);
    assert(strip_cells(Seq::<Seq<usize>>::empty()) =~= Seq::<Seq<usize>>::empty());
    assert(strip_cells(seq![strip]) == strip_cells(seq![strip].drop_last()) + strip_triangles(
        strip,
    ));
    assert(strip_cells(seq![strip]) =~= strip_triangles(strip));
}

/// Reading uses the first piece only: a data set whose first piece is `p`
/// reads, and can be read, exactly as the data set holding `p` alone,
/// whatever pieces follow.
pub proof fn lemma_first_piece_read<T>(
    p: PieceView<UnstructuredGridPieceView<T>>,
    rest: Seq<PieceView<UnstructuredGridPieceView<T>>>,
    q: PieceView<PolyDataPieceView<T>>,
    rest_poly: Seq<PieceView<PolyDataPieceView<T>>>,
)
    ensures
        read_vtk_result(DataSetView::UnstructuredGrid { pieces: seq![p] + rest })
            == read_vtk_result(DataSetView::UnstructuredGrid { pieces: seq![p] }),
        vtk_readable(DataSetView::UnstructuredGrid { pieces: seq![p] + rest }) == vtk_readable(
            DataSetView::UnstructuredGrid { pieces: seq![p] },
        ),
        read_vtk_result(DataSetView::PolyData { pieces: seq![q] + rest_poly }) == read_vtk_result(
            DataSetView::PolyData { pieces: seq![q] },
        ),
        vtk_readable(DataSetView::PolyData { pieces: seq![q] + rest_poly }) == vtk_readable(
            DataSetView::PolyData { pieces: seq![q] },
        ),
{
    assert((seq![p] + rest)[0] == p);
    assert((seq![q] + rest_poly)[0] == q);
}

proof fn lemma_strip_cells_triangles(strips: Seq<Seq<usize>>)
    ensures
        forall|i: int|
            0 <= i < strip_cells(strips).len() ==> (#[trigger] strip_cells(strips)[i]).len() == 3,
    decreases strips.len(),
{
    if strips.len() > 0 {
        lemma_strip_cells_triangles(strips.drop_last());
        let prev = strip_cells(strips.drop_last());
        let last = strip_triangles(strips.last());
        assert forall|i: int| 0 <= i < strip_cells(strips).len() implies (#[trigger] strip_cells(
            strips,
        )[i]).len() == 3 by {
            if i >= prev.len() {
                assert(strip_cells(strips)[i] == last[i - prev.len()]);
            } else {
                assert(strip_cells(strips)[i] == prev[i]);
            }
        }
    }
}

/// The number of points that a block's name promises of each of its cells:
/// quads have four, triangles three, and polygons neither three nor four.
pub open spec fn name_fits_cell(name: Seq<char>, cell: Seq<usize>) -> bool {
    &&& name == "quad"@ ==> cell.len() == 4
    &&& name == "triangle"@ ==> cell.len() == 3
    &&& name == "polygon"@ ==> cell.len() != 3 && cell.len() != 4
}

proof fn lemma_polydata_labels_fit<T>(piece: PolyDataPieceView<T>)
    ensures
        polydata_labels(piece).len() == polydata_items(piece).len(),
        forall|p: int|
            0 <= p < polydata_labels(piece).len() ==> name_fits_cell(
                #[trigger] polydata_labels(piece)[p],
                polydata_items(piece)[p],
            ),
{
    reveal_strlit("vertex");
    reveal_strlit("line");
    reveal_strlit("quad");
    reveal_strlit("triangle");
    reveal_strlit("polygon");
    assert("line"@[0] != "quad"@[0]);
    let va = optional_topology_cells(piece.verts);
    let vb = optional_topology_cells(piece.lines);
    let vc = optional_topology_cells(piece.polys);
    let vd = strip_cells(optional_topology_cells(piece.strips));
    let la = repeat_label("vertex"@, va.len());
    let lb = repeat_label("line"@, vb.len());
    let lc = vc.map_values(|c: Seq<usize>| poly_label(c));
    let ld = repeat_label("triangle"@, vd.len());
    let labels = polydata_labels(piece);
    let items = polydata_items(piece);
    assert(labels == la + lb + lc + ld);
    assert(items == va + vb + vc + vd);
    lemma_strip_cells_triangles(optional_topology_cells(piece.strips));
    assert forall|p: int| 0 <= p < labels.len() implies name_fits_cell(
        #[trigger] labels[p],
        items[p],
    ) by {
        if p < la.len() {
            assert(labels[p] == "vertex"@);
        } else if p < la.len() + lb.len() {
            assert(labels[p] == "line"@);
        } else if p < la.len() + lb.len() + lc.len() {
            let k = p - la.len() - lb.len();
            assert(labels[p] == poly_label(vc[k]));
            assert(items[p] == vc[k]);
        } else {
            let k = p - la.len() - lb.len() - lc.len();
            assert(labels[p] == "triangle"@);
            assert(items[p] == vd[k]);
        }
    }
}

/// The name of every block read from poly data agrees with its cells' point
/// counts: each cell of the `quad` block has four points, each cell of the
/// `triangle` block three, and each cell of the `polygon` block neither three
/// nor four. (Its cells are at most `usize::MAX`, as in memory.)
pub proof fn lemma_polydata_block_shapes<T>(piece: PolyDataPieceView<T>)
    requires
        polydata_items(piece).len() <= usize::MAX,
    ensures
        forall|b: int, j: int|
            0 <= b < polydata_result(piece).cells.len() && 0 <= j < polydata_result(
                piece,
            ).cells[b].1.len() ==> name_fits_cell(
                polydata_result(piece).cells[b].0,
                #[trigger] polydata_result(piece).cells[b].1[j],
            ),
{
    let labels = polydata_labels(piece);
    let items = polydata_items(piece);
    let cells = polydata_result(piece).cells;
    lemma_polydata_labels_fit(piece);
    assert(cells == grouped_blocks(labels, items));
    assert forall|b: int, j: int| 0 <= b < cells.len() && 0 <= j < cells[b].1.len() implies name_fits_cell(
        cells[b].0,
        #[trigger] cells[b].1[j],
    ) by {
        let l = first_labels(labels)[b];
        lemma_positions_of(labels, l);
        assert(cells[b] == (l, items_of(labels, items, l)));
        let pos = positions_of(labels, l)[j];
        assert(cells[b].1[j] == items[pos as int]);
        assert(labels[pos as int] == l);
    }
}

} // verus!
