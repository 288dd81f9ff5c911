//! Cell topology: decoding the point numbers of cells, splitting triangle
//! strips, and reordering pixel and voxel points.
use crate::model::{optional_vertex_numbers, VertexNumbers, VertexNumbersView};
use vstd::prelude::*;

verus! {

/// Widens 32-bit point numbers.
pub open spec fn widen32(s: Seq<u32>) -> Seq<usize> {
    s.map_values(|x: u32| x as usize)
}

/// Converts 64-bit point numbers to `usize` (truncating where `usize` is narrower).
pub open spec fn widen64(s: Seq<u64>) -> Seq<usize> {
    s.map_values(|x: u64| x as usize)
}

/// A legacy vertex list is well formed when each count is followed by at least
/// that many point numbers, all the way to its end.
pub open spec fn legacy_well_formed(v: Seq<u32>) -> bool
    decreases v.len(),
{
    if v.len() == 0 {
        true
    } else if 1 + v[0] <= v.len() {
        legacy_well_formed(v.subrange(1 + v[0], v.len() as int))
    } else {
        false
    }
}

/// The cells of a legacy vertex list: each count `n` is followed by the `n`
/// point numbers of one cell.
pub open spec fn legacy_cells(v: Seq<u32>) -> Seq<Seq<usize>>
    decreases v.len(),
{
    if v.len() == 0 {
        seq![]
    } else if 1 + v[0] <= v.len() {
        seq![widen32(v.subrange(1, 1 + v[0]))] + legacy_cells(
            v.subrange(1 + v[0], v.len() as int),
        )
    } else {
        seq![]
    }
}

/// Where cell `k` of an offsets list starts: at the end of the previous cell.
pub open spec fn xml_start(offsets: Seq<u64>, k: int) -> int {
    if k == 0 {
        0
    } else {
        offsets[k - 1] as usize as int
    }
}

/// Offsets are well formed when they do not decrease and none passes the end
/// of the connectivity list.
pub open spec fn xml_well_formed(connectivity: Seq<u64>, offsets: Seq<u64>) -> bool {
    forall|k: int|
        0 <= k < offsets.len() ==> xml_start(offsets, k) <= #[trigger] offsets[k] as usize
            <= connectivity.len()
}

/// The cells of a connectivity list: cell `k` runs from the previous offset to
/// `offsets[k]`.
pub open spec fn xml_cells(connectivity: Seq<u64>, offsets: Seq<u64>) -> Seq<Seq<usize>> {
    Seq::new(
        offsets.len(),
        |k: int| widen64(connectivity.subrange(xml_start(offsets, k), offsets[k] as usize as int)),
    )
}

/// Whether the cells of vertex numbers can be decoded.
pub open spec fn topology_well_formed(vn: VertexNumbersView) -> bool {
    match vn {
        VertexNumbersView::Legacy { vertices, .. } => legacy_well_formed(vertices),
        VertexNumbersView::Xml { connectivity, offsets } => xml_well_formed(connectivity, offsets),
    }
}

/// The cells that vertex numbers describe.
pub open spec fn topology_cells(vn: VertexNumbersView) -> Seq<Seq<usize>> {
    match vn {
        VertexNumbersView::Legacy { vertices, .. } => legacy_cells(vertices),
        VertexNumbersView::Xml { connectivity, offsets } => xml_cells(connectivity, offsets),
    }
}

proof fn lemma_legacy_step(v: Seq<u32>, i: int)
    requires
        0 <= i < v.len(),
        1 + v[i] <= v.len() - i,
    ensures
        v.subrange(i, v.len() as int).subrange(1 + v[i], v.len() - i) =~= v.subrange(
            i + 1 + v[i],
            v.len() as int,
        ),
        v.subrange(i, v.len() as int).subrange(1, 1 + v[i]) =~= v.subrange(i + 1, i + 1 + v[i]),
        v.subrange(i, v.len() as int)[0] == v[i],
{
}

/// The point numbers `v[start..end]`, widened.
fn widen32_range(v: &Vec<u32>, start: usize, end: usize) -> (r: Vec<usize>)
    requires
        start <= end <= v.len(),
    ensures
        r@ == widen32(v@.subrange(start as int, end as int)),
{
    let mut r: Vec<usize> = Vec::new();
    let mut k = start;
    while k < end
        invariant
            start <= k <= end <= v.len(),
            r@ =~= widen32(v@.subrange(start as int, k as int)),
        decreases end - k,
    {
        r.push(v[k] as usize);
        k = k + 1;
    }
    r
}

/// The point numbers `v[start..end]`, converted to `usize`.
fn widen64_range(v: &Vec<u64>, start: usize, end: usize) -> (r: Vec<usize>)
    requires
        start <= end <= v.len(),
    ensures
        r@ == widen64(v@.subrange(start as int, end as int)),
{
    let mut r: Vec<usize> = Vec::new();
    let mut k = start;
    while k < end
        invariant
            start <= k <= end <= v.len(),
            r@ =~= widen64(v@.subrange(start as int, k as int)),
        decreases end - k,
    {
        r.push(#[verifier::truncate] (v[k] as usize));
        k = k + 1;
    }
    r
}

/// Decodes a legacy vertex list into cells.
fn legacy_to_cells(vertices: &Vec<u32>) -> (cells: Vec<Vec<usize>>)
    requires
        legacy_well_formed(vertices@),
    ensures
        cells.deep_view() == legacy_cells(vertices@),
{
    let mut cells: Vec<Vec<usize>> = Vec::new();
    let mut i: usize = 0;
    let len = vertices.len();
    assert(vertices@.subrange(0, len as int) =~= vertices@);
    while i < len
        invariant
            len == vertices@.len(),
            i <= len,
            legacy_well_formed(vertices@.subrange(i as int, len as int)),
            cells.deep_view() + legacy_cells(vertices@.subrange(i as int, len as int))
                =~= legacy_cells(vertices@),
        decreases len - i,
    {
        let n = vertices[i] as usize;
        proof {
            lemma_legacy_step(vertices@, i as int);
        }
        let cell = widen32_range(vertices, i + 1, i + 1 + n);
        let ghost before = cells.deep_view();
        assert(cell.deep_view() =~= cell@);
        cells.push(cell);
        assert(cells.deep_view() =~= before.push(cell@));
        i = i + 1 + n;
    }
    assert(vertices@.subrange(len as int, len as int) =~= Seq::<u32>::empty());
    cells
}

/// Decodes a connectivity list with its offsets into cells.
fn xml_to_cells(connectivity: &Vec<u64>, offsets: &Vec<u64>) -> (cells: Vec<Vec<usize>>)
    requires
        xml_well_formed(connectivity@, offsets@),
    ensures
        cells.deep_view() == xml_cells(connectivity@, offsets@),
{
    let mut cells: Vec<Vec<usize>> = Vec::new();
    let mut prev: usize = 0;
    let mut k: usize = 0;
    while k < offsets.len()
        invariant
            xml_well_formed(connectivity@, offsets@),
            k <= offsets.len(),
            prev as int == xml_start(offsets@, k as int),
            cells.deep_view() =~= xml_cells(connectivity@, offsets@).take(k as int),
        decreases offsets.len() - k,
    {
        let end = #[verifier::truncate] (offsets[k] as usize);
        assert(xml_start(offsets@, k as int) <= offsets@[k as int] as usize <= connectivity@.len());
        let cell = widen64_range(connectivity, prev, end);
        let ghost before = cells.deep_view();
        assert(cell.deep_view() =~= cell@);
        cells.push(cell);
        assert(cells.deep_view() =~= before.push(cell@));
        prev = end;
        k = k + 1;
    }
    cells
}

/// Decodes vertex numbers, in either layout, into the point numbers of each cell.
pub fn vertex_numbers_to_cells(vn: &VertexNumbers) -> (cells: Vec<Vec<usize>>)
    requires
        topology_well_formed(vn@),
    ensures
        cells.deep_view() == topology_cells(vn@),
{
    match vn {
        VertexNumbers::Legacy { vertices, .. } => legacy_to_cells(vertices),
        VertexNumbers::Xml { connectivity, offsets } => xml_to_cells(connectivity, offsets),
    }
}

/// Checks that a legacy vertex list is well formed.
fn legacy_check(vertices: &Vec<u32>) -> (r: bool)
    ensures
        r == legacy_well_formed(vertices@),
{
    let len = vertices.len();
    let mut i: usize = 0;
    assert(vertices@.subrange(0, len as int) =~= vertices@);
    while i < len
        invariant
            len == vertices@.len(),
            i <= len,
            legacy_well_formed(vertices@) == legacy_well_formed(
                vertices@.subrange(i as int, len as int),
            ),
        decreases len - i,
    {
        let n = vertices[i] as usize;
        assert(vertices@.subrange(i as int, len as int)[0] == vertices@[i as int]);
        if n >= len - i {
            return false;
        }
        proof {
            lemma_legacy_step(vertices@, i as int);
        }
        i = i + 1 + n;
    }
    assert(vertices@.subrange(len as int, len as int) =~= Seq::<u32>::empty());
    true
}

/// Checks that offsets are well formed for their connectivity list.
fn xml_check(connectivity: &Vec<u64>, offsets: &Vec<u64>) -> (r: bool)
    ensures
        r == xml_well_formed(connectivity@, offsets@),
{
    let mut prev: usize = 0;
    let mut k: usize = 0;
    while k < offsets.len()
        invariant
            k <= offsets.len(),
            prev as int == xml_start(offsets@, k as int),
            forall|j: int|
                0 <= j < k ==> xml_start(offsets@, j) <= #[trigger] offsets@[j] as usize
                    <= connectivity@.len(),
        decreases offsets.len() - k,
    {
        let end = #[verifier::truncate] (offsets[k] as usize);
        if end < prev || end > connectivity.len() {
            return false;
        }
        prev = end;
        k = k + 1;
    }
    true
}

/// Whether the cells of vertex numbers can be decoded: in the legacy layout
/// every count is followed by that many point numbers; in the offsets layout
/// the offsets never decrease and stay within the connectivity list.
pub fn vertex_numbers_well_formed(vn: &VertexNumbers) -> (r: bool)
    ensures
        r == topology_well_formed(vn@),
{
    match vn {
        VertexNumbers::Legacy { vertices, .. } => legacy_check(vertices),
        VertexNumbers::Xml { connectivity, offsets } => xml_check(connectivity, offsets),
    }
}

/// The cells of an optional topology of poly data; an absent topology has no cells.
pub open spec fn optional_topology_cells(vn: Option<VertexNumbersView>) -> Seq<Seq<usize>> {
    match vn {
        Some(v) => topology_cells(v),
        None => seq![],
    }
}

/// Whether an optional topology can be decoded.
pub open spec fn optional_topology_well_formed(vn: Option<VertexNumbersView>) -> bool {
    match vn {
        Some(v) => topology_well_formed(v),
        None => true,
    }
}

/// Decodes an optional topology of poly data; an absent one has no cells.
pub fn polydata_topology_to_cells(vn: &Option<VertexNumbers>) -> (cells: Vec<Vec<usize>>)
    requires
        optional_topology_well_formed(optional_vertex_numbers(*vn)),
    ensures
        cells.deep_view() == optional_topology_cells(optional_vertex_numbers(*vn)),
{
    match vn {
        Some(v) => vertex_numbers_to_cells(v),
        None => {
            let cells: Vec<Vec<usize>> = Vec::new();
            assert(cells.deep_view() =~= Seq::<Seq<usize>>::empty());
            cells
        },
    }
}

/// Triangle `i` of a strip: the points `i`, `i + 1`, `i + 2`, with the first
/// two swapped on odd triangles so that all triangles keep one orientation.
pub open spec fn strip_triangle(verts: Seq<usize>, i: int) -> Seq<usize> {
    if i % 2 == 0 {
        seq![verts[i], verts[i + 1], verts[i + 2]]
    } else {
        seq![verts[i + 1], verts[i], verts[i + 2]]
    }
}

/// The triangles of a triangle strip: one for each point after the second.
pub open spec fn strip_triangles(verts: Seq<usize>) -> Seq<Seq<usize>> {
    if verts.len() < 3 {
        seq![]
    } else {
        Seq::new((verts.len() - 2) as nat, |i: int| strip_triangle(verts, i))
    }
}

/// Splits a triangle strip into triangles of one orientation; a strip of fewer
/// than three points has none.
pub fn expand_triangle_strip(verts: &[usize]) -> (tris: Vec<Vec<usize>>)
    ensures
        tris.deep_view() == strip_triangles(verts@),
{
    let mut tris: Vec<Vec<usize>> = Vec::new();
    if verts.len() < 3 {
        assert(tris.deep_view() =~= strip_triangles(verts@));
        return tris;
    }
    let n = verts.len() - 2;
    let mut i: usize = 0;
    while i < n
        invariant
            n == verts@.len() - 2,
            i <= n,
            tris.deep_view() =~= Seq::new(i as nat, |j: int| strip_triangle(verts@, j)),
        decreases n - i,
    {
        let mut tri: Vec<usize> = Vec::new();
        if i % 2 == 0 {
            tri.push(verts[i]);
            tri.push(verts[i + 1]);
            tri.push(verts[i + 2]);
        } else {
            tri.push(verts[i + 1]);
            tri.push(verts[i]);
            tri.push(verts[i + 2]);
        }
        assert(tri.deep_view() =~= strip_triangle(verts@, i as int));
        let ghost before = tris.deep_view();
        tris.push(tri);
        assert(tris.deep_view() =~= before.push(strip_triangle(verts@, i as int)));
        i = i + 1;
    }
    tris
}

/// The hexahedron point order of a voxel: voxels number their top and bottom
/// faces row by row, hexahedra around the face, so points 2 and 3, and 6 and
/// 7, change places. Cells of another size are kept as they are.
pub open spec fn voxel_as_hexahedron(cell: Seq<usize>) -> Seq<usize> {
    if cell.len() == 8 {
        seq![cell[0], cell[1], cell[3], cell[2], cell[4], cell[5], cell[7], cell[6]]
    } else {
        cell
    }
}

/// The quad point order of a pixel: points 2 and 3 change places. Cells of
/// another size are kept as they are.
pub open spec fn pixel_as_quad(cell: Seq<usize>) -> Seq<usize> {
    if cell.len() == 4 {
        seq![cell[0], cell[1], cell[3], cell[2]]
    } else {
        cell
    }
}

/// Reorders the points of a voxel into hexahedron order.
pub fn voxel_to_hex_reorder(cell: &[usize]) -> (r: Vec<usize>)
    ensures
        r@ == voxel_as_hexahedron(cell@),
{
    if cell.len() == 8 {
        let mut r: Vec<usize> = Vec::new();
        r.push(cell[0]);
        r.push(cell[1]);
        r.push(cell[3]);
        r.push(cell[2]);
        r.push(cell[4]);
        r.push(cell[5]);
        r.push(cell[7]);
        r.push(cell[6]);
        assert(r@ =~= voxel_as_hexahedron(cell@));
        r
    } else {
        vstd::slice::slice_to_vec(cell)
    }
}

/// Reorders the points of a pixel into quad order.
pub fn pixel_to_quad_reorder(cell: &[usize]) -> (r: Vec<usize>)
    ensures
        r@ == pixel_as_quad(cell@),
{
    if cell.len() == 4 {
        let mut r: Vec<usize> = Vec::new();
        r.push(cell[0]);
        r.push(cell[1]);
        r.push(cell[3]);
        r.push(cell[2]);
        assert(r@ =~= pixel_as_quad(cell@));
        r
    } else {
        vstd::slice::slice_to_vec(cell)
    }
}

/// Reordering a voxel twice gives the cell back.
pub proof fn lemma_voxel_reorder_involution(cell: Seq<usize>)
    ensures
        voxel_as_hexahedron(voxel_as_hexahedron(cell)) == cell,
{
    assert(voxel_as_hexahedron(voxel_as_hexahedron(cell)) =~= cell);
}

/// Reordering a pixel twice gives the cell back.
pub proof fn lemma_pixel_reorder_involution(cell: Seq<usize>)
    ensures
        pixel_as_quad(pixel_as_quad(cell)) == cell,
{
    assert(pixel_as_quad(pixel_as_quad(cell)) =~= cell);
}

/// Whether triangle `t` runs from point `a` straight to point `b` along one of
/// its three edges, in its own order.
pub open spec fn runs_from_to(t: Seq<usize>, a: usize, b: usize) -> bool {
    ||| t[0] == a && t[1] == b
    ||| t[1] == a && t[2] == b
    ||| t[2] == a && t[0] == b
}

/// The triangles of a strip keep one orientation: a strip of `n >= 3` points
/// gives `n - 2` triangles; triangle `i` holds points `i` and `i + 1` in its
/// first two places (in either order) and point `i + 2` last; the first
/// triangle keeps the strip's order; and each two neighbouring triangles
/// share the edge between points `i + 1` and `i + 2` and run along it in
/// opposite directions. A strip of fewer points gives no triangle.
pub proof fn lemma_strip_orientation(verts: Seq<usize>)
    ensures
        verts.len() < 3 ==> strip_triangles(verts).len() == 0,
        verts.len() >= 3 ==> strip_triangles(verts).len() == verts.len() - 2,
        verts.len() >= 3 ==> strip_triangles(verts)[0] == seq![verts[0], verts[1], verts[2]],
        forall|i: int|
            0 <= i < strip_triangles(verts).len() ==> {
                let t = #[trigger] strip_triangles(verts)[i];
                &&& t.len() == 3
                &&& t[2] == verts[i + 2]
                &&& (t[0] == verts[i] && t[1] == verts[i + 1]) || (t[0] == verts[i + 1] && t[1]
                    == verts[i])
            },
        forall|i: int|
            0 <= i && i + 1 < strip_triangles(verts).len() ==> {
                let t = #[trigger] strip_triangles(verts)[i];
                let u = strip_triangles(verts)[i + 1];
                let a = verts[i + 1];
                let b = verts[i + 2];
                ||| runs_from_to(t, a, b) && runs_from_to(u, b, a)
                ||| runs_from_to(t, b, a) && runs_from_to(u, a, b)
            },
{
    let tris = strip_triangles(verts);
    assert forall|i: int| 0 <= i && i + 1 < tris.len() implies {
        let t = #[trigger] tris[i];
        let u = tris[i + 1];
        let a = verts[i + 1];
        let b = verts[i + 2];
        ||| runs_from_to(t, a, b) && runs_from_to(u, b, a)
        ||| runs_from_to(t, b, a) && runs_from_to(u, a, b)
    } by {
        if i % 2 == 0 {
            assert((i + 1) % 2 == 1);
        } else {
            assert((i + 1) % 2 == 0);
        }
    }
}

/// The point numbers of cells, cell after cell.
pub open spec fn cells_concat(cells: Seq<Seq<usize>>) -> Seq<usize>
    decreases cells.len(),
{
    if cells.len() == 0 {
        seq![]
    } else {
        cells_concat(cells.drop_last()) + cells.last()
    }
}

/// Offsets that never decrease, starting from zero, and never pass the end of
/// the connectivity list.
pub open spec fn offsets_in_order(connectivity: Seq<u64>, offsets: Seq<u64>) -> bool {
    &&& forall|k: int| 0 <= k < offsets.len() ==> #[trigger] offsets[k] <= connectivity.len()
    &&& forall|k: int| 0 < k < offsets.len() ==> offsets[k - 1] <= #[trigger] offsets[k]
}

proof fn lemma_offsets_lengths(connectivity: Seq<u64>, offsets: Seq<u64>)
    requires
        offsets_in_order(connectivity, offsets),
        connectivity.len() <= usize::MAX,
    ensures
        xml_well_formed(connectivity, offsets),
        forall|k: int|
            0 < k < offsets.len() ==> #[trigger] xml_start(offsets, k) == offsets[k - 1],
{
    assert forall|k: int| 0 < k < offsets.len() implies #[trigger] xml_start(offsets, k)
        == offsets[k - 1] by {
        assert(offsets[k - 1] <= connectivity.len());
    }
    assert forall|k: int| 0 <= k < offsets.len() implies xml_start(offsets, k) <= #[trigger] offsets[k]
        as usize <= connectivity.len() by {
        assert(offsets[k] <= connectivity.len());
        if k > 0 {
            assert(xml_start(offsets, k) == offsets[k - 1]);
        }
    }
}

#[verifier::spinoff_prover]
proof fn lemma_offsets_concat(connectivity: Seq<u64>, offsets: Seq<u64>)
    requires
        offsets_in_order(connectivity, offsets),
        connectivity.len() <= usize::MAX,
    ensures
        cells_concat(xml_cells(connectivity, offsets)) == widen64(
            connectivity.take(if offsets.len() == 0 { 0 } else { offsets.last() as int }),
        ),
    decreases offsets.len(),
{
    let cells = xml_cells(connectivity, offsets);
    if offsets.len() == 0 {
        assert(cells =~= Seq::<Seq<usize>>::empty());
        assert(widen64(connectivity.take(0)) =~= Seq::<usize>::empty());
    } else {
        let init = offsets.drop_last();
        assert(offsets_in_order(connectivity, init));
        lemma_offsets_concat(connectivity, init);
        lemma_offsets_lengths(connectivity, offsets);
        let ic = xml_cells(connectivity, init);
        assert(cells.drop_last() =~= ic) by {
            assert forall|k: int| 0 <= k < ic.len() implies #[trigger] ic[k] == cells[k] by {
                assert(xml_start(init, k) == xml_start(offsets, k));
            }
        }
        let start = if init.len() == 0 { 0 } else { init.last() as int };
        let end = offsets.last() as int;
        assert(offsets[offsets.len() - 1] <= connectivity.len());
        assert(start == xml_start(offsets, offsets.len() - 1));
        assert(cells.last() == widen64(connectivity.subrange(start, end)));
        assert(connectivity.take(end) =~= connectivity.take(start) + connectivity.subrange(
            start,
            end,
        ));
        assert(widen64(connectivity.take(end)) =~= widen64(connectivity.take(start)) + widen64(
            connectivity.subrange(start, end),
        ));
    }
}

/// Cells given by offsets split the connectivity list: there is one cell per
/// offset, cell `k` has `offsets[k] - offsets[k - 1]` points (`offsets[0]` for
/// the first), and the cells one after the other are the connectivity list up
/// to the last offset. (The connectivity list is one that memory can hold.)
pub proof fn lemma_offsets_partition(connectivity: Seq<u64>, offsets: Seq<u64>)
    requires
        offsets_in_order(connectivity, offsets),
        connectivity.len() <= usize::MAX,
    ensures
        xml_well_formed(connectivity, offsets),
        xml_cells(connectivity, offsets).len() == offsets.len(),
        offsets.len() > 0 ==> xml_cells(connectivity, offsets)[0].len() == offsets[0],
        forall|k: int|
            0 < k < offsets.len() ==> #[trigger] xml_cells(connectivity, offsets)[k].len()
                == offsets[k] - offsets[k - 1],
        cells_concat(xml_cells(connectivity, offsets)) == widen64(
            connectivity.take(if offsets.len() == 0 { 0 } else { offsets.last() as int }),
        ),
{
    lemma_offsets_lengths(connectivity, offsets);
    lemma_offsets_concat(connectivity, offsets);
    let cells = xml_cells(connectivity, offsets);
    if offsets.len() > 0 {
        assert(offsets[0] <= connectivity.len());
    }
    assert forall|k: int| 0 < k < offsets.len() implies #[trigger] cells[k].len() == offsets[k]
        - offsets[k - 1] by {
        assert(xml_start(offsets, k) == offsets[k - 1]);
        assert(offsets[k] <= connectivity.len());
    }
}

} // verus!
