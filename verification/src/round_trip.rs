//! Writing a mesh and reading the written data set back.
use crate::assoc::{assoc_from_pairs, keys_distinct, lemma_from_distinct_pairs};
use crate::cell_types::{cell_type_of_name, lemma_name_of_parsed_type};
use crate::grouping::{
    first_labels, grouped_blocks, grouped_positions, items_of, lemma_first_labels_distinct,
    lemma_positions_of, positions_of,
};
use crate::mesh::{data_names_distinct, MeshView};
use crate::model::{elem_num_comp, AttributeView, CellType};
use crate::read::{
    cell_chunk, cell_pairs, field_array_name, field_pairs, gather_cells, grid_items, grid_labels,
    lemma_field_pairs_concat, point_pairs, points_of, read_vtk_result, reordered_cell, vtk_readable,
};
use crate::topology::{legacy_cells, legacy_well_formed, widen32};
use crate::write::{
    block_cells, block_types, cell_attribute_views, components_per_element, field_attribute_views,
    field_name, first_unknown, flat_points, flatten_blocks, legacy_cell, legacy_encode,
    point_attribute_views, scalars_elem, write_vtk_result,
};
use vstd::prelude::*;

verus! {

/// A cell whose point count and point numbers fit in 32 bits.
pub open spec fn cell_fits_u32(cell: Seq<usize>) -> bool {
    &&& cell.len() <= u32::MAX
    &&& forall|j: int| 0 <= j < cell.len() ==> #[trigger] cell[j] <= u32::MAX
}

/// Cells that each fit in 32 bits.
pub open spec fn cells_fit_u32(cells: Seq<Seq<usize>>) -> bool {
    forall|i: int| 0 <= i < cells.len() ==> #[trigger] cell_fits_u32(cells[i])
}

/// The names of blocks.
pub open spec fn block_names(blocks: Seq<(Seq<char>, Seq<Seq<usize>>)>) -> Seq<Seq<char>> {
    blocks.map_values(|b: (Seq<char>, Seq<Seq<usize>>)| b.0)
}

/// Blocks that reading gives back as they are: each names a cell type, no two
/// share a name, and none is empty.
pub open spec fn blocks_separate(blocks: Seq<(Seq<char>, Seq<Seq<usize>>)>) -> bool {
    &&& first_unknown(blocks) is None
    &&& forall|i: int, j: int| 0 <= i < j < blocks.len() ==> blocks[i].0 != blocks[j].0
    &&& forall|i: int| 0 <= i < blocks.len() ==> #[trigger] blocks[i].1.len() > 0
}

/// Where the cells of block `b` start among the cells of all blocks.
pub open spec fn block_start(blocks: Seq<(Seq<char>, Seq<Seq<usize>>)>, b: int) -> nat {
    block_cells(blocks.take(b)).len()
}

/// The run of positions `s`, `s + 1`, ..., `s + n - 1`.
pub open spec fn position_run(s: nat, n: nat) -> Seq<usize> {
    Seq::new(n, |j: int| (s + j) as usize)
}

proof fn lemma_legacy_encode_concat(a: Seq<Seq<usize>>, b: Seq<Seq<usize>>)
    ensures
        legacy_encode(a + b) == legacy_encode(a) + legacy_encode(b),
    decreases b.len(),
{
    if b.len() == 0 {
        assert(a + b =~= a);
        assert(legacy_encode(a) + legacy_encode(b) =~= legacy_encode(a));
    } else {
        lemma_legacy_encode_concat(a, b.drop_last());
        assert((a + b).drop_last() =~= a + b.drop_last());
        assert((a + b).last() == b.last());
        assert(legacy_encode(a) + legacy_encode(b) =~= legacy_encode(a) + legacy_encode(
            b.drop_last(),
        ) + legacy_cell(b.last()));
    }
}

/// Decoding the legacy layout of cells that fit in 32 bits gives the cells back.
pub proof fn lemma_legacy_round_trip(cells: Seq<Seq<usize>>)
    requires
        cells_fit_u32(cells),
    ensures
        legacy_well_formed(legacy_encode(cells)),
        legacy_cells(legacy_encode(cells)) == cells,
    decreases cells.len(),
{
    if cells.len() > 0 {
        let c = cells[0];
        let rest = cells.drop_first();
        assert(cells_fit_u32(rest)) by {
            assert forall|i: int| 0 <= i < rest.len() implies #[trigger] cell_fits_u32(rest[i]) by {
                assert(rest[i] == cells[i + 1]);
            }
        }
        lemma_legacy_round_trip(rest);
        assert(cells =~= seq![c] + rest);
        lemma_legacy_encode_concat(seq![c], rest);
        assert(seq![c].drop_last() =~= Seq::<Seq<usize>>::empty());
        assert(seq![c].last() == c);
        assert(legacy_encode(Seq::<Seq<usize>>::empty()) =~= Seq::<u32>::empty());
        assert(legacy_encode(seq![c]) =~= legacy_cell(c));
        assert(cell_fits_u32(c));
        let v = legacy_encode(cells);
        let lc = legacy_cell(c);
        assert(v == lc + legacy_encode(rest));
        assert(v[0] == c.len());
        assert(v.subrange(1 + v[0], v.len() as int) =~= legacy_encode(rest));
        assert(widen32(v.subrange(1, 1 + v[0])) =~= c);
    }
}

proof fn lemma_types_len(blocks: Seq<(Seq<char>, Seq<Seq<usize>>)>)
    ensures
        block_types(blocks).len() == block_cells(blocks).len(),
    decreases blocks.len(),
{
    if blocks.len() > 0 {
        lemma_types_len(blocks.drop_last());
    }
}

proof fn lemma_no_unknown_prefix(blocks: Seq<(Seq<char>, Seq<Seq<usize>>)>)
    requires
        blocks.len() > 0,
        first_unknown(blocks) is None,
    ensures
        first_unknown(blocks.drop_last()) is None,
        cell_type_of_name(blocks.last().0) is Some,
{
}

/// The type of each written cell is neither a pixel nor a voxel.
proof fn lemma_types_not_reordered(blocks: Seq<(Seq<char>, Seq<Seq<usize>>)>)
    requires
        first_unknown(blocks) is None,
    ensures
        forall|i: int|
            0 <= i < block_types(blocks).len() ==> {
                let t = #[trigger] block_types(blocks)[i];
                t != CellType::Voxel && t != CellType::Pixel
            },
    decreases blocks.len(),
{
    if blocks.len() > 0 {
        lemma_no_unknown_prefix(blocks);
        lemma_types_not_reordered(blocks.drop_last());
        let prev = block_types(blocks.drop_last());
        assert forall|i: int| 0 <= i < block_types(blocks).len() implies {
            let t = #[trigger] block_types(blocks)[i];
            t != CellType::Voxel && t != CellType::Pixel
        } by {
            if i >= prev.len() {
                let name = blocks.last().0;
                assert(cell_type_of_name(name).unwrap() != CellType::Voxel);
            } else {
                assert(block_types(blocks)[i] == prev[i]);
            }
        }
    }
}

/// The labels of the written cells: each block's name, once per cell.
proof fn lemma_labels_step(blocks: Seq<(Seq<char>, Seq<Seq<usize>>)>)
    requires
        blocks.len() > 0,
        first_unknown(blocks) is None,
    ensures
        grid_labels(block_types(blocks)) == grid_labels(block_types(blocks.drop_last())) + Seq::new(
            blocks.last().1.len(),
            |i: int| blocks.last().0,
        ),
{
    let name = blocks.last().0;
    lemma_name_of_parsed_type(name);
    assert(grid_labels(block_types(blocks)) =~= grid_labels(block_types(blocks.drop_last()))
        + Seq::new(blocks.last().1.len(), |i: int| name));
}

/// Decoded cells as read are the written cells.
proof fn lemma_items(blocks: Seq<(Seq<char>, Seq<Seq<usize>>)>)
    requires
        first_unknown(blocks) is None,
    ensures
        grid_items(block_cells(blocks), block_types(blocks)) == block_cells(blocks),
{
    lemma_types_len(blocks);
    lemma_types_not_reordered(blocks);
    let types = block_types(blocks);
    let cells = block_cells(blocks);
    assert forall|i: int| 0 <= i < cells.len() implies #[trigger] grid_items(cells, types)[i]
        == cells[i] by {
        let t = types[i];
        assert(t != CellType::Voxel && t != CellType::Pixel);
        assert(reordered_cell(t, cells[i]) == cells[i]);
    }
    assert(grid_items(cells, types) =~= cells);
}

proof fn lemma_positions_absent(labels: Seq<Seq<char>>, x: Seq<char>)
    requires
        !labels.contains(x),
    ensures
        positions_of(labels, x) == Seq::<usize>::empty(),
    decreases labels.len(),
{
    if labels.len() > 0 {
        assert(labels.drop_last().contains(x) ==> labels.contains(x)) by {
            if labels.drop_last().contains(x) {
                let k = choose|k: int| 0 <= k < labels.drop_last().len() && labels.drop_last()[k] == x;
                assert(labels[k] == x);
            }
        }
        assert(labels[labels.len() - 1] == labels.last());
        lemma_positions_absent(labels.drop_last(), x);
    }
}

proof fn lemma_positions_repeat(pre: Seq<Seq<char>>, x: Seq<char>, n: nat, l: Seq<char>)
    ensures
        positions_of(pre + Seq::new(n, |i: int| x), l) == if l == x {
            positions_of(pre, l) + position_run(pre.len(), n)
        } else {
            positions_of(pre, l)
        },
    decreases n,
{
    let post = pre + Seq::new(n, |i: int| x);
    if n == 0 {
        assert(post =~= pre);
        assert(positions_of(pre, l) + position_run(pre.len(), n) =~= positions_of(pre, l));
    } else {
        lemma_positions_repeat(pre, x, (n - 1) as nat, l);
        assert(post.drop_last() =~= pre + Seq::new((n - 1) as nat, |i: int| x));
        assert(post.last() == x);
        assert(position_run(pre.len(), n) =~= position_run(pre.len(), (n - 1) as nat).push(
            (post.len() - 1) as usize,
        ));
    }
}

proof fn lemma_first_labels_repeat(pre: Seq<Seq<char>>, x: Seq<char>, n: nat)
    requires
        n > 0,
        !pre.contains(x),
    ensures
        first_labels(pre + Seq::new(n, |i: int| x)) == first_labels(pre).push(x),
    decreases n,
{
    let post = pre + Seq::new(n, |i: int| x);
    lemma_first_labels_distinct(pre);
    assert(post.last() == x);
    if n == 1 {
        assert(post.drop_last() =~= pre);
    } else {
        lemma_first_labels_repeat(pre, x, (n - 1) as nat);
        assert(post.drop_last() =~= pre + Seq::new((n - 1) as nat, |i: int| x));
        assert(first_labels(pre).push(x)[first_labels(pre).len() as int] == x);
    }
}

/// The labels of the written cells: the name of each cell's type.
pub open spec fn written_labels(blocks: Seq<(Seq<char>, Seq<Seq<usize>>)>) -> Seq<Seq<char>> {
    grid_labels(block_types(blocks))
}

proof fn lemma_separate_prefix(blocks: Seq<(Seq<char>, Seq<Seq<usize>>)>)
    requires
        blocks.len() > 0,
        blocks_separate(blocks),
    ensures
        blocks_separate(blocks.drop_last()),
        block_cells(blocks.drop_last()).len() <= block_cells(blocks).len(),
        forall|i: int| 0 <= i < blocks.len() - 1 ==> #[trigger] blocks[i].0 != blocks.last().0,
        !block_names(blocks.drop_last()).contains(blocks.last().0),
{
    let pre = blocks.drop_last();
    lemma_no_unknown_prefix(blocks);
    assert forall|i: int| 0 <= i < pre.len() implies #[trigger] pre[i].1.len() > 0 by {
        assert(pre[i] == blocks[i]);
    }
    assert forall|i: int, j: int| 0 <= i < j < pre.len() implies pre[i].0 != pre[j].0 by {
        assert(pre[i] == blocks[i] && pre[j] == blocks[j]);
    }
    assert forall|i: int| 0 <= i < blocks.len() - 1 implies #[trigger] blocks[i].0
        != blocks.last().0 by {
        assert(blocks[i].0 != blocks[blocks.len() - 1].0);
    }
    if block_names(pre).contains(blocks.last().0) {
        let k = choose|k: int| 0 <= k < block_names(pre).len() && block_names(pre)[k] == blocks.last().0;
        assert(blocks[k].0 == blocks.last().0);
    }
}

/// Grouping the written cells by their labels gives the blocks back, and the
/// positions of each block's cells are one run starting where the block starts.
#[verifier::spinoff_prover]
pub proof fn lemma_grouping(blocks: Seq<(Seq<char>, Seq<Seq<usize>>)>)
    requires
        blocks_separate(blocks),
        block_cells(blocks).len() <= usize::MAX,
    ensures
        written_labels(blocks).len() == block_cells(blocks).len(),
        first_labels(written_labels(blocks)) == block_names(blocks),
        grouped_blocks(written_labels(blocks), block_cells(blocks)) == blocks,
        grouped_positions(written_labels(blocks)).len() == blocks.len(),
        forall|b: int|
            0 <= b < blocks.len() ==> #[trigger] grouped_positions(written_labels(blocks))[b]
                == position_run(block_start(blocks, b), blocks[b].1.len()),
    decreases blocks.len(),
{
    lemma_types_len(blocks);
    if blocks.len() == 0 {
        assert(written_labels(blocks) =~= Seq::<Seq<char>>::empty());
        assert(block_names(blocks) =~= Seq::<Seq<char>>::empty());
        assert(grouped_blocks(written_labels(blocks), block_cells(blocks)) =~= blocks);
    } else {
        let pre = blocks.drop_last();
        let x = blocks.last().0;
        let cs = blocks.last().1;
        let n = cs.len();
        lemma_separate_prefix(blocks);
        lemma_grouping(pre);
        lemma_types_len(pre);
        lemma_labels_step(blocks);
        let lp = written_labels(pre);
        let lb = written_labels(blocks);
        let cp = block_cells(pre);
        let cb = block_cells(blocks);
        assert(lb == lp + Seq::new(n, |i: int| x));
        assert(cb == cp + cs);
        lemma_first_labels_distinct(lp);
        assert(!lp.contains(x)) by {
            assert(first_labels(lp).contains(x) <==> lp.contains(x));
        }
        lemma_first_labels_repeat(lp, x, n);
        assert(first_labels(lb) =~= block_names(blocks));
        lemma_positions_absent(lp, x);
        lemma_positions_repeat(lp, x, n, x);
        assert(block_start(blocks, pre.len() as int) == cp.len()) by {
            assert(blocks.take(pre.len() as int) =~= pre);
        }
        assert forall|b: int| 0 <= b < blocks.len() implies #[trigger] grouped_positions(lb)[b]
            == position_run(block_start(blocks, b), blocks[b].1.len()) by {
            if b < pre.len() {
                let l = pre[b].0;
                assert(blocks[b] == pre[b]);
                lemma_positions_repeat(lp, x, n, l);
                assert(blocks.take(b) =~= pre.take(b));
                assert(grouped_positions(lb)[b] == positions_of(lb, block_names(blocks)[b]));
                assert(grouped_positions(lp)[b] == positions_of(lp, block_names(pre)[b]));
            } else {
                assert(positions_of(lp, x) + position_run(lp.len(), n) =~= position_run(lp.len(), n));
            }
        }
        assert forall|b: int| 0 <= b < blocks.len() implies #[trigger] grouped_blocks(lb, cb)[b]
            == blocks[b] by {
            let l = blocks[b].0;
            assert(grouped_blocks(lb, cb)[b] == (l, items_of(lb, cb, l)));
            if b < pre.len() {
                assert(blocks[b] == pre[b]);
                lemma_positions_repeat(lp, x, n, l);
                lemma_positions_of(lp, l);
                assert(grouped_blocks(lp, cp)[b] == (l, items_of(lp, cp, l)));
                assert(items_of(lb, cb, l) =~= items_of(lp, cp, l));
            } else {
                assert(items_of(lb, cb, l) =~= cs);
            }
        }
        assert(grouped_blocks(lb, cb) =~= blocks);
    }
}

/// The number of cells over blocks of the given sizes.
pub open spec fn sizes_total(sizes: Seq<nat>) -> nat
    decreases sizes.len(),
{
    if sizes.len() == 0 {
        0
    } else {
        sizes_total(sizes.drop_last()) + sizes.last()
    }
}

/// The cell positions of blocks of the given sizes laid one after the other:
/// block `b` holds the run that starts after the cells of the blocks before it.
pub open spec fn block_runs(sizes: Seq<nat>) -> Seq<Seq<usize>> {
    Seq::new(sizes.len(), |b: int| position_run(sizes_total(sizes.take(b)), sizes[b]))
}

/// The number of cells of each block.
pub open spec fn block_sizes(blocks: Seq<(Seq<char>, Seq<Seq<usize>>)>) -> Seq<nat> {
    blocks.map_values(|b: (Seq<char>, Seq<Seq<usize>>)| b.1.len())
}

/// Per-block values holding `c` values for each cell of each block, for blocks
/// of the given sizes.
pub open spec fn values_per_cell<T>(per_block: Seq<Seq<T>>, sizes: Seq<nat>, c: nat) -> bool {
    &&& per_block.len() == sizes.len()
    &&& forall|b: int| 0 <= b < sizes.len() ==> #[trigger] per_block[b].len() == c * sizes[b]
}

/// Per-block values holding the same number of values, at most `u32::MAX`,
/// for each cell of each block.
pub open spec fn fixed_values_per_cell<T>(per_block: Seq<Seq<T>>, sizes: Seq<nat>) -> bool {
    exists|c: nat| c <= u32::MAX && #[trigger] values_per_cell(per_block, sizes, c)
}

/// Cell data every array of which holds a fixed number of values for each cell.
pub open spec fn cell_data_fits<T>(cell_data: Seq<(Seq<char>, Seq<Seq<T>>)>, sizes: Seq<nat>) -> bool {
    forall|k: int| 0 <= k < cell_data.len() ==> #[trigger] fixed_values_per_cell(cell_data[k].1, sizes)
}

proof fn lemma_sizes_step(sizes: Seq<nat>, b: int)
    requires
        0 <= b < sizes.len(),
    ensures
        sizes_total(sizes.take(b + 1)) == sizes_total(sizes.take(b)) + sizes[b],
{
    assert(sizes.take(b + 1).drop_last() =~= sizes.take(b));
    assert(sizes.take(b + 1).last() == sizes[b]);
}

proof fn lemma_sizes_prefix_bound(sizes: Seq<nat>, b: int)
    requires
        0 <= b <= sizes.len(),
    ensures
        sizes_total(sizes.take(b)) <= sizes_total(sizes),
    decreases sizes.len() - b,
{
    if b < sizes.len() {
        lemma_sizes_step(sizes, b);
        lemma_sizes_prefix_bound(sizes, b + 1);
    } else {
        assert(sizes.take(b) =~= sizes);
    }
}

proof fn lemma_flatten_concat<T>(a: Seq<Seq<T>>, b: Seq<Seq<T>>)
    ensures
        flatten_blocks(a + b) == flatten_blocks(a) + flatten_blocks(b),
    decreases b.len(),
{
    if b.len() == 0 {
        assert(a + b =~= a);
        assert(flatten_blocks(a) + flatten_blocks(b) =~= flatten_blocks(a));
    } else {
        lemma_flatten_concat(a, b.drop_last());
        assert((a + b).drop_last() =~= a + b.drop_last());
        assert((a + b).last() == b.last());
        assert(flatten_blocks(a) + flatten_blocks(b) =~= flatten_blocks(a) + flatten_blocks(
            b.drop_last(),
        ) + b.last());
    }
}

proof fn lemma_flatten_prefix_len<T>(per_block: Seq<Seq<T>>, sizes: Seq<nat>, c: nat, b: int)
    requires
        values_per_cell(per_block, sizes, c),
        0 <= b <= sizes.len(),
    ensures
        flatten_blocks(per_block.take(b)).len() == c * sizes_total(sizes.take(b)),
    decreases b,
{
    if b > 0 {
        lemma_flatten_prefix_len(per_block, sizes, c, b - 1);
        lemma_sizes_step(sizes, b - 1);
        assert(per_block.take(b).drop_last() =~= per_block.take(b - 1));
        assert(per_block.take(b).last() == per_block[b - 1]);
        let s = sizes_total(sizes.take(b - 1));
        let n = sizes[b - 1];
        assert(per_block[b - 1].len() == c * n);
        assert(c * s + c * n == c * (s + n)) by (nonlinear_arith);
    } else {
        assert(sizes.take(0) =~= Seq::<nat>::empty());
        assert(per_block.take(0) =~= Seq::<Seq<T>>::empty());
        assert(c * 0 == 0);
    }
}

proof fn lemma_flatten_block<T>(per_block: Seq<Seq<T>>, sizes: Seq<nat>, c: nat, b: int)
    requires
        values_per_cell(per_block, sizes, c),
        0 <= b < sizes.len(),
    ensures
        flatten_blocks(per_block).subrange(
            (c * sizes_total(sizes.take(b))) as int,
            (c * sizes_total(sizes.take(b)) + per_block[b].len()) as int,
        ) == per_block[b],
{
    lemma_flatten_prefix_len(per_block, sizes, c, b);
    let head = per_block.take(b + 1);
    let tail = per_block.skip(b + 1);
    assert(per_block =~= head + tail);
    lemma_flatten_concat(head, tail);
    assert(head.drop_last() =~= per_block.take(b));
    assert(head.last() == per_block[b]);
    let f = flatten_blocks(per_block.take(b));
    assert(flatten_blocks(per_block) == f + per_block[b] + flatten_blocks(tail));
    assert(flatten_blocks(per_block).subrange(f.len() as int, (f.len() + per_block[b].len()) as int)
        =~= per_block[b]);
}

proof fn lemma_gather_run<T>(data: Seq<T>, nc: nat, s: nat, n: nat)
    requires
        (s + n) * nc <= data.len(),
        s + n <= usize::MAX,
    ensures
        gather_cells(data, nc as int, position_run(s, n)) == data.subrange(
            (s * nc) as int,
            ((s + n) * nc) as int,
        ),
    decreases n,
{
    if n == 0 {
        assert(position_run(s, n) =~= Seq::<usize>::empty());
        assert(data.subrange((s * nc) as int, ((s + n) * nc) as int) =~= Seq::<T>::empty());
    } else {
        let m = (n - 1) as nat;
        assert((s + m) * nc <= (s + n) * nc) by (nonlinear_arith)
            requires
                m < n,
        ;
        assert(s * nc <= (s + m) * nc) by (nonlinear_arith);
        assert((s + m) * nc + nc == (s + n) * nc) by (nonlinear_arith)
            requires
                m + 1 == n,
        ;
        lemma_gather_run(data, nc, s, m);
        assert(position_run(s, n).drop_last() =~= position_run(s, m));
        assert(position_run(s, n).last() == s + m);
        let lo = (s * nc) as int;
        let mid = ((s + m) * nc) as int;
        let hi = ((s + n) * nc) as int;
        assert(cell_chunk(data, nc as int, (s + m) as int) =~= data.subrange(mid, hi));
        assert(data.subrange(lo, hi) =~= data.subrange(lo, mid) + data.subrange(mid, hi));
    }
}

proof fn lemma_gather_empty<T>(data: Seq<T>, nc: int, idx: Seq<usize>)
    requires
        data.len() == 0,
        nc >= 1,
    ensures
        gather_cells(data, nc, idx) == Seq::<T>::empty(),
    decreases idx.len(),
{
    if idx.len() > 0 {
        lemma_gather_empty(data, nc, idx.drop_last());
        let i = idx.last() as int;
        assert(i * nc + nc > 0) by (nonlinear_arith)
            requires
                i >= 0,
                nc >= 1,
        ;
        assert(gather_cells(data, nc, idx) =~= Seq::<T>::empty());
    }
}

/// The cell values read back for one written array are its per-block values.
#[verifier::spinoff_prover]
proof fn lemma_cell_array<T>(per_block: Seq<Seq<T>>, sizes: Seq<nat>, c: nat)
    requires
        sizes_total(sizes) <= usize::MAX,
        values_per_cell(per_block, sizes, c),
        c <= u32::MAX,
    ensures
        block_runs(sizes).map_values(
            |p: Seq<usize>|
                gather_cells(
                    flatten_blocks(per_block),
                    elem_num_comp(
                        scalars_elem(
                            components_per_element(
                                flatten_blocks(per_block).len(),
                                sizes_total(sizes),
                            ),
                        ),
                    ) as int,
                    p,
                ),
        ) == per_block,
{
    let data = flatten_blocks(per_block);
    let total = sizes_total(sizes);
    let nc = elem_num_comp(scalars_elem(components_per_element(data.len(), total)));
    lemma_flatten_prefix_len(per_block, sizes, c, sizes.len() as int);
    assert(sizes.take(sizes.len() as int) =~= sizes);
    assert(per_block.take(sizes.len() as int) =~= per_block);
    assert(data.len() == c * total);
    let runs = block_runs(sizes);
    let full = c > 0 && total > 0;
    if full {
        assert((c * total) / total == c) by (nonlinear_arith)
            requires
                total > 0,
        ;
        assert(nc == c);
    } else {
        assert(c * total == 0) by (nonlinear_arith)
            requires
                c == 0 || total == 0,
        ;
        assert(data.len() == 0);
        assert(nc == 1);
    }
    assert forall|b: int| 0 <= b < sizes.len() implies gather_cells(
        data,
        nc as int,
        #[trigger] runs[b],
    ) == per_block[b] by {
        let s = sizes_total(sizes.take(b));
        let n = sizes[b];
        lemma_sizes_step(sizes, b);
        lemma_sizes_prefix_bound(sizes, b + 1);
        assert(s + n <= total);
        if full {
            assert(c * (s + n) <= c * total) by (nonlinear_arith)
                requires
                    s + n <= total,
            ;
            assert((s + n) * c == c * (s + n)) by (nonlinear_arith);
            assert(s * c == c * s) by (nonlinear_arith);
            lemma_gather_run(data, c, s, n);
            lemma_flatten_block(per_block, sizes, c, b);
            assert(c * s + per_block[b].len() == c * (s + n)) by (nonlinear_arith)
                requires
                    per_block[b].len() == c * n,
            ;
        } else {
            lemma_gather_empty(data, nc as int, runs[b]);
            assert(c * n == 0) by (nonlinear_arith)
                requires
                    c == 0 || n == 0,
            ;
            assert(per_block[b] =~= Seq::<T>::empty());
        }
    }
    assert(runs.map_values(|p: Seq<usize>| gather_cells(data, nc as int, p)) =~= per_block);
}

proof fn lemma_cell_pairs<T>(cell_data: Seq<(Seq<char>, Seq<Seq<T>>)>, sizes: Seq<nat>)
    requires
        sizes_total(sizes) <= usize::MAX,
        cell_data_fits(cell_data, sizes),
    ensures
        cell_pairs(cell_attribute_views(cell_data, sizes_total(sizes)), block_runs(sizes))
            == cell_data,
    decreases cell_data.len(),
{
    let total = sizes_total(sizes);
    let runs = block_runs(sizes);
    let attrs = cell_attribute_views(cell_data, total);
    if cell_data.len() == 0 {
        assert(attrs =~= Seq::<crate::model::AttributeView<T>>::empty());
        assert(cell_pairs(attrs, runs) =~= cell_data);
    } else {
        let init = cell_data.drop_last();
        assert(cell_data_fits(init, sizes)) by {
            assert forall|k: int| 0 <= k < init.len() implies #[trigger] fixed_values_per_cell(
                init[k].1,
                sizes,
            ) by {
                assert(init[k] == cell_data[k]);
            }
        }
        lemma_cell_pairs(init, sizes);
        assert(attrs.drop_last() =~= cell_attribute_views(init, total));
        let last = cell_data.last();
        assert(fixed_values_per_cell(cell_data[cell_data.len() - 1].1, sizes));
        let c = choose|c: nat| c <= u32::MAX && #[trigger] values_per_cell(last.1, sizes, c);
        lemma_cell_array(last.1, sizes, c);
        assert(cell_pairs(attrs, runs) =~= cell_data);
    }
}

/// Extracting the cell attributes that writing builds from cell data gives the
/// cell data back, when each array holds for every block the same number of
/// values for each cell and the blocks' cells are read at the positions they
/// were written at: block after block, each a run after the blocks before it.
/// Names are distinct, as they are in a mesh's data.
pub proof fn lemma_cell_data_round_trip<T>(
    cell_data: Seq<(Seq<char>, Seq<Seq<T>>)>,
    sizes: Seq<nat>,
)
    requires
        keys_distinct(cell_data),
        cell_data_fits(cell_data, sizes),
        sizes_total(sizes) <= usize::MAX,
    ensures
        assoc_from_pairs(
            cell_pairs(cell_attribute_views(cell_data, sizes_total(sizes)), block_runs(sizes)),
        ) == cell_data,
{
    lemma_cell_pairs(cell_data, sizes);
    lemma_from_distinct_pairs(cell_data);
}

/// The written blocks, as sizes: their runs are where reading finds their
/// cells, and their total is the number of written cells.
proof fn lemma_written_runs(blocks: Seq<(Seq<char>, Seq<Seq<usize>>)>)
    requires
        blocks_separate(blocks),
        block_cells(blocks).len() <= usize::MAX,
    ensures
        sizes_total(block_sizes(blocks)) == block_cells(blocks).len(),
        grouped_positions(written_labels(blocks)) == block_runs(block_sizes(blocks)),
{
    let sz = block_sizes(blocks);
    lemma_grouping(blocks);
    assert forall|b: int| 0 <= b <= blocks.len() implies sizes_total(#[trigger] sz.take(b))
        == block_start(blocks, b) by {
        lemma_block_start_sizes(blocks, b);
    }
    assert(sz.take(blocks.len() as int) =~= sz);
    assert(blocks.take(blocks.len() as int) =~= blocks);
    assert(grouped_positions(written_labels(blocks)) =~= block_runs(sz));
}

proof fn lemma_block_start_sizes(blocks: Seq<(Seq<char>, Seq<Seq<usize>>)>, b: int)
    requires
        0 <= b <= blocks.len(),
    ensures
        sizes_total(block_sizes(blocks).take(b)) == block_start(blocks, b),
    decreases b,
{
    if b > 0 {
        lemma_block_start_sizes(blocks, b - 1);
        lemma_sizes_step(block_sizes(blocks), b - 1);
        assert(blocks.take(b).drop_last() =~= blocks.take(b - 1));
        assert(blocks.take(b).last() == blocks[b - 1]);
    } else {
        assert(block_sizes(blocks).take(0) =~= Seq::<nat>::empty());
        assert(blocks.take(0) =~= Seq::<(Seq<char>, Seq<Seq<usize>>)>::empty());
    }
}

/// Points read back from their written coordinates are the points.
proof fn lemma_points_round_trip<T>(points: Seq<[T; 3]>)
    ensures
        flat_points(points).len() % 3 == 0,
        points_of(flat_points(points)) == points,
{
    let f = flat_points(points);
    assert(f.len() == 3 * points.len());
    assert forall|k: int| 0 <= k < points.len() implies #[trigger] points_of(f)[k] == points[k] by {
        assert((3 * k) / 3 == k && (3 * k) % 3 == 0);
        assert((3 * k + 1) / 3 == k && (3 * k + 1) % 3 == 1);
        assert((3 * k + 2) / 3 == k && (3 * k + 2) % 3 == 2);
        assert(points_of(f)[k] =~= points[k]);
    }
    assert(points_of(f) =~= points);
}

proof fn lemma_point_pairs_concat<T>(a: Seq<AttributeView<T>>, b: Seq<AttributeView<T>>)
    ensures
        point_pairs(a + b) == point_pairs(a) + point_pairs(b),
    decreases b.len(),
{
    if b.len() == 0 {
        assert(a + b =~= a);
        assert(point_pairs(a) + point_pairs(b) =~= point_pairs(a));
    } else {
        lemma_point_pairs_concat(a, b.drop_last());
        assert((a + b).drop_last() =~= a + b.drop_last());
        assert((a + b).last() == b.last());
    }
}

proof fn lemma_point_data_pairs<T>(data: Seq<(Seq<char>, Seq<T>)>, num_points: nat)
    ensures
        point_pairs(point_attribute_views(data, num_points)) == data,
        field_pairs(point_attribute_views(data, num_points)) == Seq::<(Seq<char>, Seq<T>)>::empty(),
    decreases data.len(),
{
    let attrs = point_attribute_views(data, num_points);
    if data.len() == 0 {
        assert(attrs =~= Seq::<AttributeView<T>>::empty());
        assert(point_pairs(attrs) =~= data);
    } else {
        lemma_point_data_pairs(data.drop_last(), num_points);
        assert(attrs.drop_last() =~= point_attribute_views(data.drop_last(), num_points));
        assert(point_pairs(attrs) =~= data);
    }
}

proof fn lemma_cell_data_fields<T>(data: Seq<(Seq<char>, Seq<Seq<T>>)>, num_cells: nat)
    ensures
        field_pairs(cell_attribute_views(data, num_cells)) == Seq::<(Seq<char>, Seq<T>)>::empty(),
    decreases data.len(),
{
    let attrs = cell_attribute_views(data, num_cells);
    if data.len() == 0 {
        assert(attrs =~= Seq::<AttributeView<T>>::empty());
    } else {
        lemma_cell_data_fields(data.drop_last(), num_cells);
        assert(attrs.drop_last() =~= cell_attribute_views(data.drop_last(), num_cells));
    }
}

/// Field data as it is read back among the point data: each array under the
/// name of the field that carries it joined to its own.
pub open spec fn field_entries<T>(data: Seq<(Seq<char>, Seq<T>)>) -> Seq<(Seq<char>, Seq<T>)> {
    data.map_values(|e: (Seq<char>, Seq<T>)| (field_array_name(field_name(), e.0), e.1))
}

proof fn lemma_field_data_pairs<T>(data: Seq<(Seq<char>, Seq<T>)>)
    ensures
        point_pairs(field_attribute_views(data)) == field_entries(data),
        field_pairs(field_attribute_views(data)) == data,
{
    let attrs = field_attribute_views(data);
    if data.len() == 0 {
        assert(attrs =~= Seq::<AttributeView<T>>::empty());
        assert(field_entries(data) =~= Seq::<(Seq<char>, Seq<T>)>::empty());
        assert(field_pairs(attrs) =~= data);
    } else {
        let dm = data.map_values(|e: (Seq<char>, Seq<T>)| (e.0, 1u32, e.1));
        let f = AttributeView::Field { name: field_name(), data_array: dm };
        assert(attrs == seq![f]);
        assert(attrs.drop_last() =~= Seq::<AttributeView<T>>::empty());
        assert(attrs.last() == f);
        assert(point_pairs(attrs.drop_last()) == Seq::<(Seq<char>, Seq<T>)>::empty());
        assert(field_pairs(attrs.drop_last()) == Seq::<(Seq<char>, Seq<T>)>::empty());
        assert(point_pairs(attrs) == point_pairs(attrs.drop_last()) + crate::read::point_attribute_pairs(f));
        assert(crate::read::point_attribute_pairs(f) =~= field_entries(data));
        assert(point_pairs(attrs) =~= field_entries(data));
        assert(field_pairs(attrs) =~= data);
    }
}

proof fn lemma_prefix_injective(p: Seq<char>, a: Seq<char>, b: Seq<char>)
    requires
        p + a == p + b,
    ensures
        a == b,
{
    assert((p + a).skip(p.len() as int) =~= a);
    assert((p + b).skip(p.len() as int) =~= b);
}

proof fn lemma_field_entries_distinct<T>(data: Seq<(Seq<char>, Seq<T>)>)
    requires
        keys_distinct(data),
    ensures
        keys_distinct(field_entries(data)),
{
    let e = field_entries(data);
    assert forall|i: int, j: int| 0 <= i < j < e.len() implies e[i].0 != e[j].0 by {
        if e[i].0 == e[j].0 {
            lemma_prefix_injective(field_name() + "."@, data[i].0, data[j].0);
        }
    }
}

/// Extracting the point attributes that writing builds from point data gives
/// the point data back, whatever the number of points. Names are distinct, as
/// they are in a mesh's data.
pub proof fn lemma_point_data_round_trip<T>(point_data: Seq<(Seq<char>, Seq<T>)>, num_points: nat)
    requires
        keys_distinct(point_data),
    ensures
        assoc_from_pairs(point_pairs(point_attribute_views(point_data, num_points))) == point_data,
{
    lemma_point_data_pairs(point_data, num_points);
    lemma_from_distinct_pairs(point_data);
}

/// Extracting point data from the field attribute that writing builds from
/// field data gives each field array under `panmesh_field.` and its name.
pub proof fn lemma_field_as_point_data<T>(field_data: Seq<(Seq<char>, Seq<T>)>)
    requires
        keys_distinct(field_data),
    ensures
        assoc_from_pairs(point_pairs(field_attribute_views(field_data))) == field_entries(
            field_data,
        ),
{
    lemma_field_data_pairs(field_data);
    lemma_field_entries_distinct(field_data);
    lemma_from_distinct_pairs(field_entries(field_data));
}

/// Extracting field data from the field attribute that writing builds from
/// field data gives the field data back, whether the attribute stands among
/// the point attributes or among the cell attributes.
pub proof fn lemma_field_data_round_trip<T>(field_data: Seq<(Seq<char>, Seq<T>)>)
    requires
        keys_distinct(field_data),
    ensures
        assoc_from_pairs(
            field_pairs(field_attribute_views(field_data) + Seq::<AttributeView<T>>::empty()),
        ) == field_data,
        assoc_from_pairs(
            field_pairs(Seq::<AttributeView<T>>::empty() + field_attribute_views(field_data)),
        ) == field_data,
{
    let f = field_attribute_views(field_data);
    lemma_field_data_pairs(field_data);
    lemma_from_distinct_pairs(field_data);
    assert(f + Seq::<AttributeView<T>>::empty() =~= f);
    assert(Seq::<AttributeView<T>>::empty() + f =~= f);
}

/// What a mesh must be for reading what writing it gives to return it: its
/// blocks name cell types, no two share a name and none is empty; its point
/// counts and point numbers fit in 32 bits and it has at most `usize::MAX`
/// cells; the names of its point, cell and field data are each
/// distinct (the mesh is well formed), and no point data name is that of a field array as it is read
/// back; and each cell data array holds, for every block, the same number of
/// values for each cell.
pub open spec fn round_trips<T>(m: MeshView<T>) -> bool {
    &&& blocks_separate(m.cells)
    &&& cells_fit_u32(block_cells(m.cells))
    &&& block_cells(m.cells).len() <= usize::MAX
    &&& data_names_distinct(m)
    &&& forall|i: int, j: int|
        0 <= i < m.point_data.len() && 0 <= j < m.field_data.len() ==> #[trigger] m.point_data[i].0
            != field_array_name(field_name(), #[trigger] m.field_data[j].0)
    &&& cell_data_fits(m.cell_data, block_sizes(m.cells))
}

/// Reading back what writing a mesh gives: writing succeeds, the written data
/// set can be read, and reading it gives the mesh's points, blocks, cell data
/// and field data; its point data comes back followed by its field data under
/// the names of the field that carries it. A mesh without field data comes
/// back as it was.
#[verifier::spinoff_prover]
pub proof fn lemma_read_of_write<T>(m: MeshView<T>)
    requires
        round_trips(m),
    ensures
        write_vtk_result(m) is Ok,
        vtk_readable(write_vtk_result(m)->Ok_0.data),
        read_vtk_result(write_vtk_result(m)->Ok_0.data) == Ok::<MeshView<T>, Seq<char>>(
            MeshView {
                points: m.points,
                cells: m.cells,
                point_data: m.point_data + field_entries(m.field_data),
                cell_data: m.cell_data,
                field_data: m.field_data,
            },
        ),
        m.field_data.len() == 0 ==> read_vtk_result(write_vtk_result(m)->Ok_0.data) == Ok::<
            MeshView<T>,
            Seq<char>,
        >(m),
{
    let cells = block_cells(m.cells);
    let types = block_types(m.cells);
    let labels = written_labels(m.cells);
    let pa = point_attribute_views(m.point_data, m.points.len());
    let fa = field_attribute_views(m.field_data);
    let ca = cell_attribute_views(m.cell_data, cells.len());
    lemma_legacy_round_trip(cells);
    lemma_types_len(m.cells);
    lemma_items(m.cells);
    lemma_grouping(m.cells);
    lemma_written_runs(m.cells);
    lemma_cell_pairs(m.cell_data, block_sizes(m.cells));
    lemma_points_round_trip(m.points);
    lemma_point_data_pairs(m.point_data, m.points.len());
    lemma_field_data_pairs(m.field_data);
    lemma_cell_data_fields(m.cell_data, cells.len());
    lemma_point_pairs_concat(pa, fa);
    lemma_field_pairs_concat(pa, fa);
    lemma_field_pairs_concat(pa + fa, ca);
    let pd = m.point_data + field_entries(m.field_data);
    lemma_field_entries_distinct(m.field_data);
    assert(keys_distinct(pd)) by {
        let fe = field_entries(m.field_data);
        assert forall|i: int, j: int| 0 <= i < j < pd.len() implies pd[i].0 != pd[j].0 by {
            if j >= m.point_data.len() && i < m.point_data.len() {
                assert(pd[j].0 == field_array_name(field_name(), m.field_data[j - m.point_data.len()].0));
                assert(m.point_data[i].0 != field_array_name(
                    field_name(),
                    m.field_data[j - m.point_data.len()].0,
                ));
            } else if i >= m.point_data.len() {
                assert(fe[i - m.point_data.len()].0 != fe[j - m.point_data.len()].0);
            }
        }
    }
    lemma_from_distinct_pairs(pd);
    lemma_from_distinct_pairs(m.cell_data);
    lemma_from_distinct_pairs(m.field_data);
    assert(point_pairs(pa + fa) =~= pd);
    assert(field_pairs(pa + fa + ca) =~= m.field_data);
    if m.field_data.len() == 0 {
        assert(pd =~= m.point_data);
    }
}

proof fn lemma_legacy_well_formed(cells: Seq<Seq<usize>>)
    requires
        forall|i: int| 0 <= i < cells.len() ==> #[trigger] cells[i].len() <= u32::MAX,
    ensures
        legacy_well_formed(legacy_encode(cells)),
    decreases cells.len(),
{
    if cells.len() > 0 {
        let c = cells[0];
        let rest = cells.drop_first();
        assert forall|i: int| 0 <= i < rest.len() implies #[trigger] rest[i].len() <= u32::MAX by {
            assert(rest[i] == cells[i + 1]);
        }
        lemma_legacy_well_formed(rest);
        assert(cells =~= seq![c] + rest);
        lemma_legacy_encode_concat(seq![c], rest);
        assert(seq![c].drop_last() =~= Seq::<Seq<usize>>::empty());
        assert(seq![c].last() == c);
        assert(legacy_encode(Seq::<Seq<usize>>::empty()) =~= Seq::<u32>::empty());
        assert(legacy_encode(seq![c]) =~= legacy_cell(c));
        assert(c.len() <= u32::MAX);
        let v = legacy_encode(cells);
        assert(v == legacy_cell(c) + legacy_encode(rest));
        assert(v[0] == c.len());
        assert(v.subrange(1 + v[0], v.len() as int) =~= legacy_encode(rest));
    }
}

/// What the library writes it can read: writing a mesh whose blocks all name
/// cell types and whose cells each have at most `u32::MAX` points succeeds,
/// and the written data set can be read.
pub proof fn lemma_written_readable<T>(m: MeshView<T>)
    requires
        first_unknown(m.cells) is None,
        forall|i: int|
            0 <= i < block_cells(m.cells).len() ==> #[trigger] block_cells(m.cells)[i].len()
                <= u32::MAX,
    ensures
        write_vtk_result(m) is Ok,
        vtk_readable(write_vtk_result(m)->Ok_0.data),
{
    lemma_legacy_well_formed(block_cells(m.cells));
    lemma_points_round_trip(m.points);
}

} // verus!
