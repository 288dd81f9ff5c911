//! Grouping cells into blocks by their type names, keeping the blocks in the
//! order in which their names first occur and the cells of a block in the
//! order in which they come.
use crate::mesh::{block_view, blocks_view, CellBlock};
use crate::text::text_eq;
use vstd::prelude::*;

verus! {

broadcast use vstd::string::group_string_axioms;

/// The distinct labels, in the order in which each first occurs.
pub open spec fn first_labels(labels: Seq<Seq<char>>) -> Seq<Seq<char>>
    decreases labels.len(),
{
    if labels.len() == 0 {
        seq![]
    } else {
        let d = first_labels(labels.drop_last());
        if d.contains(labels.last()) {
            d
        } else {
            d.push(labels.last())
        }
    }
}

/// The positions that carry label `l`, in increasing order.
pub open spec fn positions_of(labels: Seq<Seq<char>>, l: Seq<char>) -> Seq<usize>
    decreases labels.len(),
{
    if labels.len() == 0 {
        seq![]
    } else {
        let p = positions_of(labels.drop_last(), l);
        if labels.last() == l {
            p.push((labels.len() - 1) as usize)
        } else {
            p
        }
    }
}

/// The items at the positions that carry label `l`, in order.
pub open spec fn items_of<A>(labels: Seq<Seq<char>>, items: Seq<A>, l: Seq<char>) -> Seq<A> {
    positions_of(labels, l).map_values(|i: usize| items[i as int])
}

/// The blocks of a grouping: each distinct label with its items.
pub open spec fn grouped_blocks(labels: Seq<Seq<char>>, items: Seq<Seq<usize>>) -> Seq<
    (Seq<char>, Seq<Seq<usize>>),
> {
    first_labels(labels).map_values(|l: Seq<char>| (l, items_of(labels, items, l)))
}

/// The positions of the items of each block of a grouping.
pub open spec fn grouped_positions(labels: Seq<Seq<char>>) -> Seq<Seq<usize>> {
    first_labels(labels).map_values(|l: Seq<char>| positions_of(labels, l))
}

/// The texts of a list of strings.
pub open spec fn texts(s: Seq<String>) -> Seq<Seq<char>> {
    s.map_values(|x: String| x@)
}

/// No label occurs twice among the first labels, and they are exactly the
/// labels that occur.
pub proof fn lemma_first_labels_distinct(labels: Seq<Seq<char>>)
    ensures
        first_labels(labels).no_duplicates(),
        forall|l: Seq<char>| #[trigger] first_labels(labels).contains(l) <==> labels.contains(l),
    decreases labels.len(),
{
    if labels.len() > 0 {
        let init = labels.drop_last();
        let last = labels.last();
        let d = first_labels(init);
        lemma_first_labels_distinct(init);
        assert(d.push(last)[d.len() as int] == last);
        assert forall|l: Seq<char>| #[trigger] first_labels(labels).contains(l) <==> labels.contains(
            l,
        ) by {
            if labels.contains(l) {
                let k = choose|k: int| 0 <= k < labels.len() && labels[k] == l;
                if k < labels.len() - 1 {
                    assert(init[k] == l);
                    assert(init.contains(l));
                    assert(d.contains(l));
                    let m = choose|m: int| 0 <= m < d.len() && d[m] == l;
                    assert(d.push(last)[m] == l);
                }
            }
            if first_labels(labels).contains(l) {
                if l != last {
                    let m = choose|m: int|
                        0 <= m < first_labels(labels).len() && first_labels(labels)[m] == l;
                    if !d.contains(last) {
                        assert(m < d.len());
                        assert(d[m] == l);
                    }
                    assert(d.contains(l));
                    let k = choose|k: int| 0 <= k < init.len() && init[k] == l;
                    assert(labels[k] == l);
                } else {
                    assert(labels[labels.len() - 1] == l);
                }
            }
        }
    }
}

/// Positions are below the length, increase, and each carries its label.
pub proof fn lemma_positions_of(labels: Seq<Seq<char>>, l: Seq<char>)
    requires
        labels.len() <= usize::MAX,
    ensures
        forall|k: int|
            0 <= k < positions_of(labels, l).len() ==> (#[trigger] positions_of(labels, l)[k])
                < labels.len() && labels[positions_of(labels, l)[k] as int] == l,
    decreases labels.len(),
{
    if labels.len() > 0 {
        let init = labels.drop_last();
        lemma_positions_of(init, l);
        let p = positions_of(init, l);
        assert forall|k: int| 0 <= k < p.len() implies p[k] < labels.len() && labels[p[k] as int]
            == l by {
            assert(init[p[k] as int] == l);
        }
    }
}

/// How adding one labelled position changes the grouping.
proof fn lemma_group_step(pre: Seq<Seq<char>>, post: Seq<Seq<char>>, its: Seq<Seq<usize>>)
    requires
        post.len() == pre.len() + 1,
        post.drop_last() == pre,
        post.len() <= usize::MAX,
        its.len() >= post.len(),
    ensures
        first_labels(pre).contains(post.last()) ==> first_labels(post) == first_labels(pre),
        !first_labels(pre).contains(post.last()) ==> first_labels(post) == first_labels(pre).push(
            post.last(),
        ),
        !first_labels(pre).contains(post.last()) ==> positions_of(pre, post.last()) == Seq::<
            usize,
        >::empty(),
        forall|l: Seq<char>|
            #[trigger] positions_of(post, l) == if l == post.last() {
                positions_of(pre, l).push(pre.len() as usize)
            } else {
                positions_of(pre, l)
            },
        forall|l: Seq<char>|
            #[trigger] items_of(post, its, l) == if l == post.last() {
                items_of(pre, its, l).push(its[pre.len() as int])
            } else {
                items_of(pre, its, l)
            },
{
    lemma_first_labels_distinct(pre);
    if !first_labels(pre).contains(post.last()) {
        lemma_positions_of(pre, post.last());
        if positions_of(pre, post.last()).len() > 0 {
            let k = positions_of(pre, post.last())[0];
            assert(pre[k as int] == post.last());
            assert(first_labels(pre).contains(post.last()));
        }
    }
    assert forall|l: Seq<char>|
        #[trigger] items_of(post, its, l) == if l == post.last() {
            items_of(pre, its, l).push(its[pre.len() as int])
        } else {
            items_of(pre, its, l)
        } by {
        if l == post.last() {
            assert(items_of(post, its, l) =~= items_of(pre, its, l).push(its[pre.len() as int]));
        }
    }
}

/// Groups items by label: one block per distinct label, in the order of first
/// occurrence, holding the items of that label in the order they come; also
/// gives, for each block, the positions of its items.
#[verifier::spinoff_prover]
pub fn group_by_label(labels: &Vec<String>, items: &Vec<Vec<usize>>) -> (r: (
    Vec<CellBlock>,
    Vec<Vec<usize>>,
))
    requires
        labels.len() == items.len(),
    ensures
        blocks_view(r.0@) == grouped_blocks(
            texts(labels@),
            items.deep_view(),
        ),
        r.1.deep_view() == grouped_positions(texts(labels@)),
{
    let ghost lab = texts(labels@);
    let ghost its = items.deep_view();
    let mut blocks: Vec<CellBlock> = Vec::new();
    let mut positions: Vec<Vec<usize>> = Vec::new();
    let mut i: usize = 0;
    while i < labels.len()
        invariant
            labels.len() == items.len(),
            lab == texts(labels@),
            its == items.deep_view(),
            i <= labels.len(),
            blocks_view(blocks@) =~= grouped_blocks(
                lab.take(i as int),
                its,
            ),
            positions.deep_view() =~= grouped_positions(lab.take(i as int)),
            positions@.len() == blocks@.len(),
        decreases labels.len() - i,
    {
        let ghost pre = lab.take(i as int);
        let ghost post = lab.take(i + 1);
        assert(post.drop_last() =~= pre);
        assert(post.last() == lab[i as int]);
        proof {
            lemma_first_labels_distinct(pre);
        }
        let label = &labels[i];
        let cell = items[i].clone();
        assert(cell@ =~= items@[i as int]@);
        let mut pos: usize = 0;
        let mut found = false;
        while !found && pos < blocks.len()
            invariant
                pos <= blocks.len(),
                forall|j: int| 0 <= j < pos ==> #[trigger] blocks@[j].cell_type@ != label@,
                found ==> pos < blocks.len() && blocks@[pos as int].cell_type@ == label@,
            decreases blocks.len() - pos + if found { 0int } else { 1int },
        {
            if text_eq(blocks[pos].cell_type.as_str(), label.as_str()) {
                found = true;
            } else {
                pos = pos + 1;
            }
        }
        proof {
            lemma_group_step(pre, post, its);
        }
        let ghost fl = first_labels(pre);
        let ghost old_view = blocks_view(blocks@);
        let ghost old_positions = positions.deep_view();
        assert(its[i as int] =~= cell@);
        assert(cell.deep_view() =~= cell@);
        assert(old_view.len() == fl.len());
        assert forall|j: int| 0 <= j < blocks@.len() implies #[trigger] blocks@[j].cell_type@
            == fl[j] by {
            assert(old_view[j] == block_view(blocks@[j]));
            assert(old_view[j] == grouped_blocks(pre, its)[j]);
        }
        assert(label@ == lab[i as int]);
        if found {
            assert(fl.contains(post.last()));
            let ghost old_block = blocks@[pos as int];
            let ghost old_blocks = blocks@;
            let ghost old_positions_vec = positions@;
            blocks[pos].data.push(cell);
            positions[pos].push(i);
            assert(blocks@[pos as int].data.deep_view() =~= old_block.data.deep_view().push(
                cell.deep_view(),
            ));
            assert(first_labels(post) == fl);
            assert forall|j: int| 0 <= j < blocks@.len() implies #[trigger] blocks_view(blocks@)[j] == grouped_blocks(post, its)[j] by {
                assert(grouped_blocks(post, its)[j] == (fl[j], items_of(post, its, fl[j])));
                assert(old_view[j] == (fl[j], items_of(pre, its, fl[j])));
                if j != pos {
                    assert(fl[j] != fl[pos as int]);
                    assert(blocks@[j] == old_blocks[j]);
                } else {
                    assert(fl[j] == post.last());
                    assert(blocks_view(blocks@)[j] == (old_view[j].0, old_view[j].1.push(cell@)));
                }
            }
            assert forall|j: int| 0 <= j < positions@.len() implies #[trigger] positions.deep_view()[j]
                == grouped_positions(post)[j] by {
                assert(grouped_positions(post)[j] == positions_of(post, fl[j]));
                assert(old_positions[j] == positions_of(pre, fl[j]));
                if j != pos {
                    assert(fl[j] != fl[pos as int]);
                    assert(positions@[j] == old_positions_vec[j]);
                    assert(positions.deep_view()[j] =~= old_positions[j]);
                } else {
                    assert(fl[j] == post.last());
                    assert(positions.deep_view()[j] =~= old_positions[j].push(i));
                }
            }
        } else {
            assert(!fl.contains(post.last())) by {
                if fl.contains(post.last()) {
                    let m = choose|m: int| 0 <= m < fl.len() && fl[m] == post.last();
                    assert(blocks@[m].cell_type@ == fl[m]);
                }
            }
            let ghost old_blocks = blocks@;
            let ghost old_positions_vec = positions@;
            let mut data: Vec<Vec<usize>> = Vec::new();
            data.push(cell);
            let name = label.clone();
            assert(data.deep_view() =~= seq![cell@]);
            blocks.push(CellBlock { cell_type: name, data });
            let mut p: Vec<usize> = Vec::new();
            p.push(i);
            positions.push(p);
            assert(items_of(post, its, post.last()) =~= seq![its[i as int]]);
            assert(positions_of(post, post.last()) =~= seq![i]);
            let ghost nfl = fl.push(post.last());
            assert(first_labels(post) == nfl);
            assert forall|j: int| 0 <= j < blocks@.len() implies #[trigger] blocks_view(blocks@)[j] == grouped_blocks(post, its)[j] by {
                assert(grouped_blocks(post, its)[j] == (nfl[j], items_of(post, its, nfl[j])));
                if j < old_view.len() {
                    assert(nfl[j] == fl[j]);
                    assert(old_view[j] == (fl[j], items_of(pre, its, fl[j])));
                    assert(fl[j] != post.last());
                    assert(blocks@[j] == old_blocks[j]);
                } else {
                    assert(nfl[j] == post.last());
                }
            }
            assert forall|j: int| 0 <= j < positions@.len() implies #[trigger] positions.deep_view()[j]
                == grouped_positions(post)[j] by {
                assert(grouped_positions(post)[j] == positions_of(post, nfl[j]));
                if j < old_view.len() {
                    assert(nfl[j] == fl[j]);
                    assert(old_positions[j] == positions_of(pre, fl[j]));
                    assert(fl[j] != post.last());
                    assert(positions@[j] == old_positions_vec[j]);
                    assert(positions.deep_view()[j] =~= old_positions[j]);
                } else {
                    assert(nfl[j] == post.last());
                    assert(positions.deep_view()[j] =~= seq![i]);
                }
            }
        }
        i = i + 1;
    }
    assert(lab.take(labels.len() as int) =~= lab);
    (blocks, positions)
}

/// A label that occurs has at least one position.
pub proof fn lemma_positions_nonempty(labels: Seq<Seq<char>>, l: Seq<char>)
    requires
        labels.contains(l),
    ensures
        positions_of(labels, l).len() > 0,
    decreases labels.len(),
{
    if labels.last() != l {
        let k = choose|k: int| 0 <= k < labels.len() && labels[k] == l;
        assert(labels.drop_last()[k] == l);
        lemma_positions_nonempty(labels.drop_last(), l);
    }
}

/// The blocks of a grouping have distinct names, and none is empty.
pub proof fn lemma_grouped_blocks_separate(labels: Seq<Seq<char>>, items: Seq<Seq<usize>>)
    ensures
        forall|i: int, j: int|
            0 <= i < j < grouped_blocks(labels, items).len() ==> grouped_blocks(labels, items)[i].0
                != grouped_blocks(labels, items)[j].0,
        forall|i: int|
            0 <= i < grouped_blocks(labels, items).len() ==> #[trigger] grouped_blocks(
                labels,
                items,
            )[i].1.len() > 0,
{
    let f = first_labels(labels);
    lemma_first_labels_distinct(labels);
    assert forall|i: int| 0 <= i < f.len() implies #[trigger] grouped_blocks(labels, items)[i].1.len()
        > 0 by {
        assert(f.contains(f[i]));
        lemma_positions_nonempty(labels, f[i]);
    }
}

} // verus!
