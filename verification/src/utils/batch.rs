//! Cutting a table of samples into shuffled batches, and one-hot targets.

use vstd::prelude::*;
use rand::seq::SliceRandom;
use rand::thread_rng;
use crate::shape::copy_shape;

verus! {

/// One batch of a table: which rows it takes, in their order, and how each row is
/// split into the label column and the feature columns.
pub struct Batch {
    pub rows: Vec<usize>,
    pub feature_cols: Vec<usize>,
    pub label_col: usize,
}

/// The rows `0, 1, .., n - 1`, each once, in some order.
pub open spec fn is_row_order(order: Seq<usize>, n: nat) -> bool {
    &&& order.len() == n
    &&& order.no_duplicates()
    &&& forall|i: int| 0 <= i < order.len() ==> order[i] < n
}

/// The columns of a table `n_cols` wide, without the label column, in rising order.
pub open spec fn columns_without(n_cols: usize, label_col: usize) -> Seq<usize> {
    Seq::new(
        if label_col < n_cols { (n_cols - 1) as nat } else { n_cols as nat },
        |j: int| if j < label_col { j as usize } else { (j + 1) as usize },
    )
}

/// How many batches of at most `size` rows hold `n` rows.
pub open spec fn batch_count(n: nat, size: nat) -> nat {
    if n % size == 0 { n / size } else { n / size + 1 }
}

/// Where batch `k` starts in the order.
pub open spec fn batch_start(size: nat, k: int) -> int {
    k * size
}

/// Where batch `k` ends: a full batch later, or where the rows end.
pub open spec fn batch_end(n: nat, size: nat, k: int) -> int {
    if k * size + size <= n { k * size + size } else { n as int }
}

/// What `batches_from_order` gives for an order of rows.
pub open spec fn is_batching_of(
    batches: Seq<Batch>,
    order: Seq<usize>,
    n_cols: usize,
    label_col: usize,
    size: nat,
) -> bool {
    &&& batches.len() == batch_count(order.len(), size)
    &&& forall|k: int| 0 <= k < batches.len() ==> {
        &&& (#[trigger] batches[k]).rows@ == order.subrange(
            batch_start(size, k),
            batch_end(order.len(), size, k),
        )
        &&& batches[k].feature_cols@ == columns_without(n_cols, label_col)
        &&& batches[k].label_col == label_col
    }
}

/// Lists the columns of a table without its label column.
pub fn feature_columns(n_cols: usize, label_col: usize) -> (cols: Vec<usize>)
    ensures
        cols@ == columns_without(n_cols, label_col),
{
    let mut cols: Vec<usize> = Vec::new();
    let mut j: usize = 0;
    while j < n_cols
        invariant
            j <= n_cols,
            cols@.len() == (if j <= label_col { j as int } else { j - 1 }),
            forall|c: int| 0 <= c < cols@.len() ==> cols@[c] == (if c < label_col { c } else { c + 1 }),
        decreases n_cols - j,
    {
        if j != label_col {
            cols.push(j);
        }
        j += 1;
    }
    assert(cols@ =~= columns_without(n_cols, label_col));
    cols
}

proof fn lemma_batch_count_step(n: nat, size: nat, k: nat)
    requires
        size > 0,
    ensures
        k * size < n <==> k < batch_count(n, size),
        k * size >= n ==> k >= batch_count(n, size),
        (k + 1) * size == k * size + size,
{
    assert((k + 1) * size == k * size + size) by (nonlinear_arith);
    assert(n == size * (n / size) + n % size) by (nonlinear_arith)
        requires size > 0;
    assert(0 <= n % size < size) by (nonlinear_arith)
        requires size > 0;
    let q = n / size;
    if k < q {
        assert(k * size + size <= q * size) by (nonlinear_arith)
            requires k + 1 <= q, size > 0;
        assert(size * q == q * size) by (nonlinear_arith);
    } else {
        assert(k * size >= q * size) by (nonlinear_arith)
            requires k >= q, size > 0;
        assert(size * q == q * size) by (nonlinear_arith);
        if k > q {
            assert(k * size >= q * size + size) by (nonlinear_arith)
                requires k >= q + 1, size > 0;
        }
    }
}

/// Cuts an order of rows into batches of `batch_size` rows; the last batch takes
/// what is left. Batch `k` holds the rows that stand in the order from place
/// `k * batch_size` on.
pub fn batches_from_order(
    order: &Vec<usize>,
    n_cols: usize,
    label_col: usize,
    batch_size: usize,
) -> (batches: Vec<Batch>)
    requires
        batch_size > 0,
    ensures
        is_batching_of(batches@, order@, n_cols, label_col, batch_size as nat),
{
    let n = order.len();
    let cols = feature_columns(n_cols, label_col);
    let mut batches: Vec<Batch> = Vec::new();
    let mut start: usize = 0;
    proof {
        lemma_batch_count_step(n as nat, batch_size as nat, 0);
    }
    while start < n
        invariant
            n == order.len(),
            batch_size > 0,
            start <= n,
            cols@ == columns_without(n_cols, label_col),
            start < n ==> start == batches.len() * batch_size,
            start == n ==> batches.len() == batch_count(n as nat, batch_size as nat),
            batches.len() <= batch_count(n as nat, batch_size as nat),
            forall|k: int| 0 <= k < batches.len() ==> {
                &&& (#[trigger] batches[k]).rows@ == order@.subrange(
                    batch_start(batch_size as nat, k),
                    batch_end(n as nat, batch_size as nat, k),
                )
                &&& batches[k].feature_cols@ == columns_without(n_cols, label_col)
                &&& batches[k].label_col == label_col
            },
        decreases n - start,
    {
        let ghost k = batches.len() as int;
        let end: usize = if batch_size >= n - start { n } else { start + batch_size };
        proof {
            lemma_batch_count_step(n as nat, batch_size as nat, k as nat);
            lemma_batch_count_step(n as nat, batch_size as nat, (k + 1) as nat);
            assert(end == batch_end(n as nat, batch_size as nat, k));
        }
        let mut rows: Vec<usize> = Vec::new();
        let mut i: usize = start;
        while i < end
            invariant
                start <= i <= end <= n,
                n == order.len(),
                rows@ == order@.subrange(start as int, i as int),
            decreases end - i,
        {
            rows.push(order[i]);
            assert(order@.subrange(start as int, i as int).push(order@[i as int])
                =~= order@.subrange(start as int, i + 1));
            i += 1;
        }
        batches.push(Batch { rows, feature_cols: copy_shape(&cols), label_col });
        start = end;
    }
    batches
}

/// `rand::seq::SliceRandom::shuffle` on the rows, with the thread's generator.
/// The shuffle only swaps entries, so the rows after it are the rows before it in
/// another order; which order is left open.
#[verifier::external_body]
fn shuffle_rows(order: &mut Vec<usize>)
    ensures
        final(order)@.to_multiset() == old(order)@.to_multiset(),
{
    order.shuffle(&mut thread_rng());
}

/// The rows `0, 1, .., n - 1` in rising order.
fn rows_in_order(n: usize) -> (order: Vec<usize>)
    ensures
        order@ == Seq::new(n as nat, |i: int| i as usize),
{
    let mut order: Vec<usize> = Vec::new();
    let mut i: usize = 0;
    while i < n
        invariant
            i <= n,
            order@ == Seq::new(i as nat, |j: int| j as usize),
        decreases n - i,
    {
        order.push(i);
        assert(order@ =~= Seq::new((i + 1) as nat, |j: int| j as usize));
        i += 1;
    }
    order
}

proof fn lemma_reordered_rows(before: Seq<usize>, after: Seq<usize>, n: usize)
    requires
        before == Seq::new(n as nat, |i: int| i as usize),
        after.to_multiset() == before.to_multiset(),
    ensures
        is_row_order(after, n as nat),
{
    before.to_multiset_ensures();
    after.to_multiset_ensures();
    assert(before.no_duplicates());
    before.lemma_multiset_has_no_duplicates();
    after.lemma_multiset_has_no_duplicates_conv();
    assert forall|i: int| 0 <= i < after.len() implies after[i] < n by {
        assert(after.contains(after[i]));
        assert(after.to_multiset().count(after[i]) > 0);
        assert(before.to_multiset().count(after[i]) > 0);
        assert(before.contains(after[i]));
        let j = choose|j: int| 0 <= j < before.len() && before[j] == after[i];
        assert(before[j] == j);
    }
}

/// Shuffles the rows of a table with `n_rows` rows and `n_cols` columns and cuts
/// them into batches of `batch_size` rows, the last one shorter where the rows do
/// not divide. Which order the shuffle gives is left to chance; the batches are
/// those of `batches_from_order` for that order.
pub fn create_batches(n_rows: usize, n_cols: usize, label_col: usize, batch_size: usize) -> (batches:
    Vec<Batch>)
    requires
        batch_size > 0,
        n_cols > 0,
        n_rows == 0 || label_col < n_cols,
    ensures
        exists|order: Seq<usize>|
            is_row_order(order, n_rows as nat) && #[trigger] is_batching_of(
                batches@,
                order,
                n_cols,
                label_col,
                batch_size as nat,
            ),
{
    let mut order = rows_in_order(n_rows);
    let ghost before = order@;
    shuffle_rows(&mut order);
    proof {
        lemma_reordered_rows(before, order@, n_rows);
    }
    batches_from_order(&order, n_cols, label_col, batch_size)
}

/// What stands in row `i`, column `j` of the one-hot table of `labels`.
pub open spec fn one_hot_entry(labels: Seq<usize>, i: int, j: int) -> u8 {
    if labels[i] == j { 1u8 } else { 0u8 }
}

/// One row of `num_classes` entries for each label: one at the label's column,
/// zero elsewhere. A label that is no class gives a row of zeros.
pub fn one_hot_encode(labels: &Vec<usize>, num_classes: usize) -> (table: Vec<Vec<u8>>)
    ensures
        table@.len() == labels@.len(),
        forall|i: int| 0 <= i < table@.len() ==> (#[trigger] table@[i])@.len() == num_classes,
        forall|i: int, j: int|
            0 <= i < table@.len() && 0 <= j < num_classes ==> (#[trigger] table@[i]@[j])
                == one_hot_entry(labels@, i, j),
{
    let mut table: Vec<Vec<u8>> = Vec::new();
    let mut i: usize = 0;
    while i < labels.len()
        invariant
            i <= labels.len(),
            table@.len() == i,
            forall|r: int| 0 <= r < i ==> (#[trigger] table@[r])@.len() == num_classes,
            forall|r: int, j: int|
                0 <= r < i && 0 <= j < num_classes ==> (#[trigger] table@[r]@[j]) == one_hot_entry(
                    labels@,
                    r,
                    j,
                ),
        decreases labels.len() - i,
    {
        let label = labels[i];
        let mut row: Vec<u8> = Vec::new();
        let mut j: usize = 0;
        while j < num_classes
            invariant
                j <= num_classes,
                i < labels.len(),
                label == labels@[i as int],
                row@.len() == j,
                forall|c: int| 0 <= c < j ==> (#[trigger] row@[c]) == one_hot_entry(labels@, i as int, c),
            decreases num_classes - j,
        {
            let entry: u8 = if j == label { 1 } else { 0 };
            row.push(entry);
            j += 1;
        }
        table.push(row);
        i += 1;
    }
    table
}

} // verus!
