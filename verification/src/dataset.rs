use vstd::prelude::*;
use vstd::arithmetic::div_mod::lemma_fundamental_div_mod_converse_div;
use vstd::arithmetic::div_mod::lemma_fundamental_div_mod_converse_mod;
use vstd::arithmetic::div_mod::lemma_multiply_divide_lt;
use vstd::arithmetic::mul::lemma_mul_is_commutative;

use crate::config::MetaData;

verus! {

/// The class that sample `k` belongs to when every class owns
/// `samples_per_class` consecutive sample slots.
pub open spec fn class_of(samples_per_class: int, k: int) -> int {
    k / samples_per_class
}

/// Builds the label sequence of the spiral dataset: one contiguous run of
/// `samples_per_class` copies of each class index, classes in order.
///
/// The point coordinates of the dataset are floating-point noise around the
/// spiral arms and are produced by the host; the labels are the part the
/// training loss and the partition invariant depend on, and they are pinned
/// here exactly.
pub fn spiral_labels(num_classes: u32, samples_per_class: u32) -> (labels: Vec<u32>)
    requires
        samples_per_class > 0,
        num_classes as int * samples_per_class as int <= u32::MAX as int,
    ensures
        labels@.len() == num_classes as int * samples_per_class as int,
        forall|k: int| 0 <= k < labels@.len()
            ==> #[trigger] labels@[k] as int == class_of(samples_per_class as int, k),
{
    let total: u32 = num_classes * samples_per_class;
    let mut labels: Vec<u32> = Vec::new();
    let mut k: u32 = 0;
    while k < total
        invariant
            k <= total,
            samples_per_class > 0,
            labels@.len() == k as int,
            forall|i: int| 0 <= i < k as int
                ==> #[trigger] labels@[i] as int == class_of(samples_per_class as int, i),
        decreases total - k,
    {
        labels.push(k / samples_per_class);
        k = k + 1;
    }
    labels
}

/// Slot `j` of run `c` lies inside the sequence and holds the value `c`.
pub open spec fn run_slot_ok(labels: Seq<u32>, samples_per_class: int, c: int, j: int) -> bool {
    &&& 0 <= c * samples_per_class + j < labels.len()
    &&& labels[c * samples_per_class + j] as int == c
}

/// The labels fall into `num_classes` contiguous runs of length
/// `samples_per_class`, and the run with index `c` holds the value `c`
/// throughout.
pub open spec fn labels_partitioned(labels: Seq<u32>, num_classes: int, samples_per_class: int) -> bool {
    forall|c: int, j: int| 0 <= c < num_classes && 0 <= j < samples_per_class
        ==> #[trigger] run_slot_ok(labels, samples_per_class, c, j)
}

/// Law: labels built to the `spiral_labels` contract satisfy the partition
/// invariant `labels_partitioned`.
pub proof fn lemma_labels_partition(labels: Seq<u32>, num_classes: int, samples_per_class: int)
    requires
        samples_per_class > 0,
        labels.len() == num_classes * samples_per_class,
        forall|k: int| 0 <= k < labels.len()
            ==> #[trigger] labels[k] as int == class_of(samples_per_class, k),
    ensures
        labels_partitioned(labels, num_classes, samples_per_class),
{
    assert forall|c: int, j: int| 0 <= c < num_classes && 0 <= j < samples_per_class implies
        #[trigger] run_slot_ok(labels, samples_per_class, c, j)
    by {
        let k = c * samples_per_class + j;
        assert(0 <= k && k < num_classes * samples_per_class) by (nonlinear_arith)
            requires
                0 <= c < num_classes,
                0 <= j < samples_per_class,
                k == c * samples_per_class + j,
        ;
        lemma_fundamental_div_mod_converse_div(k, samples_per_class, c, j);
    }
}

/// Law: the `spiral_labels` contract determines the label sequence uniquely,
/// so two datasets generated with the same shape carry identical labels.
pub proof fn lemma_labels_reproducible(
    first: Seq<u32>,
    second: Seq<u32>,
    num_classes: int,
    samples_per_class: int,
)
    requires
        samples_per_class > 0,
        first.len() == num_classes * samples_per_class,
        second.len() == num_classes * samples_per_class,
        forall|k: int| 0 <= k < first.len()
            ==> #[trigger] first[k] as int == class_of(samples_per_class, k),
        forall|k: int| 0 <= k < second.len()
            ==> #[trigger] second[k] as int == class_of(samples_per_class, k),
    ensures
        first == second,
{
    assert(first =~= second);
}

/// Law: every label built to the `spiral_labels` contract names one of the
/// `num_classes` classes.
pub proof fn lemma_labels_in_range(labels: Seq<u32>, num_classes: int, samples_per_class: int)
    requires
        samples_per_class > 0,
        labels.len() == num_classes * samples_per_class,
        forall|k: int| 0 <= k < labels.len()
            ==> #[trigger] labels[k] as int == class_of(samples_per_class, k),
    ensures
        forall|k: int| 0 <= k < labels.len() ==> #[trigger] labels[k] < num_classes,
{
    assert forall|k: int| 0 <= k < labels.len() implies #[trigger] labels[k] < num_classes by {
        lemma_mul_is_commutative(num_classes, samples_per_class);
        lemma_multiply_divide_lt(k, samples_per_class, num_classes);
    }
}

/// Cell `k` of the flattened row-major one-hot matrix of the labels: `1`
/// where the column index equals the row's label, `0` elsewhere.
pub open spec fn one_hot_cell(labels: Seq<u32>, num_classes: int, k: int) -> u8 {
    if labels[k / num_classes] as int == k % num_classes {
        1u8
    } else {
        0u8
    }
}

/// Builds the flattened row-major one-hot matrix of the labels, one row per
/// sample and one column per class.
///
/// This is the discrete half of the softmax cross-entropy gradient: the
/// gradient of the scores is the class probabilities minus this matrix,
/// scaled by the sample count, so the `1` entries mark exactly the true
/// class of each row.
pub fn one_hot(labels: &Vec<u32>, num_classes: usize) -> (cells: Vec<u8>)
    requires
        num_classes > 0,
        labels@.len() * num_classes as int <= usize::MAX,
    ensures
        cells@.len() == labels@.len() * num_classes as int,
        forall|k: int| 0 <= k < cells@.len()
            ==> #[trigger] cells@[k] == one_hot_cell(labels@, num_classes as int, k),
{
    let num_rows = labels.len();
    let total = num_rows * num_classes;
    let mut cells: Vec<u8> = Vec::new();
    let mut k: usize = 0;
    while k < total
        invariant
            k <= total,
            num_classes > 0,
            total == labels@.len() * num_classes as int,
            num_rows == labels@.len(),
            cells@.len() == k as int,
            forall|m: int| 0 <= m < k as int
                ==> #[trigger] cells@[m] == one_hot_cell(labels@, num_classes as int, m),
        decreases total - k,
    {
        proof {
            lemma_mul_is_commutative(labels@.len() as int, num_classes as int);
            lemma_multiply_divide_lt(k as int, num_classes as int, labels@.len() as int);
        }
        let i = k / num_classes;
        let j = k % num_classes;
        let value: u8 = if labels[i] as usize == j {
            1
        } else {
            0
        };
        cells.push(value);
        k = k + 1;
    }
    cells
}

/// Flattened row-major position of each sample's true-class entry: the data
/// loss of a batch reads, for every row `i`, the class probability at column
/// `labels[i]`, which is cell `i * num_classes + labels[i]` of the flattened
/// probability matrix.
pub fn true_class_indices(labels: &Vec<u32>, num_classes: usize) -> (indices: Vec<usize>)
    requires
        num_classes > 0,
        forall|i: int| 0 <= i < labels@.len() ==> #[trigger] labels@[i] < num_classes,
        labels@.len() * num_classes as int <= usize::MAX as int,
    ensures
        indices@.len() == labels@.len(),
        forall|i: int| 0 <= i < labels@.len()
            ==> #[trigger] indices@[i] == i * num_classes as int + labels@[i] as int,
{
    let num_rows = labels.len();
    let mut indices: Vec<usize> = Vec::new();
    let mut i: usize = 0;
    while i < num_rows
        invariant
            i <= num_rows,
            num_classes > 0,
            num_rows == labels@.len(),
            labels@.len() * num_classes as int <= usize::MAX as int,
            forall|m: int| 0 <= m < labels@.len() ==> #[trigger] labels@[m] < num_classes,
            indices@.len() == i as int,
            forall|m: int| 0 <= m < i as int
                ==> #[trigger] indices@[m] == m * num_classes as int + labels@[m] as int,
        decreases num_rows - i,
    {
        proof {
            let row = i as int;
            let nc = num_classes as int;
            let nr = num_rows as int;
            assert((row + 1) * nc <= nr * nc) by (nonlinear_arith)
                requires
                    row < nr,
                    nc > 0,
            ;
            assert((row + 1) * nc == row * nc + nc) by (nonlinear_arith);
        }
        indices.push(i * num_classes + labels[i] as usize);
        i = i + 1;
    }
    indices
}

/// The label half of the generated dataset, tied to the session shape it
/// was generated for. The point coordinates are floating-point values held
/// by the host; index `i` of its point sequence is labelled by `labels[i]`.
pub struct Dataset {
    pub labels: Vec<u32>,
    pub metadata: MetaData,
}

impl Dataset {
    /// There is one label per sample, and each label is the class whose
    /// contiguous run of `samples_per_class` slots holds that sample.
    pub open spec fn wf(self) -> bool {
        &&& self.metadata.wf()
        &&& self.labels@.len() == self.metadata.num_points
        &&& forall|k: int| 0 <= k < self.labels@.len()
            ==> #[trigger] self.labels@[k] as int
                == class_of(self.metadata.samples_per_class as int, k)
    }

    /// Generates the dataset labels for a validated session shape.
    pub fn generate(metadata: MetaData) -> (d: Dataset)
        requires
            metadata.wf(),
        ensures
            d.wf(),
            d.metadata == metadata,
    {
        if metadata.samples_per_class == 0 {
            Dataset { labels: Vec::new(), metadata }
        } else {
            let labels = spiral_labels(metadata.num_classes, metadata.samples_per_class);
            Dataset { labels, metadata }
        }
    }
}

/// Law: every well-formed dataset satisfies the partition invariant: its
/// labels fall into `num_classes` contiguous runs of `samples_per_class`
/// slots, run `c` holding the value `c`.
pub proof fn lemma_dataset_partition(d: Dataset)
    requires
        d.wf(),
    ensures
        labels_partitioned(
            d.labels@,
            d.metadata.num_classes as int,
            d.metadata.samples_per_class as int,
        ),
{
    if d.metadata.samples_per_class > 0 {
        lemma_labels_partition(
            d.labels@,
            d.metadata.num_classes as int,
            d.metadata.samples_per_class as int,
        );
    }
}

/// Law: in the one-hot matrix, the cell of row `i` and column `j` is `1`
/// exactly when `j` is the label of sample `i`.
pub proof fn lemma_one_hot_slot(cells: Seq<u8>, labels: Seq<u32>, num_classes: int, i: int, j: int)
    requires
        num_classes > 0,
        0 <= i < labels.len(),
        0 <= j < num_classes,
        cells.len() == labels.len() * num_classes,
        forall|k: int| 0 <= k < cells.len()
            ==> #[trigger] cells[k] == one_hot_cell(labels, num_classes, k),
    ensures
        0 <= i * num_classes + j < cells.len(),
        cells[i * num_classes + j] == (if labels[i] as int == j {
            1u8
        } else {
            0u8
        }),
{
    let k = i * num_classes + j;
    assert(0 <= k && k < labels.len() * num_classes) by (nonlinear_arith)
        requires
            0 <= i < labels.len(),
            0 <= j < num_classes,
            k == i * num_classes + j,
    ;
    lemma_fundamental_div_mod_converse_div(k, num_classes, i, j);
    lemma_fundamental_div_mod_converse_mod(k, num_classes, i, j);
}

} // verus!
