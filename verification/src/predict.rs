use vstd::prelude::*;

verus! {

/// Score of class `j` in row `row` of a flattened row-major score matrix
/// with `num_classes` columns.
pub open spec fn score_at(scores: Seq<u32>, num_classes: int, row: int, j: int) -> u32 {
    scores[row * num_classes + j]
}

/// `m` is the index of the greatest score of row `row`, with ties broken in
/// favour of the lowest index: no class scores higher, and every class
/// before `m` scores strictly lower.
pub open spec fn is_row_argmax(scores: Seq<u32>, num_classes: int, row: int, m: int) -> bool {
    &&& 0 <= m < num_classes
    &&& forall|j: int| 0 <= j < num_classes
        ==> #[trigger] score_at(scores, num_classes, row, j) <= score_at(scores, num_classes, row, m)
    &&& forall|j: int| 0 <= j < m
        ==> #[trigger] score_at(scores, num_classes, row, j) < score_at(scores, num_classes, row, m)
}

/// Index of the greatest of the `num_classes` scores starting at `base`,
/// ties broken in favour of the lowest index.
///
/// The scores are order-preserving integer encodings of the softmax
/// probabilities: softmax output is non-negative, and the bit pattern of a
/// non-negative IEEE 754 value is monotone in its numeric value, so the
/// argmax over the encodings is the argmax over the probabilities.
pub fn argmax(scores: &Vec<u32>, base: usize, num_classes: usize) -> (m: usize)
    requires
        num_classes > 0,
        base + num_classes <= scores@.len(),
    ensures
        m < num_classes,
        forall|j: int| 0 <= j < num_classes as int
            ==> #[trigger] scores@[base as int + j] <= scores@[base as int + m as int],
        forall|j: int| 0 <= j < m as int
            ==> #[trigger] scores@[base as int + j] < scores@[base as int + m as int],
{
    let n = scores.len();
    let mut best: usize = 0;
    let mut max: u32 = scores[base];
    let mut j: usize = 1;
    while j < num_classes
        invariant
            1 <= j <= num_classes,
            best < j,
            base + num_classes <= n == scores@.len(),
            max == scores@[base as int + best as int],
            forall|i: int| 0 <= i < j as int ==> #[trigger] scores@[base as int + i] <= max,
            forall|i: int| 0 <= i < best as int ==> #[trigger] scores@[base as int + i] < max,
        decreases num_classes - j,
    {
        if scores[base + j] > max {
            best = j;
            max = scores[base + j];
        }
        j = j + 1;
    }
    best
}

/// Predicted class per row of a flattened row-major score matrix: the index
/// of the row's maximum score, ties broken in favour of the lowest index.
pub fn predict_labels(scores: &Vec<u32>, num_rows: usize, num_classes: usize) -> (labels: Vec<usize>)
    requires
        num_classes > 0,
        scores@.len() == num_rows as int * num_classes as int,
    ensures
        labels@.len() == num_rows as int,
        forall|r: int| 0 <= r < num_rows as int
            ==> is_row_argmax(scores@, num_classes as int, r, #[trigger] labels@[r] as int),
{
    let n = scores.len();
    let mut labels: Vec<usize> = Vec::new();
    let mut r: usize = 0;
    while r < num_rows
        invariant
            r <= num_rows,
            num_classes > 0,
            n == scores@.len(),
            scores@.len() == num_rows as int * num_classes as int,
            labels@.len() == r as int,
            forall|i: int| 0 <= i < r as int
                ==> is_row_argmax(scores@, num_classes as int, i, #[trigger] labels@[i] as int),
        decreases num_rows - r,
    {
        proof {
            let row = r as int;
            let nc = num_classes as int;
            let nr = num_rows as int;
            assert((row + 1) * nc <= nr * nc) by (nonlinear_arith)
                requires
                    row < nr,
                    nc > 0,
            ;
            assert((row + 1) * nc == row * nc + nc) by (nonlinear_arith);
        }
        let base = r * num_classes;
        let m = argmax(scores, base, num_classes);
        proof {
            assert forall|j: int| 0 <= j < num_classes as int implies
                #[trigger] score_at(scores@, num_classes as int, r as int, j)
                    <= score_at(scores@, num_classes as int, r as int, m as int)
            by {
                assert(scores@[base as int + j] <= scores@[base as int + m as int]);
            }
            assert forall|j: int| 0 <= j < m as int implies
                #[trigger] score_at(scores@, num_classes as int, r as int, j)
                    < score_at(scores@, num_classes as int, r as int, m as int)
            by {
                assert(scores@[base as int + j] < scores@[base as int + m as int]);
            }
        }
        labels.push(m);
        r = r + 1;
    }
    labels
}

} // verus!
